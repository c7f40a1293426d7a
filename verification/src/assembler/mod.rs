//! The assembler: turns assembly source into byte code (see `grammar` for
//! what a source means and how the byte code is laid out).
pub mod grammar;
pub mod literals;
pub mod opcode;
pub mod scanner;
pub mod scanning;
pub mod token;

use vstd::prelude::*;
use vstd::utf8::encode_utf8;

use crate::assembler::grammar::{
    assembled, assistant_role, build, build_item, byte_code, bytes_of, context, continue_from,
    general, header_size, is_terminal, lemma_build_push, lemma_continue_eof, lemma_continue_fails,
    lemma_continue_label, lemma_continue_statement, lemma_tokens_from, lexeme, operand, operands,
    padded, parse_items, place, resolve, resolved_text, shape, statement, statement_fails, string_words,
    tokens, tokens_from, trim_colons, user_role, valid_role, Cell, Item, Layout, Operand, Slot,
};
use crate::assembler::opcode::{opcode_for, opcode_value, OpCode};
use crate::assembler::scanner::{lemma_scan, Scanner};
use crate::assembler::token::{Token, TokenModel, TokenType};
use crate::exception::{wrapped, BaseException, Exception};
use crate::text::{
    bytes_equal, decimal, lower_all, lower_byte, lower_bytes, owned, parse_u32, parse_u32_bytes,
    push_decimal, sub_bytes, unescape_bytes,
};
use crate::word::{to_be_bytes, word_bytes};

verus! {

/// The text words before labels are resolved: label references are zero.
pub open spec fn unpatched(text: Seq<Cell>) -> Seq<u32> {
    Seq::new(
        text.len(),
        |i: int|
            match text[i] {
                Cell::Value(v) => v,
                Cell::Ref(_) => 0,
            },
    )
}

/// The label references of a text, in order, with their text indices.
pub open spec fn refs(text: Seq<Cell>) -> Seq<(Seq<u8>, nat)>
    decreases text.len(),
{
    if text.len() == 0 {
        seq![]
    } else {
        let r = refs(text.drop_last());
        match text.last() {
            Cell::Ref(n) => r.push((n, (text.len() - 1) as nat)),
            Cell::Value(_) => r,
        }
    }
}

/// How many label references come before text index `j`.
pub open spec fn rank(text: Seq<Cell>, j: int) -> int {
    refs(text.take(j)).len() as int
}

/// The label table that a sequence of definitions gives: a later definition
/// of a name replaces an earlier one.
pub open spec fn label_map(l: Seq<(Seq<u8>, nat)>) -> Map<Seq<u8>, nat>
    decreases l.len(),
{
    if l.len() == 0 {
        Map::empty()
    } else {
        label_map(l.drop_last()).insert(l.last().0, l.last().1)
    }
}

proof fn lemma_refs(text: Seq<Cell>)
    ensures
        forall|i: int|
            0 <= i < refs(text).len() ==> {
                &&& (#[trigger] refs(text)[i]).1 < text.len()
                &&& text[refs(text)[i].1 as int] == Cell::Ref(refs(text)[i].0)
                &&& rank(text, refs(text)[i].1 as int) == i
            },
        forall|j: int|
            0 <= j < text.len() && (#[trigger] text[j] is Ref) ==> {
                &&& rank(text, j) < refs(text).len()
                &&& refs(text)[rank(text, j)] == (text[j]->Ref_0, j as nat)
            },
    decreases text.len(),
{
    if text.len() > 0 {
        let t = text.drop_last();
        let last = (text.len() - 1) as int;
        lemma_refs(t);
        assert(text.take(last) =~= t);
        assert forall|j: int| 0 <= j < last implies #[trigger] text.take(j) == t.take(j) by {
            assert(text.take(j) =~= t.take(j));
        }
        assert forall|i: int| 0 <= i < refs(text).len() implies {
            &&& (#[trigger] refs(text)[i]).1 < text.len()
            &&& text[refs(text)[i].1 as int] == Cell::Ref(refs(text)[i].0)
            &&& rank(text, refs(text)[i].1 as int) == i
        } by {
            if i < refs(t).len() {
                let (n, j) = refs(t)[i];
                assert(refs(text)[i] == refs(t)[i]);
                assert(text.take(j as int) == t.take(j as int));
            }
        }
        assert forall|j: int| 0 <= j < text.len() && (#[trigger] text[j] is Ref) implies {
            &&& rank(text, j) < refs(text).len()
            &&& refs(text)[rank(text, j)] == (text[j]->Ref_0, j as nat)
        } by {
            if j < last {
                assert(t[j] == text[j]);
                assert(text.take(j) == t.take(j));
            }
        }
    }
}

proof fn lemma_label_map_last(l: Seq<(Seq<u8>, nat)>, n: Seq<u8>, i: int)
    requires
        0 <= i < l.len(),
        l[i].0 == n,
        forall|j: int| i < j < l.len() ==> (#[trigger] l[j]).0 != n,
    ensures
        label_map(l).contains_key(n),
        label_map(l)[n] == l[i].1,
    decreases l.len(),
{
    if i < l.len() - 1 {
        lemma_label_map_last(l.drop_last(), n, i);
    }
}

proof fn lemma_label_map_absent(l: Seq<(Seq<u8>, nat)>, n: Seq<u8>)
    requires
        forall|j: int| 0 <= j < l.len() ==> (#[trigger] l[j]).0 != n,
    ensures
        !label_map(l).contains_key(n),
    decreases l.len(),
{
    if l.len() > 0 {
        lemma_label_map_absent(l.drop_last(), n);
    }
}

/// An operand read from the source.
pub enum Parsed {
    Word(u32),
    Text(Vec<u8>),
    Target(Vec<u8>),
}

impl Parsed {
    pub open spec fn slot(&self) -> Slot {
        match self {
            Parsed::Word(v) => Slot::Word(*v),
            Parsed::Text(t) => Slot::Text(t@),
            Parsed::Target(l) => Slot::Target(l@),
        }
    }
}

pub open spec fn slots(p: Seq<Parsed>) -> Seq<Slot> {
    Seq::new(p.len(), |i: int| p[i].slot())
}

/// A reference to a label that is not yet resolved.
struct UnresolvedLabel {
    name: Vec<u8>,
    index: usize,
    token: Token,
}

/// The assembler for one source.
pub struct Assembler {
    data_segment: Vec<u32>,
    text_segment: Vec<u32>,
    source: String,
    scanner: Scanner,
    previous: Option<Token>,
    current: Option<Token>,
    labels: Vec<(Vec<u8>, usize)>,
    unresolved_labels: Vec<UnresolvedLabel>,
    /// Position of `current` in the token stream (-1 before the first token).
    index: Ghost<int>,
    /// The statements laid out so far.
    done: Ghost<Seq<Item>>,
    /// The text laid out so far, before labels are resolved.
    cells: Ghost<Seq<Cell>>,
}

/// The text of a diagnostic at a token: `[Line l:c] Error:`, then the
/// scanner's message for an error token, then `message`, each after a space.
pub open spec fn diagnostic_text(t: TokenModel, message: Seq<char>) -> Seq<char> {
    let head = "[Line "@ + decimal(t.line) + ":"@ + decimal(t.column) + "] Error:"@;
    let scanned = if t.token_type == TokenType::Error && t.error is Some {
        " "@ + t.error.unwrap()
    } else {
        Seq::empty()
    };
    head + scanned + " "@ + message
}

/// `e` is an assembly error with message `message` and no cause.
pub open spec fn assembly_error_with(e: Exception, message: Seq<char>) -> bool {
    match e {
        Exception::Assembler(b) => b.message@ == message && b.inner_exception is None,
        _ => false,
    }
}

/// `e` is the failure of an assembly, caused by an assembly error with
/// message `text`.
pub open spec fn assembly_failure(e: Exception, text: Seq<char>) -> bool {
    match e {
        Exception::Assembler(b) => b.message@ == "Assembly failed due to errors."@ && match b.inner_exception {
            Some(inner) => assembly_error_with(*inner, text),
            None => false,
        },
        _ => false,
    }
}

/// A diagnostic for an error at `token`, wrapped as an assembly failure.
fn diagnostic(token: &Token, message: &str) -> (e: Exception)
    ensures
        e is Assembler,
        assembly_failure(e, diagnostic_text(token@, message@)),
{
    let mut text = owned("[Line ");
    push_decimal(&mut text, token.line() as u64);
    text.append(":");
    push_decimal(&mut text, token.column() as u64);
    text.append("] Error:");
    let ghost head = text@;
    if *token.token_type() == TokenType::Error {
        match token.error() {
            Some(e) => {
                text.append(" ");
                text.append(e.as_str());
            },
            None => {},
        }
    }
    let ghost scanned = text@.subrange(head.len() as int, text@.len() as int);
    text.append(" ");
    text.append(message);
    proof {
        assert(head == "[Line "@ + decimal(token@.line) + ":"@ + decimal(token@.column)
            + "] Error:"@);
        if token@.token_type == TokenType::Error && token@.error is Some {
            assert(scanned =~= " "@ + token@.error.unwrap());
        } else {
            assert(scanned =~= Seq::<char>::empty());
        }
        assert(text@ =~= diagnostic_text(token@, message@));
    }
    Exception::Assembler(
        wrapped(
            "Assembly failed due to errors.",
            Exception::Assembler(BaseException::new(text, None)),
        ),
    )
}

/// An assembly error with `message` and no cause.
fn assembly_error(message: &str) -> (e: Exception)
    ensures
        e is Assembler,
        assembly_error_with(e, message@),
{
    Exception::Assembler(BaseException::new(owned(message), None))
}

impl Assembler {
    /// The bytes of the source.
    pub closed spec fn src(&self) -> Seq<u8> {
        encode_utf8(self.source@)
    }

    pub closed spec fn wf(&self) -> bool {
        encode_utf8(self.source@).len() < usize::MAX
    }

    closed spec fn labels_view(&self) -> Seq<(Seq<u8>, nat)> {
        Seq::new(self.labels@.len(), |i: int| (self.labels@[i].0@, self.labels@[i].1 as nat))
    }

    closed spec fn unresolved_view(&self) -> Seq<(Seq<u8>, nat)> {
        Seq::new(
            self.unresolved_labels@.len(),
            |i: int| (self.unresolved_labels@[i].name@, self.unresolved_labels@[i].index as nat),
        )
    }

    closed spec fn stream_ok(&self) -> bool {
        let src = self.src();
        let toks = tokens(src);
        let k = self.index@;
        &&& self.wf()
        &&& self.scanner.wf()
        &&& self.scanner.src() == src
        &&& -1 <= k < toks.len()
        &&& k == -1 ==> self.current is None && toks == tokens_from(src, self.scanner.pos())
        &&& k >= 0 ==> (self.current matches Some(t) && t@ == toks[k])
        &&& k >= 0 ==> toks.skip(k + 1) == if is_terminal(toks[k]) {
            seq![]
        } else {
            tokens_from(src, self.scanner.pos())
        }
        &&& k >= 0 ==> toks[k].start <= toks[k].end <= src.len()
        &&& k >= 0 ==> (toks[k].token_type == TokenType::String ==> toks[k].start + 2
            <= toks[k].end)
        &&& k >= 1 ==> (self.previous matches Some(t) && t@ == toks[k - 1])
        &&& k >= 1 ==> toks[k - 1].start <= toks[k - 1].end <= src.len()
        &&& k >= 1 ==> (toks[k - 1].token_type == TokenType::String ==> toks[k - 1].start + 2
            <= toks[k - 1].end)
    }

    closed spec fn segments_ok(&self) -> bool {
        &&& self.text_segment@ == unpatched(self.cells@)
        &&& self.unresolved_view() == refs(self.cells@)
    }

    closed spec fn layout(&self) -> Layout {
        Layout { text: self.cells@, data: self.data_segment@, labels: label_map(self.labels_view()) }
    }

    closed spec fn layout_ok(&self) -> bool {
        &&& self.segments_ok()
        &&& build(self.done@) == Some(self.layout())
    }

    closed spec fn boundary(&self) -> bool {
        let k = self.index@;
        assembled(self.src()) == continue_from(
            self.src(),
            tokens(self.src()),
            if k < 0 {
                0
            } else {
                k
            },
            self.done@,
        )
    }

    closed spec fn same_layout(&self, other: &Self) -> bool {
        &&& self.source == other.source
        &&& self.data_segment@ == other.data_segment@
        &&& self.text_segment@ == other.text_segment@
        &&& self.labels_view() == other.labels_view()
        &&& self.unresolved_view() == other.unresolved_view()
        &&& self.done@ == other.done@
        &&& self.cells@ == other.cells@
    }

    closed spec fn fresh(&self) -> bool {
        &&& self.stream_ok()
        &&& self.layout_ok()
        &&& self.boundary()
        &&& self.index@ == -1
    }

    pub fn new(source: String) -> (a: Assembler)
        requires
            encode_utf8(source@).len() < usize::MAX,
        ensures
            a.wf(),
            a.src() == encode_utf8(source@),
    {
        let scanner = Scanner::new(source.clone());
        Assembler {
            data_segment: Vec::new(),
            text_segment: Vec::new(),
            source,
            scanner,
            previous: None,
            current: None,
            labels: Vec::new(),
            unresolved_labels: Vec::new(),
            index: Ghost(-1),
            done: Ghost(Seq::empty()),
            cells: Ghost(Seq::empty()),
        }
    }

    /// Starts over from the beginning of the source.
    fn reset(&mut self)
        requires
            old(self).wf(),
        ensures
            final(self).fresh(),
            final(self).source == old(self).source,
    {
        self.scanner = Scanner::new(self.source.clone());
        self.data_segment = Vec::new();
        self.text_segment = Vec::new();
        self.previous = None;
        self.current = None;
        self.labels = Vec::new();
        self.unresolved_labels = Vec::new();
        self.index = Ghost(-1);
        self.done = Ghost(Seq::empty());
        self.cells = Ghost(Seq::empty());
        assert(self.labels_view() =~= Seq::<(Seq<u8>, nat)>::empty());
        assert(self.unresolved_view() =~= Seq::<(Seq<u8>, nat)>::empty());
        assert(unpatched(self.cells@) =~= Seq::<u32>::empty());
    }

    /// The text of a token.
    fn lexeme(&self, token: &Token) -> (r: Vec<u8>)
        requires
            self.stream_ok(),
            token@.start <= token@.end <= self.src().len(),
        ensures
            r@ == lexeme(self.src(), token@),
    {
        self.scanner.source_slice(token.start(), token.end())
    }

    fn error_at_current(&self, message: &str) -> (e: Exception)
        ensures
            e is Assembler,
            match self.current {
                Some(t) => assembly_failure(e, diagnostic_text(t@, message@)),
                None => assembly_error_with(
                    e,
                    "Unexpected end of input. No current token available for error reporting."@,
                ),
            },
    {
        match &self.current {
            Some(t) => diagnostic(t, message),
            None => assembly_error(
                "Unexpected end of input. No current token available for error reporting.",
            ),
        }
    }

    fn error_at_previous(&self, message: &str) -> (e: Exception)
        ensures
            e is Assembler,
            match self.previous {
                Some(t) => assembly_failure(e, diagnostic_text(t@, message@)),
                None => assembly_error_with(
                    e,
                    "Unexpected end of input. No previous token available for error reporting."@,
                ),
            },
    {
        match &self.previous {
            Some(t) => diagnostic(t, message),
            None => assembly_error(
                "Unexpected end of input. No previous token available for error reporting.",
            ),
        }
    }

    /// Moves to the next token; scanning an error token is an error.
    fn advance(&mut self) -> (r: Result<(), Exception>)
        requires
            old(self).stream_ok(),
            old(self).index@ == -1 || !is_terminal(tokens(old(self).src())[old(self).index@]),
        ensures
            final(self).stream_ok(),
            final(self).same_layout(old(self)),
            final(self).index@ == old(self).index@ + 1,
            r is Ok <==> tokens(old(self).src())[old(self).index@ + 1].token_type
                != TokenType::Error,
            r matches Err(e) ==> e is Assembler,
    {
        let ghost src = self.src();
        let ghost toks = tokens(src);
        let ghost k = self.index@;
        let ghost p = self.scanner.pos();
        proof {
            self.scanner.lemma_wf();
            lemma_tokens_from(src, p);
            lemma_scan(src, p);
            if k == -1 {
                assert(toks.skip(k + 1) =~= toks);
            }
        }
        self.previous = match &self.current {
            Some(t) => Some(t.duplicate()),
            None => None,
        };
        let token = self.scanner.scan_token();
        let is_error = *token.token_type() == TokenType::Error;
        self.current = Some(token);
        self.index = Ghost(k + 1);
        proof {
            assert(toks[k + 1] == toks.skip(k + 1)[0]);
            assert(toks.skip(k + 2) =~= toks.skip(k + 1).skip(1));
            if is_terminal(toks[k + 1]) {
                assert(toks.skip(k + 2) =~= Seq::<crate::assembler::token::TokenModel>::empty());
            } else {
                assert(toks.skip(k + 2) == tokens_from(src, self.scanner.pos()));
            }
        }
        if is_error {
            return Err(self.error_at_current("Failed to advance to next token due to scanning error."));
        }
        Ok(())
    }

    /// Consumes a token of the expected kind.
    fn consume(&mut self, token_type: TokenType, message: &str) -> (r: Result<(), Exception>)
        requires
            old(self).stream_ok(),
            old(self).index@ >= 0,
            token_type != TokenType::Eof,
            token_type != TokenType::Error,
        ensures
            final(self).stream_ok(),
            final(self).same_layout(old(self)),
            r matches Err(e) ==> e is Assembler,
            ({
                let toks = tokens(old(self).src());
                let k = old(self).index@;
                if toks[k].token_type == token_type {
                    &&& final(self).index@ == k + 1
                    &&& (r is Ok <==> toks[k + 1].token_type != TokenType::Error)
                } else {
                    &&& r is Err
                    &&& final(self).index@ == k
                }
            }),
    {
        let matches = match &self.current {
            Some(t) => *t.token_type() == token_type,
            None => false,
        };
        if matches {
            self.advance()
        } else {
            Err(self.error_at_previous(message))
        }
    }

    /// The text of the token just consumed.
    fn previous_lexeme(&self) -> (r: Vec<u8>)
        requires
            self.stream_ok(),
            self.index@ >= 1,
        ensures
            r@ == lexeme(self.src(), tokens(self.src())[self.index@ - 1]),
    {
        match &self.previous {
            Some(t) => self.lexeme(t),
            None => Vec::new(),
        }
    }

    /// Reads a number operand.
    fn number(&mut self, message: &str) -> (r: Result<u32, Exception>)
        requires
            old(self).stream_ok(),
            old(self).index@ >= 0,
        ensures
            final(self).stream_ok(),
            final(self).same_layout(old(self)),
            r matches Err(e) ==> e is Assembler,
            ({
                let toks = tokens(old(self).src());
                let k = old(self).index@;
                let o = operand(old(self).src(), toks[k], Operand::Num);
                match r {
                    Ok(n) => o == Some(Slot::Word(n)) && final(self).index@ == k + 1
                        && toks[k + 1].token_type != TokenType::Error,
                    Err(_) => o is None || (k + 1 < toks.len() && toks[k + 1].token_type
                        == TokenType::Error),
                }
            }),
    {
        self.consume(TokenType::Number, message)?;
        let lexeme = self.previous_lexeme();
        match parse_u32_bytes(lexeme.as_slice()) {
            Some(value) => Ok(value),
            None => Err(self.error_at_current("Failed to parse number from lexeme.")),
        }
    }

    /// Reads a register operand: the prefix (`x` or `c`, in any case) and a
    /// number from 0 to 32.
    fn register(&mut self, message: &str, prefix: u8) -> (r: Result<u32, Exception>)
        requires
            old(self).stream_ok(),
            old(self).index@ >= 0,
        ensures
            final(self).stream_ok(),
            final(self).same_layout(old(self)),
            r matches Err(e) ==> e is Assembler,
            ({
                let toks = tokens(old(self).src());
                let k = old(self).index@;
                let o = operand(old(self).src(), toks[k], Operand::Reg(prefix));
                match r {
                    Ok(n) => o == Some(Slot::Word(n)) && final(self).index@ == k + 1
                        && toks[k + 1].token_type != TokenType::Error,
                    Err(_) => o is None || (k + 1 < toks.len() && toks[k + 1].token_type
                        == TokenType::Error),
                }
            }),
    {
        self.consume(TokenType::Identifier, message)?;
        let lexeme = self.previous_lexeme();
        if lexeme.len() == 0 || lower_byte(lexeme[0]) != prefix {
            return Err(self.error_at_previous("Invalid register format."));
        }
        let digits = sub_bytes(lexeme.as_slice(), 1, lexeme.len());
        assert(digits@ =~= lexeme@.drop_first());
        let register_number = match parse_u32_bytes(digits.as_slice()) {
            Some(v) => v,
            None => {
                return Err(self.error_at_previous("Failed to parse register number."));
            },
        };
        if register_number > 32 {
            return Err(self.error_at_previous("Register number out of range (0-32)."));
        }
        Ok(register_number)
    }

    /// Reads a string operand and returns its text with escapes replaced.
    fn string(&mut self, message: &str) -> (r: Result<Vec<u8>, Exception>)
        requires
            old(self).stream_ok(),
            old(self).index@ >= 0,
        ensures
            final(self).stream_ok(),
            final(self).same_layout(old(self)),
            r matches Err(e) ==> e is Assembler,
            ({
                let toks = tokens(old(self).src());
                let k = old(self).index@;
                let o = operand(old(self).src(), toks[k], Operand::Str);
                match r {
                    Ok(s) => o == Some(Slot::Text(s@)) && final(self).index@ == k + 1
                        && toks[k + 1].token_type != TokenType::Error,
                    Err(_) => o is None || (k + 1 < toks.len() && toks[k + 1].token_type
                        == TokenType::Error),
                }
            }),
    {
        self.consume(TokenType::String, message)?;
        let lexeme = self.previous_lexeme();
        let inner = sub_bytes(lexeme.as_slice(), 1, lexeme.len() - 1);
        Ok(unescape_bytes(inner.as_slice()))
    }

    /// Reads a label name operand.
    fn identifier(&mut self, message: &str) -> (r: Result<Vec<u8>, Exception>)
        requires
            old(self).stream_ok(),
            old(self).index@ >= 0,
        ensures
            final(self).stream_ok(),
            final(self).same_layout(old(self)),
            r matches Err(e) ==> e is Assembler,
            ({
                let toks = tokens(old(self).src());
                let k = old(self).index@;
                let o = operand(old(self).src(), toks[k], Operand::Lbl);
                match r {
                    Ok(s) => o == Some(Slot::Target(s@)) && final(self).index@ == k + 1
                        && toks[k + 1].token_type != TokenType::Error,
                    Err(_) => o is None || (k + 1 < toks.len() && toks[k + 1].token_type
                        == TokenType::Error),
                }
            }),
    {
        self.consume(TokenType::Identifier, message)?;
        Ok(self.previous_lexeme())
    }

    /// A role must be `user` or `assistant`, in any case.
    fn validate_role(&self, role: &[u8]) -> (r: Result<(), Exception>)
        ensures
            r is Ok <==> valid_role(role@),
            r matches Err(e) ==> e is Assembler,
    {
        if role.len() == 0 {
            return Err(self.error_at_previous("Role name cannot be empty."));
        }
        let lower = lower_bytes(role);
        let user: [u8; 4] = [117u8, 115, 101, 114];
        let assistant: [u8; 9] = [97u8, 115, 115, 105, 115, 116, 97, 110, 116];
        assert(user@ =~= user_role());
        assert(assistant@ =~= assistant_role());
        if !(bytes_equal(lower.as_slice(), &user) || bytes_equal(lower.as_slice(), &assistant)) {
            return Err(self.error_at_previous("Invalid role name. Expected 'user' or 'assistant'."));
        }
        Ok(())
    }

    /// Reads one operand of the given kind.
    fn read_operand(&mut self, o: Operand) -> (r: Result<Parsed, Exception>)
        requires
            old(self).stream_ok(),
            old(self).index@ >= 0,
        ensures
            final(self).stream_ok(),
            final(self).same_layout(old(self)),
            r matches Err(e) ==> e is Assembler,
            ({
                let toks = tokens(old(self).src());
                let k = old(self).index@;
                let op = operand(old(self).src(), toks[k], o);
                match r {
                    Ok(p) => op == Some(p.slot()) && final(self).index@ == k + 1
                        && toks[k + 1].token_type != TokenType::Error,
                    Err(_) => op is None || (k + 1 < toks.len() && toks[k + 1].token_type
                        == TokenType::Error),
                }
            }),
    {
        match o {
            Operand::Reg(prefix) => {
                let n = self.register("Expected register.", prefix)?;
                Ok(Parsed::Word(n))
            },
            Operand::Num => {
                let n = self.number("Expected number.")?;
                Ok(Parsed::Word(n))
            },
            Operand::Str => {
                let s = self.string("Expected string.")?;
                Ok(Parsed::Text(s))
            },
            Operand::Role => {
                let ghost toks = tokens(self.src());
                let ghost k = self.index@;
                let s = self.string("Expected role string.")?;
                self.validate_role(s.as_slice())?;
                Ok(Parsed::Text(s))
            },
            Operand::Lbl => {
                let l = self.identifier("Expected label name.")?;
                Ok(Parsed::Target(l))
            },
        }
    }

    /// Reads the operands of the instruction whose keyword was just consumed.
    fn operands(&mut self, shape: &[Operand]) -> (r: Result<Vec<Parsed>, Exception>)
        requires
            old(self).stream_ok(),
            old(self).index@ >= 1,
            tokens(old(self).src())[old(self).index@].token_type != TokenType::Error,
        ensures
            final(self).stream_ok(),
            final(self).same_layout(old(self)),
            r matches Err(e) ==> e is Assembler,
            ({
                let src = old(self).src();
                let toks = tokens(src);
                let i = old(self).index@ - 1;
                let all = operands(src, toks, i, shape@, 0);
                match r {
                    Ok(v) => {
                        &&& all == Some(slots(v@))
                        &&& final(self).index@ == if shape@.len() == 0 {
                            i + 1
                        } else {
                            i + 2 * shape@.len()
                        }
                        &&& toks[final(self).index@].token_type != TokenType::Error
                        &&& v@.len() == shape@.len()
                    },
                    Err(_) => all is None || (0 <= i + 2 * shape@.len() < toks.len()
                        && toks[i + 2 * shape@.len()].token_type == TokenType::Error),
                }
            }),
    {
        let ghost src = self.src();
        let ghost toks = tokens(src);
        let ghost i = self.index@ - 1;
        let mut out: Vec<Parsed> = Vec::new();
        let mut n: usize = 0;
        assert(operands(src, toks, i, shape@, 0) == match operands(src, toks, i, shape@, 0) {
            None => None,
            Some(rest) => Some(slots(out@) + rest),
        }) by {
            match operands(src, toks, i, shape@, 0) {
                None => {},
                Some(rest) => {
                    assert(slots(out@) + rest =~= rest);
                },
            }
        }
        while n < shape.len()
            invariant
                self.stream_ok(),
                self.same_layout(old(self)),
                self.src() == src,
                toks == tokens(src),
                i == old(self).index@ - 1,
                i >= 0,
                0 <= n <= shape@.len(),
                out@.len() == n,
                self.index@ == if n == 0 {
                    i + 1
                } else {
                    i + 2 * n
                },
                toks[self.index@].token_type != TokenType::Error,
                operands(src, toks, i, shape@, 0) == match operands(src, toks, i, shape@, n as int) {
                    None => None,
                    Some(rest) => Some(slots(out@) + rest),
                },
            decreases shape.len() - n,
        {
            let ghost before = out@;
            let ghost j = i + 1 + 2 * n;
            if n > 0 {
                match self.consume(TokenType::Comma, "Expected ','.") {
                    Ok(()) => {},
                    Err(e) => {
                        proof {
                            if toks[j - 1].token_type == TokenType::Comma {
                                assert(toks[j].token_type == TokenType::Error);
                                assert(operand(src, toks[j], shape@[n as int]) is None);
                            }
                            assert(operands(src, toks, i, shape@, n as int) is None);
                        }
                        return Err(e);
                    },
                }
            }
            let p = match self.read_operand(shape[n]) {
                Ok(p) => p,
                Err(e) => {
                    proof {
                        if operand(src, toks[j], shape@[n as int]) is Some {
                            assert(toks[j + 1].token_type == TokenType::Error);
                            if n + 1 < shape@.len() {
                                assert(operands(src, toks, i, shape@, n + 1) is None);
                            } else {
                                assert(j + 1 == i + 2 * shape@.len());
                            }
                        }
                    }
                    return Err(e);
                },
            };
            out.push(p);
            proof {
                let s = p.slot();
                assert(slots(out@) =~= slots(before).push(s));
                match operands(src, toks, i, shape@, n + 1) {
                    None => {},
                    Some(rest) => {
                        assert(slots(before) + (seq![s] + rest) =~= slots(out@) + rest);
                    },
                }
            }
            n += 1;
        }
        Ok(out)
    }

    fn emit_number(&mut self, value: u32)
        requires
            old(self).segments_ok(),
        ensures
            final(self).segments_ok(),
            final(self).cells@ == old(self).cells@.push(Cell::Value(value)),
            final(self).unresolved_view() == old(self).unresolved_view(),
            final(self).data_segment@ == old(self).data_segment@,
            final(self).labels_view() == old(self).labels_view(),
            final(self).done@ == old(self).done@,
            final(self).source == old(self).source,
            final(self).scanner == old(self).scanner,
            final(self).index == old(self).index,
            final(self).previous == old(self).previous,
            final(self).current == old(self).current,
    {
        self.text_segment.push(value);
        self.cells = Ghost(self.cells@.push(Cell::Value(value)));
        assert(self.cells@.drop_last() =~= old(self).cells@);
        assert(unpatched(self.cells@) =~= unpatched(old(self).cells@).push(value));
    }

    fn emit_opcode(&mut self, op_code: OpCode)
        requires
            old(self).segments_ok(),
        ensures
            final(self).segments_ok(),
            final(self).cells@ == old(self).cells@.push(Cell::Value(opcode_value(op_code))),
            final(self).unresolved_view() == old(self).unresolved_view(),
            final(self).data_segment@ == old(self).data_segment@,
            final(self).labels_view() == old(self).labels_view(),
            final(self).done@ == old(self).done@,
            final(self).source == old(self).source,
            final(self).scanner == old(self).scanner,
            final(self).index == old(self).index,
            final(self).previous == old(self).previous,
            final(self).current == old(self).current,
    {
        self.emit_number(op_code.value());
    }

    /// Puts a string and its terminating zero into the data, and returns the
    /// offset where it starts.
    fn emit_string(&mut self, value: &[u8]) -> (r: Result<u32, Exception>)
        ensures
            final(self).text_segment@ == old(self).text_segment@,
            final(self).unresolved_view() == old(self).unresolved_view(),
            final(self).cells@ == old(self).cells@,
            final(self).labels_view() == old(self).labels_view(),
            final(self).done@ == old(self).done@,
            final(self).source == old(self).source,
            final(self).scanner == old(self).scanner,
            final(self).index == old(self).index,
            final(self).previous == old(self).previous,
            final(self).current == old(self).current,
            r is Ok <==> old(self).data_segment@.len() <= u32::MAX,
            r matches Ok(a) ==> a == old(self).data_segment@.len() && final(self).data_segment@
                == old(self).data_segment@ + string_words(value@),
            r matches Err(e) ==> e is Assembler,
    {
        if self.data_segment.len() > 0xFFFF_FFFFusize {
            return Err(self.error_at_current("Failed to convert data segment length to u32."));
        }
        let address = self.data_segment.len() as u32;
        let mut i: usize = 0;
        while i < value.len()
            invariant
                i <= value.len(),
                self.data_segment@ == old(self).data_segment@ + Seq::new(
                    i as nat,
                    |j: int| value@[j] as u32,
                ),
                self.text_segment@ == old(self).text_segment@,
                self.unresolved_labels@ == old(self).unresolved_labels@,
                self.labels@ == old(self).labels@,
                self.cells == old(self).cells,
                self.done == old(self).done,
                self.source == old(self).source,
                self.scanner == old(self).scanner,
                self.index == old(self).index,
                self.previous == old(self).previous,
                self.current == old(self).current,
            decreases value.len() - i,
        {
            self.data_segment.push(value[i] as u32);
            i += 1;
            assert(self.data_segment@ =~= old(self).data_segment@ + Seq::new(
                i as nat,
                |j: int| value@[j] as u32,
            ));
        }
        self.data_segment.push(0);
        assert(self.data_segment@ =~= old(self).data_segment@ + string_words(value@));
        Ok(address)
    }

    /// Puts a zero in the text and records it as a reference to `key`.
    fn emit_label(&mut self, key: Vec<u8>) -> (r: Result<(), Exception>)
        requires
            old(self).segments_ok(),
        ensures
            final(self).segments_ok(),
            r is Ok,
            final(self).cells@ == old(self).cells@.push(Cell::Ref(key@)),
            final(self).data_segment@ == old(self).data_segment@,
            final(self).labels_view() == old(self).labels_view(),
            final(self).done@ == old(self).done@,
            final(self).source == old(self).source,
            final(self).scanner == old(self).scanner,
            final(self).index == old(self).index,
            final(self).previous == old(self).previous,
            final(self).current == old(self).current,
    {
        let index = self.text_segment.len();
        self.emit_number(0);
        assert(self.text_segment@ =~= unpatched(old(self).cells@).push(0));
        self.cells = Ghost(old(self).cells@.push(Cell::Ref(key@)));
        assert(unpatched(self.cells@) =~= unpatched(old(self).cells@).push(0));
        self.add_unresolved_label(key, index);
        assert(self.cells@.drop_last() =~= old(self).cells@);
        assert(self.unresolved_view() =~= refs(old(self).cells@).push((key@, index as nat)));
        Ok(())
    }

    /// Records a reference to a label at a text index.
    fn add_unresolved_label(&mut self, key: Vec<u8>, index: usize)
        ensures
            final(self).unresolved_view() == old(self).unresolved_view().push((key@, index as nat)),
            final(self).text_segment@ == old(self).text_segment@,
            final(self).cells == old(self).cells,
            final(self).data_segment@ == old(self).data_segment@,
            final(self).labels@ == old(self).labels@,
            final(self).done@ == old(self).done@,
            final(self).source == old(self).source,
            final(self).scanner == old(self).scanner,
            final(self).index == old(self).index,
            final(self).previous == old(self).previous,
            final(self).current == old(self).current,
    {
        let token = match &self.previous {
            Some(t) => t.duplicate(),
            None => Token::new(TokenType::Eof, 0, 0, 0, 0, None),
        };
        self.unresolved_labels.push(UnresolvedLabel { name: key, index, token });
        assert(self.unresolved_view() =~= old(self).unresolved_view().push((key@, index as nat)));
    }

    /// Lays out one operand word.
    fn emit_slot(&mut self, s: Parsed) -> (r: Result<(), Exception>)
        requires
            old(self).segments_ok(),
        ensures
            final(self).segments_ok(),
            final(self).labels_view() == old(self).labels_view(),
            final(self).done@ == old(self).done@,
            final(self).source == old(self).source,
            final(self).scanner == old(self).scanner,
            final(self).index == old(self).index,
            final(self).previous == old(self).previous,
            final(self).current == old(self).current,
            r matches Err(e) ==> e is Assembler,
            match place(s.slot(), old(self).data_segment@) {
                None => r is Err,
                Some((c, d)) => r is Ok && final(self).cells@ == old(self).cells@.push(c)
                    && final(self).data_segment@ == d,
            },
    {
        match s {
            Parsed::Word(v) => {
                self.emit_number(v);
                Ok(())
            },
            Parsed::Text(t) => {
                let pointer = self.emit_string(t.as_slice())?;
                self.emit_number(pointer);
                Ok(())
            },
            Parsed::Target(l) => self.emit_label(l),
        }
    }

    /// Lays out an instruction: its operation, then its operands padded with
    /// zeros to three words.
    fn emit_operands(&mut self, op_code: OpCode, parsed: Vec<Parsed>) -> (r: Result<(), Exception>)
        requires
            old(self).segments_ok(),
            parsed@.len() <= 3,
        ensures
            final(self).segments_ok(),
            final(self).labels_view() == old(self).labels_view(),
            final(self).done@ == old(self).done@,
            final(self).source == old(self).source,
            final(self).scanner == old(self).scanner,
            final(self).index == old(self).index,
            final(self).previous == old(self).previous,
            final(self).current == old(self).current,
            r matches Err(e) ==> e is Assembler,
            ({
                let p = padded(slots(parsed@));
                match build_item(old(self).layout(), Item::Op(op_code, p[0], p[1], p[2])) {
                    None => r is Err,
                    Some(nb) => r is Ok && final(self).layout() == nb,
                }
            }),
    {
        let ghost s = slots(parsed@);
        let ghost p = padded(s);
        let ghost b = self.layout();
        let mut parsed = parsed;
        while parsed.len() < 3
            invariant
                parsed@.len() <= 3,
                s.len() <= parsed@.len(),
                slots(parsed@) == s + Seq::new((parsed@.len() - s.len()) as nat, |i: int| Slot::Word(0)),
            decreases 3 - parsed.len(),
        {
            let ghost before = parsed@;
            parsed.push(Parsed::Word(0));
            assert(slots(parsed@) =~= slots(before).push(Slot::Word(0)));
            assert(slots(parsed@) =~= s + Seq::new((parsed@.len() - s.len()) as nat, |i: int| Slot::Word(0)));
        }
        assert(slots(parsed@) =~= p);
        let third = parsed.pop().unwrap();
        let second = parsed.pop().unwrap();
        let first = parsed.pop().unwrap();
        assert(first.slot() == p[0]);
        assert(second.slot() == p[1]);
        assert(third.slot() == p[2]);
        self.emit_opcode(op_code);
        self.emit_slot(first)?;
        self.emit_slot(second)?;
        self.emit_slot(third)?;
        proof {
            let (c1, d1) = place(p[0], b.data).unwrap();
            let (c2, d2) = place(p[1], d1).unwrap();
            let (c3, d3) = place(p[2], d2).unwrap();
            assert(self.cells@ =~= b.text + seq![Cell::Value(opcode_value(op_code)), c1, c2, c3]);
        }
        Ok(())
    }

    fn validate_op_code(&self, op_code: OpCode) -> (r: Result<(), Exception>)
        ensures
            r is Ok <==> op_code != OpCode::NoOp,
            r matches Err(e) ==> e is Assembler,
    {
        if op_code == OpCode::NoOp {
            Err(
                self.error_at_current(
                    "Invalid opcode: NoOp is reserved for labels and placeholders and cannot be used in instructions.",
                ),
            )
        } else {
            Ok(())
        }
    }

    /// Parses and lays out one instruction whose operands have the given shape.
    #[verifier::rlimit(100)]
    #[verifier::spinoff_prover]
    fn instruction(&mut self, token_type: TokenType, op_code: OpCode, kinds: &[Operand]) -> (r: Result<
        (),
        Exception,
    >)
        requires
            old(self).stream_ok(),
            old(self).layout_ok(),
            old(self).boundary(),
            old(self).index@ >= 0,
            tokens(old(self).src())[old(self).index@].token_type == token_type,
            opcode_for(token_type) == op_code,
            kinds@ == shape(token_type),
            token_type != TokenType::Eof,
            token_type != TokenType::Label,
        ensures
            final(self).stream_ok(),
            final(self).source == old(self).source,
            r matches Err(e) ==> e is Assembler,
            r is Ok ==> final(self).layout_ok() && final(self).boundary() && final(self).index@ > old(self).index@
                && tokens(final(self).src())[final(self).index@].token_type != TokenType::Error,
            r is Err ==> assembled(old(self).src()) is None,
    {
        let ghost src = self.src();
        let ghost toks = tokens(src);
        let ghost k = self.index@;
        let ghost done = self.done@;
        let ghost b = self.layout();
        proof {
            if op_code == OpCode::NoOp {
                assert(statement(src, toks, k) is None);
                lemma_continue_fails(src, toks, k, done);
            }
        }
        self.validate_op_code(op_code)?;
        let ghost sh = shape(token_type);
        let ghost j = if sh.len() == 0 {
            k + 1
        } else {
            k + 2 * sh.len()
        };
        match self.consume(token_type, "Expected keyword.") {
            Ok(()) => {},
            Err(e) => {
                proof {
                    if sh.len() > 0 {
                        assert(operand(src, toks[k + 1], sh[0]) is None);
                        assert(operands(src, toks, k, sh, 0) is None);
                    }
                    lemma_continue_fails(src, toks, k, done);
                }
                return Err(e);
            },
        }
        let parsed = match self.operands(kinds) {
            Ok(p) => p,
            Err(e) => {
                proof {
                    lemma_continue_fails(src, toks, k, done);
                }
                return Err(e);
            },
        };
        let ghost s = slots(parsed@);
        let ghost p = padded(s);
        let ghost item = Item::Op(op_code, p[0], p[1], p[2]);
        assert(statement(src, toks, k) == Some((item, j)));
        proof {
            lemma_build_push(done, item);
            assert(build(done.push(item)) == build_item(b, item));
        }
        assert(s.len() <= 3);
        match self.emit_operands(op_code, parsed) {
            Ok(()) => {},
            Err(e) => {
                proof {
                    lemma_continue_fails(src, toks, k, done);
                }
                return Err(e);
            },
        }
        proof {
            lemma_continue_statement(src, toks, k, done);
        }
        proof {
            self.done = Ghost(done.push(item));
        }
        Ok(())
    }

    closed spec fn ready(&self, token_type: TokenType) -> bool {
        &&& self.stream_ok()
        &&& self.layout_ok()
        &&& self.boundary()
        &&& self.index@ >= 0
        &&& tokens(self.src())[self.index@].token_type == token_type
    }

    closed spec fn parsed_one(&self, old: &Self, r: Result<(), Exception>) -> bool {
        &&& self.stream_ok()
        &&& self.source == old.source
        &&& r matches Err(e) ==> e is Assembler
        &&& r is Ok ==> self.layout_ok() && self.boundary() && self.index@ > old.index@ && tokens(
            self.src(),
        )[self.index@].token_type != TokenType::Error
        &&& r is Err ==> assembled(old.src()) is None
    }

    /// `ls`, `lc`, `li`, `addi`, `subi`: a general register and a string or a
    /// number.
    fn immediate(
        &mut self,
        token_type: TokenType,
        op_code: OpCode,
        string_only: bool,
        number_only: bool,
    ) -> (r: Result<(), Exception>)
        requires
            old(self).ready(token_type),
            opcode_for(token_type) == op_code,
            !(string_only && number_only),
            shape(token_type) == seq![
                Operand::Reg(general()),
                if string_only {
                    Operand::Str
                } else {
                    Operand::Num
                },
            ],
        ensures
            final(self).parsed_one(old(self), r),
    {
        let kinds = [Operand::Reg(120), if string_only {
            Operand::Str
        } else {
            Operand::Num
        }];
        assert(kinds@ =~= shape(token_type));
        self.instruction(token_type, op_code, &kinds)
    }

    /// Branches: two general registers and a label.
    fn branch(&mut self, token_type: TokenType, op_code: OpCode) -> (r: Result<(), Exception>)
        requires
            old(self).ready(token_type),
            opcode_for(token_type) == op_code,
            shape(token_type) == seq![Operand::Reg(general()), Operand::Reg(general()), Operand::Lbl],
        ensures
            final(self).parsed_one(old(self), r),
    {
        let kinds = [Operand::Reg(120), Operand::Reg(120), Operand::Lbl];
        assert(kinds@ =~= shape(token_type));
        self.instruction(token_type, op_code, &kinds)
    }

    /// `exit`: no operand.
    fn no_register(&mut self, token_type: TokenType, op_code: OpCode) -> (r: Result<(), Exception>)
        requires
            old(self).ready(token_type),
            opcode_for(token_type) == op_code,
            shape(token_type) == Seq::<Operand>::empty(),
            token_type != TokenType::Label,
            token_type != TokenType::Eof,
        ensures
            final(self).parsed_one(old(self), r),
    {
        let kinds: [Operand; 0] = [];
        assert(kinds@ =~= shape(token_type));
        self.instruction(token_type, op_code, &kinds)
    }

    /// One register operand.
    fn single_register(&mut self, token_type: TokenType, op_code: OpCode, prefix: u8) -> (r: Result<
        (),
        Exception,
    >)
        requires
            old(self).ready(token_type),
            opcode_for(token_type) == op_code,
            shape(token_type) == seq![Operand::Reg(prefix)],
        ensures
            final(self).parsed_one(old(self), r),
    {
        let kinds = [Operand::Reg(prefix)];
        assert(kinds@ =~= shape(token_type));
        self.instruction(token_type, op_code, &kinds)
    }

    /// Two register operands.
    fn double_register(
        &mut self,
        token_type: TokenType,
        op_code: OpCode,
        destination: u8,
        source: u8,
    ) -> (r: Result<(), Exception>)
        requires
            old(self).ready(token_type),
            opcode_for(token_type) == op_code,
            shape(token_type) == seq![Operand::Reg(destination), Operand::Reg(source)],
        ensures
            final(self).parsed_one(old(self), r),
    {
        let kinds = [Operand::Reg(destination), Operand::Reg(source)];
        assert(kinds@ =~= shape(token_type));
        self.instruction(token_type, op_code, &kinds)
    }

    /// Three register operands.
    fn triple_register(
        &mut self,
        token_type: TokenType,
        op_code: OpCode,
        destination: u8,
        source_1: u8,
        source_2: u8,
    ) -> (r: Result<(), Exception>)
        requires
            old(self).ready(token_type),
            opcode_for(token_type) == op_code,
            shape(token_type) == seq![
                Operand::Reg(destination),
                Operand::Reg(source_1),
                Operand::Reg(source_2),
            ],
        ensures
            final(self).parsed_one(old(self), r),
    {
        let kinds = [Operand::Reg(destination), Operand::Reg(source_1), Operand::Reg(source_2)];
        assert(kinds@ =~= shape(token_type));
        self.instruction(token_type, op_code, &kinds)
    }

    /// `psh`: a context register, a general register and a role.
    fn context_push(&mut self, token_type: TokenType, op_code: OpCode) -> (r: Result<(), Exception>)
        requires
            old(self).ready(token_type),
            opcode_for(token_type) == op_code,
            shape(token_type) == seq![
                Operand::Reg(context()),
                Operand::Reg(general()),
                Operand::Role,
            ],
        ensures
            final(self).parsed_one(old(self), r),
    {
        let kinds = [Operand::Reg(99), Operand::Reg(120), Operand::Role];
        assert(kinds@ =~= shape(token_type));
        self.instruction(token_type, op_code, &kinds)
    }

    /// A label definition: the label names the text index of the next
    /// instruction.
    fn label(&mut self) -> (r: Result<(), Exception>)
        requires
            old(self).ready(TokenType::Label),
        ensures
            final(self).parsed_one(old(self), r),
    {
        let ghost src = self.src();
        let ghost toks = tokens(src);
        let ghost k = self.index@;
        let ghost done = self.done@;
        let ghost b = self.layout();
        proof {
            lemma_continue_label(src, toks, k, done);
        }
        match self.consume(TokenType::Label, "Expected label name.") {
            Ok(()) => {},
            Err(e) => {
                assert(parse_items_fails_at_error(src, toks, k + 1));
                return Err(e);
            },
        }
        let lexeme = self.previous_lexeme();
        let name = trim_colon_bytes(lexeme.as_slice());
        let byte_code_index = self.text_segment.len();
        let ghost item = Item::Label(name@);
        let ghost before = self.labels_view();
        self.labels.push((name, byte_code_index));
        proof {
            assert(self.labels_view() =~= before.push((name@, byte_code_index as nat)));
            assert(self.labels_view().drop_last() =~= before);
            lemma_build_push(done, item);
            self.done = Ghost(done.push(item));
        }
        Ok(())
    }

    /// Parses one statement.
    fn parse_instruction(&mut self, token_type: TokenType) -> (r: Result<(), Exception>)
        requires
            old(self).ready(token_type),
            token_type != TokenType::Eof,
        ensures
            final(self).parsed_one(old(self), r),
    {
        let op_code = OpCode::from_token_type(token_type);
        match token_type {
            TokenType::LoadImmediate => self.immediate(token_type, op_code, false, false),
            TokenType::AddImmediate | TokenType::SubtractImmediate => self.immediate(
                token_type,
                op_code,
                false,
                true,
            ),
            TokenType::LoadString | TokenType::LoadContent => self.immediate(
                token_type,
                op_code,
                true,
                false,
            ),
            TokenType::Move | TokenType::CountLines => self.double_register(
                token_type,
                op_code,
                120,
                120,
            ),
            TokenType::MoveContext => self.double_register(token_type, op_code, 99, 99),
            TokenType::ContextPop => self.double_register(token_type, op_code, 120, 99),
            TokenType::BranchEqual
            | TokenType::BranchLess
            | TokenType::BranchLessEqual
            | TokenType::BranchGreater
            | TokenType::BranchGreaterEqual
            | TokenType::BranchNotEqual => self.branch(token_type, op_code),
            TokenType::Exit => self.no_register(token_type, op_code),
            TokenType::Label => self.label(),
            TokenType::Print | TokenType::PrintLine => self.single_register(
                token_type,
                op_code,
                120,
            ),
            TokenType::PrintContext | TokenType::ContextDrop => self.single_register(
                token_type,
                op_code,
                99,
            ),
            TokenType::Inference | TokenType::Evaluate => self.triple_register(
                token_type,
                op_code,
                120,
                120,
                99,
            ),
            TokenType::Similarity | TokenType::ReadLine => self.triple_register(
                token_type,
                op_code,
                120,
                120,
                120,
            ),
            TokenType::ContextPush => self.context_push(token_type, op_code),
            _ => {
                proof {
                    let src = self.src();
                    let toks = tokens(src);
                    assert(statement(src, toks, self.index@) is None);
                    lemma_continue_fails(src, toks, self.index@, self.done@);
                }
                Err(self.error_at_current("Unexpected keyword."))
            },
        }
    }

    /// The text index that a label names (its last definition), if defined.
    fn find_label(&self, name: &[u8]) -> (r: Option<usize>)
        ensures
            r is Some <==> label_map(self.labels_view()).contains_key(name@),
            r matches Some(i) ==> label_map(self.labels_view())[name@] == i,
    {
        let ghost lv = self.labels_view();
        let mut i = self.labels.len();
        while i > 0
            invariant
                i <= self.labels@.len(),
                lv == self.labels_view(),
                forall|j: int| i <= j < lv.len() ==> (#[trigger] lv[j]).0 != name@,
            decreases i,
        {
            if bytes_equal(self.labels[i - 1].0.as_slice(), name) {
                proof {
                    lemma_label_map_last(lv, name@, i - 1);
                }
                return Some(self.labels[i - 1].1);
            }
            i -= 1;
        }
        proof {
            lemma_label_map_absent(lv, name@);
        }
        None
    }

    /// Writes the text index of each referenced label into the text.
    fn backpatch_labels(&mut self) -> (r: Result<(), Exception>)
        requires
            old(self).segments_ok(),
        ensures
            final(self).cells@ == old(self).cells@,
            final(self).source == old(self).source,
            final(self).data_segment@ == old(self).data_segment@,
            final(self).labels_view() == old(self).labels_view(),
            r matches Err(e) ==> e is Assembler,
            r is Ok <==> forall|i: int|
                0 <= i < old(self).cells@.len() ==> #[trigger] resolve(
                    old(self).cells@[i],
                    old(self).layout().labels,
                ) is Some,
            r is Ok ==> final(self).text_segment@ == resolved_text(old(self).layout()),
    {
        let ghost cells = self.cells@;
        let ghost labels = self.layout().labels;
        let ghost rv = self.unresolved_view();
        proof {
            lemma_refs(cells);
        }
        let n = self.unresolved_labels.len();
        let mut m: usize = 0;
        while m < n
            invariant
                n == self.unresolved_labels@.len(),
                m <= n,
                rv == self.unresolved_view(),
                rv == refs(cells),
                self.cells@ == cells,
                cells == old(self).cells@,
                labels == old(self).layout().labels,
                self.source == old(self).source,
                self.data_segment@ == old(self).data_segment@,
                self.labels_view() == old(self).labels_view(),
                labels == self.layout().labels,
                self.text_segment@.len() == cells.len(),
                forall|j: int|
                    0 <= j < cells.len() ==> #[trigger] self.text_segment@[j] == match cells[j] {
                        Cell::Value(v) => v,
                        Cell::Ref(_) => if rank(cells, j) < m {
                            resolve(cells[j], labels).unwrap()
                        } else {
                            0
                        },
                    },
                forall|i: int| 0 <= i < m ==> #[trigger] resolve(cells[rv[i].1 as int], labels) is Some,
            decreases n - m,
        {
            let index = self.unresolved_labels[m].index;
            let found = self.find_label(self.unresolved_labels[m].name.as_slice());
            proof {
                lemma_refs(cells);
                let (nm, j) = refs(cells)[m as int];
                assert(cells[j as int] == Cell::Ref(nm));
            }
            match found {
                None => {
                    proof {
                        let (nm, j) = refs(cells)[m as int];
                        assert(rv[m as int].0 == nm);
                        assert(resolve(old(self).cells@[j as int], old(self).layout().labels) is None);
                    }
                    let e = diagnostic(&self.unresolved_labels[m].token, "Undefined label referenced here.");
                    return Err(e);
                },
                Some(byte_code_index) => {
                    if byte_code_index > 0xFFFF_FFFDusize {
                        proof {
                            let (nm, j) = refs(cells)[m as int];
                            assert(rv[m as int].0 == nm);
                            assert(resolve(old(self).cells@[j as int], old(self).layout().labels) is None);
                        }
                        return Err(
                            assembly_error(
                                "Failed to convert byte code index to u32 for backpatching.",
                            ),
                        );
                    }
                    let ghost before = self.text_segment@;
                    self.text_segment.set(index, (byte_code_index as u32) + 2);
                    proof {
                        let (nm, j) = refs(cells)[m as int];
                        assert forall|t: int| 0 <= t < cells.len() implies #[trigger] self.text_segment@[t]
                            == match cells[t] {
                            Cell::Value(v) => v,
                            Cell::Ref(_) => if rank(cells, t) < m + 1 {
                                resolve(cells[t], labels).unwrap()
                            } else {
                                0
                            },
                        } by {
                            if t != j {
                                if cells[t] is Ref {
                                    assert(refs(cells)[rank(cells, t)].1 == t);
                                }
                            }
                        }
                    }
                },
            }
            m += 1;
        }
        proof {
            assert forall|i: int| 0 <= i < cells.len() implies #[trigger] resolve(cells[i], labels) is Some by {
                if cells[i] is Ref {
                    assert(refs(cells)[rank(cells, i)].1 == i);
                }
            }
            assert(self.text_segment@ =~= resolved_text(self.layout()));
        }
        Ok(())
    }

    fn at_eof(&self) -> (r: bool)
        requires
            self.stream_ok(),
            self.index@ >= 0,
        ensures
            r == (tokens(self.src())[self.index@].token_type == TokenType::Eof),
    {
        match &self.current {
            Some(t) => *t.token_type() == TokenType::Eof,
            None => false,
        }
    }

    fn current_type(&self) -> (r: TokenType)
        requires
            self.stream_ok(),
            self.index@ >= 0,
        ensures
            r == tokens(self.src())[self.index@].token_type,
    {
        match &self.current {
            Some(t) => *t.token_type(),
            None => TokenType::Eof,
        }
    }

    /// Assembles the whole source into byte code.
    pub fn assemble(&mut self) -> (r: Result<Vec<u8>, Exception>)
        requires
            old(self).wf(),
        ensures
            final(self).wf(),
            final(self).src() == old(self).src(),
            r is Ok <==> assembled(old(self).src()) is Some,
            r matches Ok(b) ==> b@ == assembled(old(self).src()).unwrap(),
            r matches Err(e) ==> e is Assembler,
    {
        self.reset();
        let ghost src = self.src();
        let ghost toks = tokens(src);
        match self.advance() {
            Ok(()) => {},
            Err(e) => {
                proof {
                    assert(toks[0].token_type == TokenType::Error);
                    assert(statement(src, toks, 0) is None);
                    assert(parse_items(src, toks, 0) is None);
                }
                return Err(e);
            },
        }
        while !self.at_eof()
            invariant
                self.stream_ok(),
                self.layout_ok(),
                self.boundary(),
                self.src() == src,
                self.source == old(self).source,
                self.index@ >= 0,
                toks == tokens(src),
                toks[self.index@].token_type != TokenType::Error,
            decreases toks.len() - self.index@,
        {
            let token_type = self.current_type();
            self.parse_instruction(token_type)?;
        }
        proof {
            lemma_continue_eof(src, toks, self.index@, self.done@);
        }
        self.backpatch_labels()?;
        if self.text_segment.len() > 0xFFFF_FFFDusize {
            return Err(assembly_error("Failed to convert text segment size to u32."));
        }
        let mut words: Vec<u32> = Vec::new();
        words.push(2);
        words.push(2 + self.text_segment.len() as u32);
        append_words(&mut words, self.text_segment.as_slice());
        append_words(&mut words, self.data_segment.as_slice());
        let bytes = words_to_bytes(words.as_slice());
        proof {
            let b = self.layout();
            assert(words@ =~= seq![header_size(), (header_size() + b.text.len()) as u32]
                + resolved_text(b) + b.data);
        }
        Ok(bytes)
    }
}

/// Whether parsing from token `i` stops at once on an error token.
pub open spec fn parse_items_fails_at_error(src: Seq<u8>, toks: Seq<crate::assembler::token::TokenModel>, i: int) -> bool {
    (0 <= i < toks.len() && toks[i].token_type == TokenType::Error) ==> parse_items(src, toks, i) is None
}

/// A word without its trailing colons.
fn trim_colon_bytes(w: &[u8]) -> (r: Vec<u8>)
    ensures
        r@ == trim_colons(w@),
{
    let mut e = w.len();
    assert(w@.take(e as int) =~= w@);
    while e > 0 && w[e - 1] == 58
        invariant
            e <= w.len(),
            trim_colons(w@) == trim_colons(w@.take(e as int)),
        decreases e,
    {
        assert(w@.take(e as int).drop_last() =~= w@.take(e - 1));
        e -= 1;
    }
    sub_bytes(w, 0, e)
}

/// Appends words at the end of a vector.
fn append_words(dst: &mut Vec<u32>, src: &[u32])
    ensures
        final(dst)@ == old(dst)@ + src@,
{
    let mut i: usize = 0;
    while i < src.len()
        invariant
            i <= src.len(),
            dst@ == old(dst)@ + src@.take(i as int),
        decreases src.len() - i,
    {
        dst.push(src[i]);
        i += 1;
        assert(dst@ =~= old(dst)@ + src@.take(i as int));
    }
    assert(src@.take(src.len() as int) =~= src@);
}

/// The big-endian bytes of a sequence of words.
fn words_to_bytes(words: &[u32]) -> (r: Vec<u8>)
    ensures
        r@ == bytes_of(words@),
{
    let mut out: Vec<u8> = Vec::new();
    let mut i: usize = 0;
    while i < words.len()
        invariant
            i <= words.len(),
            out@ == bytes_of(words@.take(i as int)),
        decreases words.len() - i,
    {
        let b = to_be_bytes(words[i]);
        out.push(b[0]);
        out.push(b[1]);
        out.push(b[2]);
        out.push(b[3]);
        assert(words@.take(i + 1).drop_last() =~= words@.take(i as int));
        assert(out@ =~= bytes_of(words@.take(i as int)) + word_bytes(words@[i as int]));
        i += 1;
    }
    assert(words@.take(words.len() as int) =~= words@);
    out
}

} // verus!
