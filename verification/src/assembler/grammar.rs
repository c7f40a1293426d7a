//! What an assembly source means: its token stream, the statements that the
//! tokens form, and the byte code that the statements lay out.
//!
//! Byte code layout (words of four big-endian bytes):
//! `[2, 2 + text length] ++ text ++ data`. The text holds four words per
//! instruction: the operation and three operands. A string operand is the
//! offset of its bytes in the data; each byte is one word and a zero word ends
//! the string. A label operand is the word index, counted from the start of
//! the byte code, of the instruction that follows the last definition of the
//! label.
use vstd::prelude::*;

use crate::assembler::opcode::{opcode_for, opcode_value, OpCode};
use crate::assembler::scanner::{lemma_scan, pos_ok, scan, start_pos, ScanPos};
use crate::assembler::token::{TokenModel, TokenType};
use crate::text::{lower, lower_all, parse_u32, unescape};
use crate::word::word_bytes;

verus! {

/// Number of header words before the text.
pub open spec fn header_size() -> u32 {
    2
}

pub open spec fn is_terminal(t: TokenModel) -> bool {
    t.token_type == TokenType::Eof || t.token_type == TokenType::Error
}

/// The tokens from position `p` up to and including the first end-of-input
/// or error token.
pub open spec fn tokens_from(src: Seq<u8>, p: ScanPos) -> Seq<TokenModel>
    decreases src.len() - p.current,
{
    if !pos_ok(src, p) {
        seq![]
    } else {
        let (t, q) = scan(src, p);
        if is_terminal(t) {
            seq![t]
        } else {
            proof {
                lemma_scan(src, p);
            }
            seq![t] + tokens_from(src, q)
        }
    }
}

/// The token stream of a source.
pub open spec fn tokens(src: Seq<u8>) -> Seq<TokenModel> {
    tokens_from(src, start_pos())
}

/// The text of a token.
pub open spec fn lexeme(src: Seq<u8>, t: TokenModel) -> Seq<u8> {
    src.subrange(t.start as int, t.end as int)
}

/// A word with its trailing colons removed.
pub open spec fn trim_colons(w: Seq<u8>) -> Seq<u8>
    decreases w.len(),
{
    if w.len() > 0 && w.last() == 58 {
        trim_colons(w.drop_last())
    } else {
        w
    }
}

/// The prefix of general-purpose registers (`x`) and of context registers (`c`).
pub open spec fn general() -> u8 {
    120
}

pub open spec fn context() -> u8 {
    99
}

/// A register operand `xN` or `cN` (any case) with `N` from 0 to 32.
pub open spec fn register_number(w: Seq<u8>, prefix: u8) -> Option<u32> {
    if w.len() > 0 && lower(w[0]) == prefix {
        match parse_u32(w.drop_first()) {
            Some(n) => if n <= 32 {
                Some(n)
            } else {
                None
            },
            None => None,
        }
    } else {
        None
    }
}

/// The role names that a context message accepts: `user` and `assistant`.
pub open spec fn user_role() -> Seq<u8> {
    seq![117u8, 115, 101, 114]
}

pub open spec fn assistant_role() -> Seq<u8> {
    seq![97u8, 115, 115, 105, 115, 116, 97, 110, 116]
}

/// A role written in any case of ASCII letters.
pub open spec fn valid_role(r: Seq<u8>) -> bool {
    r.len() > 0 && (lower_all(r) == user_role() || lower_all(r) == assistant_role())
}

/// The kinds of operand an instruction takes.
#[derive(Clone, Copy)]
pub enum Operand {
    Reg(u8),
    Num,
    Str,
    Role,
    Lbl,
}

/// An operand word before layout: a value, a string placed in the data, or a
/// reference to a label.
pub enum Slot {
    Word(u32),
    Text(Seq<u8>),
    Target(Seq<u8>),
}

/// A statement of the program.
pub enum Item {
    Label(Seq<u8>),
    Op(OpCode, Slot, Slot, Slot),
}

/// The operands of each instruction keyword, in source order.
pub open spec fn shape(t: TokenType) -> Seq<Operand> {
    let x = Operand::Reg(general());
    let c = Operand::Reg(context());
    match t {
        TokenType::LoadImmediate | TokenType::AddImmediate | TokenType::SubtractImmediate => seq![
            x,
            Operand::Num,
        ],
        TokenType::LoadString | TokenType::LoadContent => seq![x, Operand::Str],
        TokenType::Move | TokenType::CountLines => seq![x, x],
        TokenType::MoveContext => seq![c, c],
        TokenType::ContextPop => seq![x, c],
        TokenType::BranchEqual | TokenType::BranchLessEqual | TokenType::BranchLess
        | TokenType::BranchGreaterEqual | TokenType::BranchGreater
        | TokenType::BranchNotEqual => seq![x, x, Operand::Lbl],
        TokenType::Print | TokenType::PrintLine => seq![x],
        TokenType::PrintContext | TokenType::ContextDrop => seq![c],
        TokenType::Inference | TokenType::Evaluate => seq![x, x, c],
        TokenType::Similarity | TokenType::ReadLine => seq![x, x, x],
        TokenType::ContextPush => seq![c, x, Operand::Role],
        _ => seq![],
    }
}

/// The value of one operand token.
pub open spec fn operand(src: Seq<u8>, t: TokenModel, o: Operand) -> Option<Slot> {
    let w = lexeme(src, t);
    match o {
        Operand::Reg(p) => if t.token_type == TokenType::Identifier {
            match register_number(w, p) {
                Some(n) => Some(Slot::Word(n)),
                None => None,
            }
        } else {
            None
        },
        Operand::Num => if t.token_type == TokenType::Number {
            match parse_u32(w) {
                Some(n) => Some(Slot::Word(n)),
                None => None,
            }
        } else {
            None
        },
        Operand::Str => if t.token_type == TokenType::String {
            Some(Slot::Text(unescape(w.subrange(1, w.len() - 1))))
        } else {
            None
        },
        Operand::Role => if t.token_type == TokenType::String && valid_role(
            unescape(w.subrange(1, w.len() - 1)),
        ) {
            Some(Slot::Text(unescape(w.subrange(1, w.len() - 1))))
        } else {
            None
        },
        Operand::Lbl => if t.token_type == TokenType::Identifier {
            Some(Slot::Target(w))
        } else {
            None
        },
    }
}

/// The operands `shape[n..]` of the instruction whose keyword is at `i`:
/// operand `m` stands at token `i + 1 + 2m`, with a comma before each operand
/// but the first.
pub open spec fn operands(
    src: Seq<u8>,
    toks: Seq<TokenModel>,
    i: int,
    shape: Seq<Operand>,
    n: int,
) -> Option<Seq<Slot>>
    decreases shape.len() - n,
{
    if n >= shape.len() || n < 0 {
        Some(seq![])
    } else {
        let j = i + 1 + 2 * n;
        if j >= toks.len() || (n > 0 && toks[j - 1].token_type != TokenType::Comma) {
            None
        } else {
            match operand(src, toks[j], shape[n]) {
                None => None,
                Some(s) => match operands(src, toks, i, shape, n + 1) {
                    None => None,
                    Some(rest) => Some(seq![s] + rest),
                },
            }
        }
    }
}

/// Three operand words: the operands, then zeros.
pub open spec fn padded(s: Seq<Slot>) -> Seq<Slot> {
    s + Seq::new((3 - s.len()) as nat, |i: int| Slot::Word(0))
}

/// The statement that starts at token `i` and the index of the token after it.
pub open spec fn statement(src: Seq<u8>, toks: Seq<TokenModel>, i: int) -> Option<(Item, int)> {
    let t = toks[i].token_type;
    let op = opcode_for(t);
    if op == OpCode::NoOp {
        None
    } else {
        let sh = shape(t);
        match operands(src, toks, i, sh, 0) {
            None => None,
            Some(s) => {
                let p = padded(s);
                Some(
                    (
                        Item::Op(op, p[0], p[1], p[2]),
                        if sh.len() == 0 {
                            i + 1
                        } else {
                            i + 2 * sh.len()
                        },
                    ),
                )
            },
        }
    }
}

/// The statements from token `i` to the end of input; `None` when a token
/// does not fit the grammar or is an error.
pub open spec fn parse_items(src: Seq<u8>, toks: Seq<TokenModel>, i: int) -> Option<Seq<Item>>
    decreases toks.len() - i,
{
    if i < 0 || i >= toks.len() {
        None
    } else {
        let t = toks[i];
        if t.token_type == TokenType::Eof {
            Some(seq![])
        } else if t.token_type == TokenType::Label {
            match parse_items(src, toks, i + 1) {
                None => None,
                Some(rest) => Some(seq![Item::Label(trim_colons(lexeme(src, t)))] + rest),
            }
        } else {
            match statement(src, toks, i) {
                None => None,
                Some((item, j)) => if i < j <= toks.len() {
                    match parse_items(src, toks, j) {
                        None => None,
                        Some(rest) => Some(seq![item] + rest),
                    }
                } else {
                    None
                },
            }
        }
    }
}

/// A text word after layout: a value, or a reference to a label that is
/// resolved once all labels are known.
pub enum Cell {
    Value(u32),
    Ref(Seq<u8>),
}

/// The segments being laid out: text cells, data words, and the text index
/// that each label names.
pub struct Layout {
    pub text: Seq<Cell>,
    pub data: Seq<u32>,
    pub labels: Map<Seq<u8>, nat>,
}

/// The data words of a string: one word per byte and a final zero.
pub open spec fn string_words(s: Seq<u8>) -> Seq<u32> {
    Seq::new(s.len(), |i: int| s[i] as u32).push(0)
}

/// Lays out one operand: a string goes into the data (whose length must fit
/// in a `u32`) and the operand word is its offset.
pub open spec fn place(s: Slot, data: Seq<u32>) -> Option<(Cell, Seq<u32>)> {
    match s {
        Slot::Word(v) => Some((Cell::Value(v), data)),
        Slot::Target(l) => Some((Cell::Ref(l), data)),
        Slot::Text(t) => if data.len() <= u32::MAX {
            Some((Cell::Value(data.len() as u32), data + string_words(t)))
        } else {
            None
        },
    }
}

pub open spec fn empty_layout() -> Layout {
    Layout { text: seq![], data: seq![], labels: Map::empty() }
}

/// Lays out one more statement after `b`.
pub open spec fn build_item(b: Layout, item: Item) -> Option<Layout> {
    match item {
        Item::Label(n) => Some(Layout { labels: b.labels.insert(n, b.text.len()), ..b }),
        Item::Op(op, s1, s2, s3) => match place(s1, b.data) {
            None => None,
            Some((c1, d1)) => match place(s2, d1) {
                None => None,
                Some((c2, d2)) => match place(s3, d2) {
                    None => None,
                    Some((c3, d3)) => Some(
                        Layout {
                            text: b.text + seq![Cell::Value(opcode_value(op)), c1, c2, c3],
                            data: d3,
                            labels: b.labels,
                        },
                    ),
                },
            },
        },
    }
}

/// Lays out statements in order.
pub open spec fn build(items: Seq<Item>) -> Option<Layout>
    decreases items.len(),
{
    if items.len() == 0 {
        Some(empty_layout())
    } else {
        match build(items.drop_last()) {
            None => None,
            Some(b) => build_item(b, items.last()),
        }
    }
}

/// The word of a text cell once labels are known: a label reference becomes
/// the header size plus the label's text index, which must fit in a `u32`.
pub open spec fn resolve(c: Cell, labels: Map<Seq<u8>, nat>) -> Option<u32> {
    match c {
        Cell::Value(v) => Some(v),
        Cell::Ref(l) => if labels.contains_key(l) && labels[l] <= u32::MAX - header_size() {
            Some((labels[l] + header_size()) as u32)
        } else {
            None
        },
    }
}

/// The bytes of a sequence of words.
pub open spec fn bytes_of(words: Seq<u32>) -> Seq<u8>
    decreases words.len(),
{
    if words.len() == 0 {
        seq![]
    } else {
        bytes_of(words.drop_last()) + word_bytes(words.last())
    }
}

/// The text words of a layout with every label resolved.
pub open spec fn resolved_text(b: Layout) -> Seq<u32> {
    Seq::new(b.text.len(), |i: int| resolve(b.text[i], b.labels).unwrap())
}

/// The byte code of a sequence of statements: `None` when a label is never
/// defined or a size does not fit in a `u32`.
pub open spec fn byte_code(items: Seq<Item>) -> Option<Seq<u8>> {
    match build(items) {
        None => None,
        Some(b) => if (forall|i: int| 0 <= i < b.text.len() ==> #[trigger] resolve(b.text[i], b.labels) is Some)
            && b.text.len() <= u32::MAX - header_size() {
            Some(
                bytes_of(
                    seq![header_size(), (header_size() + b.text.len()) as u32] + resolved_text(b)
                        + b.data,
                ),
            )
        } else {
            None
        },
    }
}

/// What assembling a source gives: its byte code, or `None` when assembly
/// fails.
pub open spec fn assembled(src: Seq<u8>) -> Option<Seq<u8>> {
    match parse_items(src, tokens(src), 0) {
        None => None,
        Some(items) => byte_code(items),
    }
}


// ---------------------------------------------------------------------------
// Facts used by the assembler
// ---------------------------------------------------------------------------

/// The token stream from `p` starts with the token scanned at `p` and goes on
/// from the position after it, unless that token ends the stream.
pub proof fn lemma_tokens_from(src: Seq<u8>, p: ScanPos)
    requires
        pos_ok(src, p),
    ensures
        tokens_from(src, p).len() >= 1,
        tokens_from(src, p)[0] == scan(src, p).0,
        is_terminal(scan(src, p).0) ==> tokens_from(src, p).len() == 1,
        !is_terminal(scan(src, p).0) ==> tokens_from(src, p).skip(1) == tokens_from(src, scan(src, p).1)
            && pos_ok(src, scan(src, p).1),
{
    lemma_scan(src, p);
    let (t, q) = scan(src, p);
    if !is_terminal(t) {
        assert(tokens_from(src, p) == seq![t] + tokens_from(src, q));
        assert((seq![t] + tokens_from(src, q)).skip(1) =~= tokens_from(src, q));
    }
}

/// What assembling gives once `done` is laid out and parsing resumes at
/// token `k`.
pub open spec fn continue_from(
    src: Seq<u8>,
    toks: Seq<TokenModel>,
    k: int,
    done: Seq<Item>,
) -> Option<Seq<u8>> {
    match parse_items(src, toks, k) {
        None => None,
        Some(rest) => byte_code(done + rest),
    }
}

/// The statement at `k` is malformed, is followed by an error token, or does
/// not fit in the data.
pub open spec fn statement_fails(
    src: Seq<u8>,
    toks: Seq<TokenModel>,
    k: int,
    done: Seq<Item>,
) -> bool {
    match statement(src, toks, k) {
        None => true,
        Some((item, j)) => (0 <= j < toks.len() && toks[j].token_type == TokenType::Error) || build(
            done.push(item),
        ) is None,
    }
}

pub proof fn lemma_build_prefix(a: Seq<Item>, b: Seq<Item>)
    requires
        build(a) is None,
    ensures
        build(a + b) is None,
    decreases b.len(),
{
    if b.len() == 0 {
        assert(a + b =~= a);
    } else {
        lemma_build_prefix(a, b.drop_last());
        assert((a + b).drop_last() =~= a + b.drop_last());
    }
}

pub proof fn lemma_build_push(a: Seq<Item>, item: Item)
    ensures
        build(a.push(item)) == match build(a) {
            None => None,
            Some(b) => build_item(b, item),
        },
{
    assert(a.push(item).drop_last() =~= a);
}

pub proof fn lemma_statement_next(src: Seq<u8>, toks: Seq<TokenModel>, k: int)
    requires
        0 <= k < toks.len(),
        statement(src, toks, k) is Some,
    ensures
        k < statement(src, toks, k).unwrap().1 <= toks.len(),
{
    let t = toks[k].token_type;
    let sh = shape(t);
    if sh.len() > 0 {
        lemma_operands_reach(src, toks, k, sh, 0);
    }
}

proof fn lemma_operands_reach(src: Seq<u8>, toks: Seq<TokenModel>, i: int, sh: Seq<Operand>, n: int)
    requires
        0 <= n < sh.len(),
        operands(src, toks, i, sh, n) is Some,
    ensures
        i + 1 + 2 * (sh.len() - 1) < toks.len(),
    decreases sh.len() - n,
{
    if n + 1 < sh.len() {
        lemma_operands_reach(src, toks, i, sh, n + 1);
    }
}

/// A statement moves parsing on to the token after it.
pub proof fn lemma_continue_statement(src: Seq<u8>, toks: Seq<TokenModel>, k: int, done: Seq<Item>)
    requires
        0 <= k < toks.len(),
        toks[k].token_type != TokenType::Eof,
        toks[k].token_type != TokenType::Label,
        statement(src, toks, k) is Some,
    ensures
        continue_from(src, toks, k, done) == continue_from(
            src,
            toks,
            statement(src, toks, k).unwrap().1,
            done.push(statement(src, toks, k).unwrap().0),
        ),
{
    lemma_statement_next(src, toks, k);
    let (item, j) = statement(src, toks, k).unwrap();
    match parse_items(src, toks, j) {
        None => {},
        Some(rest) => {
            assert(done + (seq![item] + rest) =~= done.push(item) + rest);
        },
    }
}

/// A label definition moves parsing on by one token.
pub proof fn lemma_continue_label(src: Seq<u8>, toks: Seq<TokenModel>, k: int, done: Seq<Item>)
    requires
        0 <= k < toks.len(),
        toks[k].token_type == TokenType::Label,
    ensures
        continue_from(src, toks, k, done) == continue_from(
            src,
            toks,
            k + 1,
            done.push(Item::Label(trim_colons(lexeme(src, toks[k])))),
        ),
{
    match parse_items(src, toks, k + 1) {
        None => {},
        Some(rest) => {
            let item = Item::Label(trim_colons(lexeme(src, toks[k])));
            assert(done + (seq![item] + rest) =~= done.push(item) + rest);
        },
    }
}

/// A failing statement makes assembly fail.
pub proof fn lemma_continue_fails(src: Seq<u8>, toks: Seq<TokenModel>, k: int, done: Seq<Item>)
    requires
        0 <= k < toks.len(),
        toks[k].token_type != TokenType::Eof,
        toks[k].token_type != TokenType::Label,
        statement_fails(src, toks, k, done),
    ensures
        continue_from(src, toks, k, done) is None,
{
    match statement(src, toks, k) {
        None => {},
        Some((item, j)) => {
            lemma_statement_next(src, toks, k);
            if 0 <= j < toks.len() && toks[j].token_type == TokenType::Error {
                assert(opcode_for(toks[j].token_type) == OpCode::NoOp);
                assert(parse_items(src, toks, j) is None);
            } else {
                match parse_items(src, toks, j) {
                    None => {},
                    Some(rest) => {
                        lemma_build_prefix(done.push(item), rest);
                        assert(done + (seq![item] + rest) =~= done.push(item) + rest);
                    },
                }
            }
        },
    }
}

/// At the end of input nothing remains to parse.
pub proof fn lemma_continue_eof(src: Seq<u8>, toks: Seq<TokenModel>, k: int, done: Seq<Item>)
    requires
        0 <= k < toks.len(),
        toks[k].token_type == TokenType::Eof,
    ensures
        continue_from(src, toks, k, done) == byte_code(done),
{
    assert(done + Seq::<Item>::empty() =~= done);
}

} // verus!
