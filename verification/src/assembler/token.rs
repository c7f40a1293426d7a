//! Tokens of the assembly language.
use vstd::prelude::*;

use crate::text::bytes_equal;

verus! {

/// The kinds of token that the scanner produces.
#[derive(Clone, Copy, Debug, PartialEq, Eq, Structural)]
pub enum TokenType {
    // Single-character.
    Comma,
    // Literals.
    Identifier,
    String,
    Number,
    // Data movement keywords.
    LoadString,
    LoadImmediate,
    LoadContent,
    Move,
    // Control flow keywords.
    BranchEqual,
    BranchLessEqual,
    BranchLess,
    BranchGreaterEqual,
    BranchGreater,
    BranchNotEqual,
    Exit,
    // I/O keywords.
    Print,
    PrintLine,
    PrintContext,
    // Generative operations keywords.
    Inference,
    // Guardrails operations keywords.
    Evaluate,
    Similarity,
    // Context operations keywords.
    ContextPush,
    ContextPop,
    ContextDrop,
    MoveContext,
    // Arithmetic operations keywords.
    AddImmediate,
    SubtractImmediate,
    // Line operations keywords.
    ReadLine,
    CountLines,
    // Misc keywords.
    Label,
    Eof,
    Error,
}

/// The keyword that a lower-case word spells, if any
/// (`ls`, `lc`, `li`, `mv`, `beq`, `ble`, `blt`, `bge`, `bgt`, `bne`, `exit`,
/// `put`, `pln`, `pcx`, `inf`, `eval`, `sim`, `psh`, `pop`, `drp`, `mvc`,
/// `addi`, `subi`, `rln`, `cln`, written as ASCII codes).
pub open spec fn keyword(w: Seq<u8>) -> Option<TokenType> {
    if w == seq![108u8, 115] {
        Some(TokenType::LoadString)
    } else if w == seq![108u8, 99] {
        Some(TokenType::LoadContent)
    } else if w == seq![108u8, 105] {
        Some(TokenType::LoadImmediate)
    } else if w == seq![109u8, 118] {
        Some(TokenType::Move)
    } else if w == seq![98u8, 101, 113] {
        Some(TokenType::BranchEqual)
    } else if w == seq![98u8, 108, 101] {
        Some(TokenType::BranchLessEqual)
    } else if w == seq![98u8, 108, 116] {
        Some(TokenType::BranchLess)
    } else if w == seq![98u8, 103, 101] {
        Some(TokenType::BranchGreaterEqual)
    } else if w == seq![98u8, 103, 116] {
        Some(TokenType::BranchGreater)
    } else if w == seq![98u8, 110, 101] {
        Some(TokenType::BranchNotEqual)
    } else if w == seq![101u8, 120, 105, 116] {
        Some(TokenType::Exit)
    } else if w == seq![112u8, 117, 116] {
        Some(TokenType::Print)
    } else if w == seq![112u8, 108, 110] {
        Some(TokenType::PrintLine)
    } else if w == seq![112u8, 99, 120] {
        Some(TokenType::PrintContext)
    } else if w == seq![105u8, 110, 102] {
        Some(TokenType::Inference)
    } else if w == seq![101u8, 118, 97, 108] {
        Some(TokenType::Evaluate)
    } else if w == seq![115u8, 105, 109] {
        Some(TokenType::Similarity)
    } else if w == seq![112u8, 115, 104] {
        Some(TokenType::ContextPush)
    } else if w == seq![112u8, 111, 112] {
        Some(TokenType::ContextPop)
    } else if w == seq![100u8, 114, 112] {
        Some(TokenType::ContextDrop)
    } else if w == seq![109u8, 118, 99] {
        Some(TokenType::MoveContext)
    } else if w == seq![97u8, 100, 100, 105] {
        Some(TokenType::AddImmediate)
    } else if w == seq![115u8, 117, 98, 105] {
        Some(TokenType::SubtractImmediate)
    } else if w == seq![114u8, 108, 110] {
        Some(TokenType::ReadLine)
    } else if w == seq![99u8, 108, 110] {
        Some(TokenType::CountLines)
    } else {
        None
    }
}

fn is_word(w: &[u8], k: &[u8]) -> (r: bool)
    ensures
        r == (w@ == k@),
{
    bytes_equal(w, k)
}

impl TokenType {
    /// The keyword token type that a lower-case word spells.
    pub fn from_keyword(w: &[u8]) -> (r: Option<TokenType>)
        ensures
            r == keyword(w@),
    {
        let ls: [u8; 2] = [108u8, 115];
        let lc: [u8; 2] = [108u8, 99];
        let li: [u8; 2] = [108u8, 105];
        let mv: [u8; 2] = [109u8, 118];
        let beq: [u8; 3] = [98u8, 101, 113];
        let ble: [u8; 3] = [98u8, 108, 101];
        let blt: [u8; 3] = [98u8, 108, 116];
        let bge: [u8; 3] = [98u8, 103, 101];
        let bgt: [u8; 3] = [98u8, 103, 116];
        let bne: [u8; 3] = [98u8, 110, 101];
        let exit: [u8; 4] = [101u8, 120, 105, 116];
        let put: [u8; 3] = [112u8, 117, 116];
        let pln: [u8; 3] = [112u8, 108, 110];
        let pcx: [u8; 3] = [112u8, 99, 120];
        let inf: [u8; 3] = [105u8, 110, 102];
        let eval: [u8; 4] = [101u8, 118, 97, 108];
        let sim: [u8; 3] = [115u8, 105, 109];
        let psh: [u8; 3] = [112u8, 115, 104];
        let pop: [u8; 3] = [112u8, 111, 112];
        let drp: [u8; 3] = [100u8, 114, 112];
        let mvc: [u8; 3] = [109u8, 118, 99];
        let addi: [u8; 4] = [97u8, 100, 100, 105];
        let subi: [u8; 4] = [115u8, 117, 98, 105];
        let rln: [u8; 3] = [114u8, 108, 110];
        let cln: [u8; 3] = [99u8, 108, 110];
        proof {
            assert(ls@ =~= seq![108u8, 115]);
            assert(lc@ =~= seq![108u8, 99]);
            assert(li@ =~= seq![108u8, 105]);
            assert(mv@ =~= seq![109u8, 118]);
            assert(beq@ =~= seq![98u8, 101, 113]);
            assert(ble@ =~= seq![98u8, 108, 101]);
            assert(blt@ =~= seq![98u8, 108, 116]);
            assert(bge@ =~= seq![98u8, 103, 101]);
            assert(bgt@ =~= seq![98u8, 103, 116]);
            assert(bne@ =~= seq![98u8, 110, 101]);
            assert(exit@ =~= seq![101u8, 120, 105, 116]);
            assert(put@ =~= seq![112u8, 117, 116]);
            assert(pln@ =~= seq![112u8, 108, 110]);
            assert(pcx@ =~= seq![112u8, 99, 120]);
            assert(inf@ =~= seq![105u8, 110, 102]);
            assert(eval@ =~= seq![101u8, 118, 97, 108]);
            assert(sim@ =~= seq![115u8, 105, 109]);
            assert(psh@ =~= seq![112u8, 115, 104]);
            assert(pop@ =~= seq![112u8, 111, 112]);
            assert(drp@ =~= seq![100u8, 114, 112]);
            assert(mvc@ =~= seq![109u8, 118, 99]);
            assert(addi@ =~= seq![97u8, 100, 100, 105]);
            assert(subi@ =~= seq![115u8, 117, 98, 105]);
            assert(rln@ =~= seq![114u8, 108, 110]);
            assert(cln@ =~= seq![99u8, 108, 110]);
        }
        if is_word(w, &ls) {
            Some(TokenType::LoadString)
        } else if is_word(w, &lc) {
            Some(TokenType::LoadContent)
        } else if is_word(w, &li) {
            Some(TokenType::LoadImmediate)
        } else if is_word(w, &mv) {
            Some(TokenType::Move)
        } else if is_word(w, &beq) {
            Some(TokenType::BranchEqual)
        } else if is_word(w, &ble) {
            Some(TokenType::BranchLessEqual)
        } else if is_word(w, &blt) {
            Some(TokenType::BranchLess)
        } else if is_word(w, &bge) {
            Some(TokenType::BranchGreaterEqual)
        } else if is_word(w, &bgt) {
            Some(TokenType::BranchGreater)
        } else if is_word(w, &bne) {
            Some(TokenType::BranchNotEqual)
        } else if is_word(w, &exit) {
            Some(TokenType::Exit)
        } else if is_word(w, &put) {
            Some(TokenType::Print)
        } else if is_word(w, &pln) {
            Some(TokenType::PrintLine)
        } else if is_word(w, &pcx) {
            Some(TokenType::PrintContext)
        } else if is_word(w, &inf) {
            Some(TokenType::Inference)
        } else if is_word(w, &eval) {
            Some(TokenType::Evaluate)
        } else if is_word(w, &sim) {
            Some(TokenType::Similarity)
        } else if is_word(w, &psh) {
            Some(TokenType::ContextPush)
        } else if is_word(w, &pop) {
            Some(TokenType::ContextPop)
        } else if is_word(w, &drp) {
            Some(TokenType::ContextDrop)
        } else if is_word(w, &mvc) {
            Some(TokenType::MoveContext)
        } else if is_word(w, &addi) {
            Some(TokenType::AddImmediate)
        } else if is_word(w, &subi) {
            Some(TokenType::SubtractImmediate)
        } else if is_word(w, &rln) {
            Some(TokenType::ReadLine)
        } else if is_word(w, &cln) {
            Some(TokenType::CountLines)
        } else {
            None
        }
    }
}

/// What a token holds: its kind, the byte range of its lexeme in the source,
/// where it ends (line and column), and an error message for error tokens.
pub struct TokenModel {
    pub token_type: TokenType,
    pub start: nat,
    pub end: nat,
    pub line: nat,
    pub column: nat,
    pub error: Option<Seq<char>>,
}

/// A token scanned from the source.
pub struct Token {
    token_type: TokenType,
    start: usize,
    end: usize,
    line: usize,
    column: usize,
    error: Option<String>,
}

pub open spec fn option_text(o: Option<String>) -> Option<Seq<char>> {
    match o {
        Some(s) => Some(s@),
        None => None,
    }
}

pub fn copy_option_text(o: &Option<String>) -> (r: Option<String>)
    ensures
        option_text(r) == option_text(*o),
{
    match o {
        Some(s) => Some(s.clone()),
        None => None,
    }
}

impl View for Token {
    type V = TokenModel;

    closed spec fn view(&self) -> TokenModel {
        TokenModel {
            token_type: self.token_type,
            start: self.start as nat,
            end: self.end as nat,
            line: self.line as nat,
            column: self.column as nat,
            error: option_text(self.error),
        }
    }
}

impl Token {
    pub fn new(
        token_type: TokenType,
        start: usize,
        end: usize,
        line: usize,
        column: usize,
        error: Option<String>,
    ) -> (t: Token)
        ensures
            t@ == (TokenModel {
                token_type,
                start: start as nat,
                end: end as nat,
                line: line as nat,
                column: column as nat,
                error: option_text(error),
            }),
    {
        Token { token_type, start, end, line, column, error }
    }

    pub fn token_type(&self) -> (r: &TokenType)
        ensures
            *r == self@.token_type,
    {
        &self.token_type
    }

    pub fn start(&self) -> (r: usize)
        ensures
            r == self@.start,
    {
        self.start
    }

    pub fn end(&self) -> (r: usize)
        ensures
            r == self@.end,
    {
        self.end
    }

    pub fn line(&self) -> (r: usize)
        ensures
            r == self@.line,
    {
        self.line
    }

    pub fn column(&self) -> (r: usize)
        ensures
            r == self@.column,
    {
        self.column
    }

    pub fn error(&self) -> (r: Option<String>)
        ensures
            option_text(r) == self@.error,
    {
        copy_option_text(&self.error)
    }

    /// A copy of this token.
    pub fn duplicate(&self) -> (r: Token)
        ensures
            r@ == self@,
    {
        Token {
            token_type: self.token_type,
            start: self.start,
            end: self.end,
            line: self.line,
            column: self.column,
            error: copy_option_text(&self.error),
        }
    }
}

} // verus!
