//! The scanner: turns the bytes of an assembly source into tokens.
//!
//! Positions are byte offsets into the UTF-8 encoding of the source. Columns
//! count characters since the last line feed. The scanner steps over a
//! character by the width that its leading byte announces.
use vstd::prelude::*;
use vstd::utf8::encode_utf8;

use crate::assembler::token::{keyword, Token, TokenModel, TokenType};
use crate::text::{lower_all, lower_bytes, owned, sub_bytes};

verus! {

/// Where the scanner stands: the byte offset of the next character, and the
/// line and column reached.
pub struct ScanPos {
    pub current: nat,
    pub line: nat,
    pub column: nat,
}

/// The position at the start of a source.
pub open spec fn start_pos() -> ScanPos {
    ScanPos { current: 0, line: 1, column: 0 }
}

pub open spec fn is_alpha(b: u8) -> bool {
    (97 <= b <= 122) || (65 <= b <= 90) || b == 95 || b == 58
}

pub open spec fn is_digit(b: u8) -> bool {
    48 <= b <= 57
}

/// The number of bytes of the character that starts with byte `b`.
pub open spec fn width(b: u8) -> nat {
    if b < 128 {
        1
    } else if b < 224 {
        2
    } else if b < 240 {
        3
    } else {
        4
    }
}

/// The offset after the character at `i`.
pub open spec fn step(src: Seq<u8>, i: nat) -> nat {
    if i + width(src[i as int]) <= src.len() {
        i + width(src[i as int])
    } else {
        src.len()
    }
}

/// One character further on the same line.
pub open spec fn adv(src: Seq<u8>, p: ScanPos) -> ScanPos {
    ScanPos { current: step(src, p.current), line: p.line, column: p.column + 1 }
}

/// The start of the next line, before the line feed is consumed.
pub open spec fn newline(p: ScanPos) -> ScanPos {
    ScanPos { current: p.current, line: p.line + 1, column: 0 }
}

/// Skips blanks, line feeds and `;` comments (up to, not over, the line feed
/// that ends them).
pub open spec fn skip(src: Seq<u8>, p: ScanPos, in_comment: bool) -> ScanPos
    decreases src.len() - p.current, (if in_comment {
        1int
    } else {
        0int
    }),
{
    if p.current >= src.len() {
        p
    } else if in_comment {
        if src[p.current as int] == 10 {
            skip(src, p, false)
        } else {
            skip(src, adv(src, p), true)
        }
    } else {
        let b = src[p.current as int];
        if b == 32 || b == 13 || b == 9 {
            skip(src, adv(src, p), false)
        } else if b == 10 {
            skip(src, adv(src, newline(p)), false)
        } else if b == 59 {
            skip(src, adv(src, p), true)
        } else {
            p
        }
    }
}

/// The end of a run of letters, digits, `_` and `:` starting at `i`.
pub open spec fn word_end(src: Seq<u8>, i: nat) -> nat
    decreases src.len() - i,
{
    if i < src.len() && (is_alpha(src[i as int]) || is_digit(src[i as int])) {
        word_end(src, i + 1)
    } else {
        i
    }
}

/// The end of a run of digits starting at `i`.
pub open spec fn digits_end(src: Seq<u8>, i: nat) -> nat
    decreases src.len() - i,
{
    if i < src.len() && is_digit(src[i as int]) {
        digits_end(src, i + 1)
    } else {
        i
    }
}

/// The end of a number whose integer digits end at `e`: a `.` followed by a
/// digit starts a fractional part.
pub open spec fn number_end(src: Seq<u8>, e: nat) -> nat {
    if e + 1 < src.len() && src[e as int] == 46 && is_digit(src[e + 1int]) {
        digits_end(src, e + 1)
    } else {
        e
    }
}

/// Scans the body of a string literal up to its closing quote or the end of
/// the source. A backslash followed by a quote is part of the body.
pub open spec fn string_body(src: Seq<u8>, p: ScanPos) -> ScanPos
    decreases src.len() - p.current,
{
    if p.current >= src.len() {
        p
    } else {
        let b = src[p.current as int];
        if b == 34 {
            p
        } else if b == 92 && p.current + 1 < src.len() && src[p.current + 1int] == 34 {
            string_body(src, adv(src, adv(src, p)))
        } else if b == 10 {
            string_body(src, adv(src, newline(p)))
        } else {
            string_body(src, adv(src, p))
        }
    }
}

pub open spec fn token(
    kind: TokenType,
    start: nat,
    end: nat,
    p: ScanPos,
    error: Option<Seq<char>>,
) -> TokenModel {
    TokenModel { token_type: kind, start, end, line: p.line, column: p.column, error }
}

/// The kind of a word: a keyword (in any case) or an identifier.
pub open spec fn word_kind(w: Seq<u8>) -> TokenType {
    match keyword(lower_all(w)) {
        Some(k) => k,
        None => TokenType::Identifier,
    }
}

/// The next token from position `p`, and the position after it.
pub open spec fn scan(src: Seq<u8>, p: ScanPos) -> (TokenModel, ScanPos) {
    let q = skip(src, p, false);
    let start = q.current;
    if start >= src.len() {
        (token(TokenType::Eof, start, start, q, None), q)
    } else {
        let b = src[start as int];
        let r = adv(src, q);
        if is_alpha(b) {
            let e = word_end(src, r.current);
            let r2 = ScanPos { current: e, line: r.line, column: r.column + (e - r.current) as nat };
            if src[e - 1] == 58 {
                (token(TokenType::Label, start, e, r2, None), r2)
            } else {
                (token(word_kind(src.subrange(start as int, e as int)), start, e, r2, None), r2)
            }
        } else if is_digit(b) {
            let e = number_end(src, digits_end(src, r.current));
            let r2 = ScanPos { current: e, line: r.line, column: r.column + (e - r.current) as nat };
            (token(TokenType::Number, start, e, r2, None), r2)
        } else if b == 44 {
            (token(TokenType::Comma, start, r.current, r, None), r)
        } else if b == 34 {
            let s = string_body(src, r);
            if s.current >= src.len() {
                (token(TokenType::Error, start, s.current, s, Some("Unterminated string."@)), s)
            } else {
                let s2 = adv(src, s);
                (token(TokenType::String, start, s2.current, s2, None), s2)
            }
        } else {
            (token(TokenType::Error, start, r.current, r, Some("Unexpected character"@)), r)
        }
    }
}

pub open spec fn pos_ok(src: Seq<u8>, p: ScanPos) -> bool {
    &&& p.current <= src.len()
    &&& p.line <= p.current + 1
    &&& p.column <= p.current
}

pub proof fn lemma_skip(src: Seq<u8>, p: ScanPos, in_comment: bool)
    requires
        pos_ok(src, p),
    ensures
        pos_ok(src, skip(src, p, in_comment)),
        skip(src, p, in_comment).current >= p.current,
        skip(src, p, in_comment).current < src.len() ==> {
            let b = src[skip(src, p, in_comment).current as int];
            b != 32 && b != 13 && b != 9 && b != 10 && b != 59
        },
    decreases src.len() - p.current, (if in_comment {
        1int
    } else {
        0int
    }),
{
    if p.current < src.len() {
        let b = src[p.current as int];
        if in_comment {
            if b == 10 {
                lemma_skip(src, p, false);
            } else {
                lemma_skip(src, adv(src, p), true);
            }
        } else if b == 32 || b == 13 || b == 9 {
            lemma_skip(src, adv(src, p), false);
        } else if b == 10 {
            lemma_skip(src, adv(src, newline(p)), false);
        } else if b == 59 {
            lemma_skip(src, adv(src, p), true);
        }
    }
}

pub proof fn lemma_word_end(src: Seq<u8>, i: nat)
    requires
        i <= src.len(),
    ensures
        i <= word_end(src, i) <= src.len(),
        forall|j: int| i <= j < word_end(src, i) ==> is_alpha(#[trigger] src[j]) || is_digit(src[j]),
    decreases src.len() - i,
{
    if i < src.len() && (is_alpha(src[i as int]) || is_digit(src[i as int])) {
        lemma_word_end(src, i + 1);
    }
}

pub proof fn lemma_digits_end(src: Seq<u8>, i: nat)
    requires
        i <= src.len(),
    ensures
        i <= digits_end(src, i) <= src.len(),
    decreases src.len() - i,
{
    if i < src.len() && is_digit(src[i as int]) {
        lemma_digits_end(src, i + 1);
    }
}

pub proof fn lemma_string_body(src: Seq<u8>, p: ScanPos)
    requires
        pos_ok(src, p),
    ensures
        pos_ok(src, string_body(src, p)),
        string_body(src, p).current >= p.current,
        string_body(src, p).current < src.len() ==> src[string_body(src, p).current as int] == 34,
    decreases src.len() - p.current,
{
    if p.current < src.len() {
        let b = src[p.current as int];
        if b == 34 {
        } else if b == 92 && p.current + 1 < src.len() && src[p.current + 1int] == 34 {
            lemma_string_body(src, adv(src, adv(src, p)));
        } else if b == 10 {
            lemma_string_body(src, adv(src, newline(p)));
        } else {
            lemma_string_body(src, adv(src, p));
        }
    }
}

/// Every token but the end of input consumes at least one byte, and the
/// position stays within the source.
pub proof fn lemma_scan(src: Seq<u8>, p: ScanPos)
    requires
        pos_ok(src, p),
    ensures
        pos_ok(src, scan(src, p).1),
        scan(src, p).1.current >= p.current,
        scan(src, p).0.token_type != TokenType::Eof ==> scan(src, p).1.current > p.current,
        scan(src, p).0.start <= scan(src, p).0.end <= src.len(),
        scan(src, p).0.token_type == TokenType::String ==> scan(src, p).0.start + 2 <= scan(src, p).0.end,
        scan(src, p).0.token_type == TokenType::String ==> src[scan(src, p).0.start as int] == 34
            && src[scan(src, p).0.end - 1] == 34,
        scan(src, p).0.token_type == TokenType::Eof ==> scan(src, p).1 == skip(src, p, false)
            && scan(src, p).1.current == src.len(),
{
    lemma_skip(src, p, false);
    let q = skip(src, p, false);
    if q.current < src.len() {
        let r = adv(src, q);
        let b = src[q.current as int];
        if is_alpha(b) {
            lemma_word_end(src, r.current);
        } else if is_digit(b) {
            lemma_digits_end(src, r.current);
            let e = digits_end(src, r.current);
            if e + 1 < src.len() && src[e as int] == 46 && is_digit(src[e + 1int]) {
                lemma_digits_end(src, e + 1);
            }
        } else if b == 34 {
            lemma_string_body(src, r);
        }
    }
}

/// The scanner over the bytes of a source.
pub struct Scanner {
    source: Vec<u8>,
    start: usize,
    current: usize,
    line: usize,
    column: usize,
    source_len: usize,
}

impl Scanner {
    /// The bytes scanned.
    pub closed spec fn src(&self) -> Seq<u8> {
        self.source@
    }

    /// The position reached.
    pub closed spec fn pos(&self) -> ScanPos {
        ScanPos { current: self.current as nat, line: self.line as nat, column: self.column as nat }
    }

    pub closed spec fn wf(&self) -> bool {
        &&& self.source_len == self.source@.len()
        &&& self.source_len < usize::MAX
        &&& self.start <= self.current
        &&& pos_ok(self.source@, self.pos())
    }

    pub fn new(source: String) -> (s: Scanner)
        requires
            encode_utf8(source@).len() < usize::MAX,
        ensures
            s.wf(),
            s.src() == encode_utf8(source@),
            s.pos() == start_pos(),
    {
        let bytes = source.as_str().as_bytes();
        let copy = sub_bytes(bytes, 0, bytes.len());
        assert(copy@ =~= bytes@);
        let source_len = copy.len();
        Scanner { source: copy, current: 0, start: 0, line: 1, column: 0, source_len }
    }

    pub proof fn lemma_wf(&self)
        requires
            self.wf(),
        ensures
            pos_ok(self.src(), self.pos()),
            self.src().len() < usize::MAX,
    {
    }

    /// A copy of the source bytes from `start` to `end`.
    pub fn source_slice(&self, start: usize, end: usize) -> (r: Vec<u8>)
        requires
            self.wf(),
            start <= end <= self.src().len(),
        ensures
            r@ == self.src().subrange(start as int, end as int),
    {
        sub_bytes(self.source.as_slice(), start, end)
    }

    fn is_alpha(ch: u8) -> (r: bool)
        ensures
            r == is_alpha(ch),
    {
        (97 <= ch && ch <= 122) || (65 <= ch && ch <= 90) || ch == 95 || ch == 58
    }

    fn is_digit(ch: u8) -> (r: bool)
        ensures
            r == is_digit(ch),
    {
        48 <= ch && ch <= 57
    }

    fn is_at_end(&self) -> (r: bool)
        requires
            self.wf(),
        ensures
            r == (self.pos().current >= self.src().len()),
    {
        self.current >= self.source_len
    }

    fn advance(&mut self)
        requires
            old(self).wf(),
            old(self).pos().current < old(self).src().len(),
        ensures
            final(self).wf(),
            final(self).src() == old(self).src(),
            final(self).start == old(self).start,
            final(self).pos() == adv(old(self).src(), old(self).pos()),
    {
        let b = self.source[self.current];
        let w: usize = if b < 128 {
            1
        } else if b < 224 {
            2
        } else if b < 240 {
            3
        } else {
            4
        };
        if w <= self.source_len - self.current {
            self.current = self.current + w;
        } else {
            self.current = self.source_len;
        }
        self.column = self.column + 1;
    }

    fn peek(&self) -> (r: u8)
        requires
            self.wf(),
            self.pos().current < self.src().len(),
        ensures
            r == self.src()[self.pos().current as int],
    {
        self.source[self.current]
    }

    /// The byte after the current one, or 0 at the end.
    fn peek_next(&self) -> (r: u8)
        requires
            self.wf(),
            self.pos().current < self.src().len(),
        ensures
            self.pos().current + 1 < self.src().len() ==> r == self.src()[self.pos().current + 1int],
            self.pos().current + 1 >= self.src().len() ==> r == 0,
    {
        if self.current + 1 < self.source_len {
            self.source[self.current + 1]
        } else {
            0
        }
    }

    fn make_token(&self, token_type: TokenType) -> (t: Token)
        ensures
            t@ == token(token_type, self.start as nat, self.current as nat, self.pos(), None),
    {
        Token::new(token_type, self.start, self.current, self.line, self.column, None)
    }

    fn make_error(&self, message: &str) -> (t: Token)
        ensures
            t@ == token(
                TokenType::Error,
                self.start as nat,
                self.current as nat,
                self.pos(),
                Some(message@),
            ),
    {
        Token::new(TokenType::Error, self.start, self.current, self.line, self.column, Some(owned(message)))
    }

    fn skip_whitespace(&mut self)
        requires
            old(self).wf(),
        ensures
            final(self).wf(),
            final(self).src() == old(self).src(),
            final(self).start == old(self).start,
            final(self).pos() == skip(old(self).src(), old(self).pos(), false),
    {
        let ghost target = skip(self.src(), self.pos(), false);
        while !self.is_at_end()
            invariant_except_break
                self.wf(),
                self.src() == old(self).src(),
                self.start == old(self).start,
                skip(self.src(), self.pos(), false) == target,
            ensures
                self.wf(),
                self.src() == old(self).src(),
                self.start == old(self).start,
                self.pos() == target,
            decreases self.src().len() - self.pos().current,
        {
            let b = self.peek();
            if b == 32 || b == 13 || b == 9 {
                self.advance();
            } else if b == 10 {
                self.advance();
                self.line = self.line + 1;
                self.column = 1;
            } else if b == 59 {
                let ghost before = self.pos().current;
                self.advance();
                while !self.is_at_end() && self.peek() != 10
                    invariant
                        self.pos().current > before,
                        self.wf(),
                        self.src() == old(self).src(),
                        self.start == old(self).start,
                        skip(self.src(), self.pos(), true) == target,
                    decreases self.src().len() - self.pos().current,
                {
                    self.advance();
                }
            } else {
                break;
            }
        }
    }

    fn label(&mut self) -> (t: Token)
        requires
            old(self).wf(),
        ensures
            final(self).wf(),
            final(self).src() == old(self).src(),
            final(self).start == old(self).start,
            t@ == token(TokenType::Label, old(self).start as nat, old(self).current as nat, old(self).pos(), None),
            final(self).pos() == old(self).pos(),
    {
        self.make_token(TokenType::Label)
    }

    fn identifier(&mut self) -> (t: Token)
        requires
            old(self).wf(),
            old(self).start < old(self).current,
            is_alpha(old(self).src()[old(self).start as int]),
        ensures
            final(self).wf(),
            final(self).src() == old(self).src(),
            final(self).start == old(self).start,
            ({
                let src = old(self).src();
                let r = old(self).pos();
                let e = word_end(src, r.current);
                let r2 = ScanPos { current: e, line: r.line, column: r.column + (e - r.current) as nat };
                if src[e - 1] == 58 {
                    &&& t@ == token(TokenType::Label, old(self).start as nat, e, r2, None)
                    &&& final(self).pos() == r2
                } else {
                    &&& t@ == token(word_kind(src.subrange(old(self).start as int, e as int)), old(self).start as nat, e, r2, None)
                    &&& final(self).pos() == r2
                }
            }),
    {
        let ghost src = self.src();
        let ghost r = self.pos();
        proof {
            lemma_word_end(src, r.current);
        }
        while !self.is_at_end() && (Self::is_alpha(self.peek()) || Self::is_digit(self.peek()))
            invariant
                self.wf(),
                self.src() == src,
                self.start == old(self).start,
                r.current <= self.pos().current,
                word_end(src, self.pos().current) == word_end(src, r.current),
                self.pos().line == r.line,
                self.pos().column == r.column + (self.pos().current - r.current),
            decreases src.len() - self.pos().current,
        {
            self.advance();
        }
        let lexeme = sub_bytes(self.source.as_slice(), self.start, self.current);
        if lexeme[lexeme.len() - 1] == 58 {
            return self.label();
        }
        let lower = lower_bytes(lexeme.as_slice());
        match TokenType::from_keyword(lower.as_slice()) {
            Some(token_type) => self.make_token(token_type),
            None => self.make_token(TokenType::Identifier),
        }
    }

    fn number(&mut self) -> (t: Token)
        requires
            old(self).wf(),
            old(self).start < old(self).current,
        ensures
            final(self).wf(),
            final(self).src() == old(self).src(),
            final(self).start == old(self).start,
            ({
                let src = old(self).src();
                let r = old(self).pos();
                let e = number_end(src, digits_end(src, r.current));
                let r2 = ScanPos { current: e, line: r.line, column: r.column + (e - r.current) as nat };
                &&& t@ == token(TokenType::Number, old(self).start as nat, e, r2, None)
                &&& final(self).pos() == r2
            }),
    {
        let ghost src = self.src();
        let ghost r = self.pos();
        proof {
            lemma_digits_end(src, r.current);
        }
        while !self.is_at_end() && Self::is_digit(self.peek())
            invariant
                self.wf(),
                self.src() == src,
                self.start == old(self).start,
                r.current <= self.pos().current,
                digits_end(src, self.pos().current) == digits_end(src, r.current),
                self.pos().line == r.line,
                self.pos().column == r.column + (self.pos().current - r.current),
            decreases src.len() - self.pos().current,
        {
            self.advance();
        }
        let ghost e0 = self.pos().current;
        assert(e0 == digits_end(src, r.current));
        if !self.is_at_end() && self.peek() == 46 && Self::is_digit(self.peek_next()) {
            self.advance();
            proof {
                lemma_digits_end(src, e0 + 1);
            }
            while !self.is_at_end() && Self::is_digit(self.peek())
                invariant
                    self.wf(),
                    self.src() == src,
                    self.start == old(self).start,
                    e0 + 1 <= self.pos().current,
                    digits_end(src, self.pos().current) == digits_end(src, e0 + 1),
                    self.pos().line == r.line,
                    self.pos().column == r.column + (self.pos().current - r.current),
                decreases src.len() - self.pos().current,
            {
                self.advance();
            }
        }
        self.make_token(TokenType::Number)
    }

    fn string(&mut self) -> (t: Token)
        requires
            old(self).wf(),
        ensures
            final(self).wf(),
            final(self).src() == old(self).src(),
            final(self).start == old(self).start,
            ({
                let src = old(self).src();
                let s = string_body(src, old(self).pos());
                if s.current >= src.len() {
                    &&& t@ == token(TokenType::Error, old(self).start as nat, s.current, s, Some("Unterminated string."@))
                    &&& final(self).pos() == s
                } else {
                    let s2 = adv(src, s);
                    &&& t@ == token(TokenType::String, old(self).start as nat, s2.current, s2, None)
                    &&& final(self).pos() == s2
                }
            }),
    {
        let ghost src = self.src();
        let ghost target = string_body(src, self.pos());
        while !self.is_at_end()
            invariant_except_break
                self.wf(),
                self.src() == src,
                self.start == old(self).start,
                string_body(src, self.pos()) == target,
            ensures
                self.wf(),
                self.src() == src,
                self.start == old(self).start,
                self.pos() == target,
            decreases src.len() - self.pos().current,
        {
            if self.peek() == 34 {
                break;
            }
            if self.peek() == 92 && self.peek_next() == 34 {
                self.advance();
                self.advance();
                continue;
            }
            if self.peek() == 10 {
                self.advance();
                self.line = self.line + 1;
                self.column = 1;
            } else {
                self.advance();
            }
        }
        if self.is_at_end() {
            self.make_error("Unterminated string.")
        } else {
            self.advance();
            self.make_token(TokenType::String)
        }
    }

    /// Scans the next token.
    pub fn scan_token(&mut self) -> (t: Token)
        requires
            old(self).wf(),
        ensures
            final(self).wf(),
            final(self).src() == old(self).src(),
            (t@, final(self).pos()) == scan(old(self).src(), old(self).pos()),
    {
        let ghost src = self.src();
        proof {
            lemma_skip(src, self.pos(), false);
        }
        self.skip_whitespace();
        self.start = self.current;
        if self.is_at_end() {
            return self.make_token(TokenType::Eof);
        }
        let ch = self.peek();
        self.advance();
        if Self::is_alpha(ch) {
            return self.identifier();
        }
        if Self::is_digit(ch) {
            return self.number();
        }
        if ch == 44 {
            self.make_token(TokenType::Comma)
        } else if ch == 34 {
            self.string()
        } else {
            self.make_error("Unexpected character")
        }
    }
}

} // verus!
