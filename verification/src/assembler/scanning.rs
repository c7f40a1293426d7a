//! The law of the scanner: tokens come in order, within the source and on
//! character boundaries, lines never go back, and the end of input repeats.
use vstd::prelude::*;
use vstd::utf8::*;

use crate::assembler::scanner::{
    adv, digits_end, is_alpha, is_digit, lemma_digits_end, lemma_scan, lemma_skip,
    lemma_string_body, lemma_word_end, newline, number_end, pos_ok, scan, skip, start_pos, step,
    string_body, word_end, ScanPos,
};
use crate::assembler::token::TokenType;

verus! {

/// Offset `i` starts a character of `src` (or is its end).
pub open spec fn boundary(src: Seq<u8>, i: int) -> bool {
    valid_utf8(src) ==> is_char_boundary(src, i)
}

/// Stepping over the character at a boundary lands on the next boundary.
proof fn lemma_step_boundary(src: Seq<u8>, i: nat)
    requires
        i < src.len(),
        boundary(src, i as int),
    ensures
        boundary(src, step(src, i) as int),
{
    if valid_utf8(src) {
        is_char_boundary_iff_not_is_continuation_byte(src, i as int);
        valid_utf8_split(src, i as int);
        let tail = src.subrange(i as int, src.len() as int);
        assert(tail[0] == src[i as int]);
        let w = length_of_first_scalar(tail);
        assert(valid_first_scalar(tail) && valid_utf8(pop_first_scalar(tail)));
        assert(i + w <= src.len());
        assert(step(src, i) == i + w);
        let k = i + w;
        if k == src.len() {
            is_char_boundary_start_end_of_seq(src);
        } else {
            let rest = pop_first_scalar(tail);
            assert(rest.len() > 0);
            assert(rest[0] == src[k]);
            assert(valid_first_scalar(rest));
            is_char_boundary_iff_not_is_continuation_byte(src, k);
        }
    }
}

proof fn lemma_skip_law(src: Seq<u8>, p: ScanPos, in_comment: bool)
    requires
        pos_ok(src, p),
        boundary(src, p.current as int),
    ensures
        boundary(src, skip(src, p, in_comment).current as int),
        skip(src, p, in_comment).line >= p.line,
    decreases src.len() - p.current, (if in_comment {
        1int
    } else {
        0int
    }),
{
    lemma_skip(src, p, in_comment);
    if p.current < src.len() {
        lemma_step_boundary(src, p.current);
        lemma_skip(src, adv(src, p), in_comment);
        let b = src[p.current as int];
        if in_comment {
            if b == 10 {
                lemma_skip_law(src, p, false);
            } else {
                lemma_skip_law(src, adv(src, p), true);
            }
        } else if b == 32 || b == 13 || b == 9 {
            lemma_skip_law(src, adv(src, p), false);
        } else if b == 10 {
            lemma_skip_law(src, adv(src, newline(p)), false);
        } else if b == 59 {
            lemma_skip_law(src, adv(src, p), true);
        }
    }
}

/// A run of ASCII bytes from a boundary ends on a boundary.
proof fn lemma_word_end_law(src: Seq<u8>, i: nat)
    requires
        i <= src.len(),
        boundary(src, i as int),
    ensures
        boundary(src, word_end(src, i) as int),
        boundary(src, digits_end(src, i) as int),
    decreases src.len() - i,
{
    if i < src.len() {
        lemma_step_boundary(src, i);
        if is_alpha(src[i as int]) || is_digit(src[i as int]) {
            assert(step(src, i) == i + 1);
            lemma_word_end_law(src, i + 1);
        }
    }
}

proof fn lemma_string_body_law(src: Seq<u8>, p: ScanPos)
    requires
        pos_ok(src, p),
        boundary(src, p.current as int),
    ensures
        boundary(src, string_body(src, p).current as int),
        string_body(src, p).line >= p.line,
    decreases src.len() - p.current,
{
    lemma_string_body(src, p);
    if p.current < src.len() {
        lemma_step_boundary(src, p.current);
        let b = src[p.current as int];
        if b == 34 {
        } else if b == 92 && p.current + 1 < src.len() && src[p.current + 1int] == 34 {
            let a = adv(src, p);
            assert(a.current == p.current + 1);
            lemma_step_boundary(src, a.current);
            lemma_string_body_law(src, adv(src, a));
        } else if b == 10 {
            lemma_string_body_law(src, adv(src, newline(p)));
        } else {
            lemma_string_body_law(src, adv(src, p));
        }
    }
}

/// The scanner law, for one token scanned at a valid position `p`: the token
/// starts at or after `p` and ends within the source, the next position is
/// valid and not before the token's end, lines never go back, and all these
/// offsets are character boundaries of a UTF-8 source when `p` is one. At
/// the end of input, scanning again gives the same end-of-input token at the
/// same place. Together with `Scanner::scan_token`, which returns `scan` at
/// the scanner's position and moves to the next position, and
/// `lemma_start_position`, this holds for every token a scanner returns.
pub proof fn lemma_scanner_law(src: Seq<u8>, p: ScanPos)
    requires
        pos_ok(src, p),
        boundary(src, p.current as int),
    ensures
        ({
            let (t, q) = scan(src, p);
            &&& p.current <= t.start <= t.end <= src.len()
            &&& t.end <= q.current
            &&& pos_ok(src, q)
            &&& p.line <= t.line <= q.line
            &&& boundary(src, t.start as int)
            &&& boundary(src, t.end as int)
            &&& boundary(src, q.current as int)
            &&& (t.token_type == TokenType::Eof ==> t.start == t.end == src.len() && scan(src, q) == (
                t,
                q,
            ))
        }),
{
    lemma_scan(src, p);
    lemma_skip(src, p, false);
    lemma_skip_law(src, p, false);
    let q = skip(src, p, false);
    if q.current < src.len() {
        let r = adv(src, q);
        let b = src[q.current as int];
        lemma_step_boundary(src, q.current);
        if is_alpha(b) {
            lemma_word_end(src, r.current);
            lemma_word_end_law(src, r.current);
        } else if is_digit(b) {
            lemma_digits_end(src, r.current);
            lemma_word_end_law(src, r.current);
            let e = digits_end(src, r.current);
            if e + 1 < src.len() && src[e as int] == 46 && is_digit(src[e + 1int]) {
                lemma_step_boundary(src, e);
                assert(step(src, e) == e + 1);
                lemma_digits_end(src, e + 1);
                lemma_word_end_law(src, e + 1);
            }
            assert(boundary(src, number_end(src, e) as int));
        } else if b == 34 {
            lemma_string_body(src, r);
            lemma_string_body_law(src, r);
            let s = string_body(src, r);
            if s.current < src.len() {
                lemma_step_boundary(src, s.current);
            }
        }
    } else {
        lemma_skip(src, q, false);
    }
}

/// A scanner starts at a valid position on a boundary, on line 1.
pub proof fn lemma_start_position(src: Seq<u8>)
    ensures
        pos_ok(src, start_pos()),
        boundary(src, 0),
        start_pos().line == 1,
{
    if valid_utf8(src) {
        is_char_boundary_start_end_of_seq(src);
    }
}

/// Where a scanner stands after `n` calls of `Scanner::scan_token` on
/// `src`: `Scanner::new` starts at `start_pos()`, and each call moves to the
/// position that `scan` gives.
pub open spec fn position_after(src: Seq<u8>, n: nat) -> ScanPos
    decreases n,
{
    if n == 0 {
        start_pos()
    } else {
        scan(src, position_after(src, (n - 1) as nat)).1
    }
}

/// The token that call number `n` (from 0) of `Scanner::scan_token` returns.
pub open spec fn token_at(src: Seq<u8>, n: nat) -> crate::assembler::token::TokenModel {
    scan(src, position_after(src, n)).0
}

/// The scanner law over a whole run of calls: every token lies within the
/// source, starts and ends on character boundaries of a UTF-8 source, is on
/// line 1 or later, and starts at or after the end of the token before it.
pub proof fn lemma_scanner_calls(src: Seq<u8>, n: nat)
    ensures
        pos_ok(src, position_after(src, n)),
        boundary(src, position_after(src, n).current as int),
        token_at(src, n).start <= token_at(src, n).end <= src.len(),
        boundary(src, token_at(src, n).start as int),
        boundary(src, token_at(src, n).end as int),
        token_at(src, n).line >= 1,
        n > 0 ==> token_at(src, (n - 1) as nat).end <= token_at(src, n).start,
    decreases n,
{
    if n == 0 {
        lemma_start_position(src);
    } else {
        lemma_scanner_calls(src, (n - 1) as nat);
        lemma_scanner_law(src, position_after(src, (n - 1) as nat));
    }
    lemma_scanner_law(src, position_after(src, n));
    lemma_position_line(src, n);
}

proof fn lemma_position_line(src: Seq<u8>, n: nat)
    ensures
        position_after(src, n).line >= 1,
        pos_ok(src, position_after(src, n)),
        boundary(src, position_after(src, n).current as int),
    decreases n,
{
    if n == 0 {
        lemma_start_position(src);
    } else {
        lemma_position_line(src, (n - 1) as nat);
        lemma_scanner_law(src, position_after(src, (n - 1) as nat));
    }
}

/// Once a call returns the end of input, every later call returns the same
/// end-of-input token, at the end of the source.
pub proof fn lemma_end_of_input_repeats(src: Seq<u8>, n: nat, m: nat)
    requires
        n <= m,
        token_at(src, n).token_type == TokenType::Eof,
    ensures
        token_at(src, m) == token_at(src, n),
        n < m ==> position_after(src, m) == position_after(src, n + 1),
        token_at(src, m).start == token_at(src, m).end == src.len(),
    decreases m - n,
{
    lemma_position_line(src, n);
    lemma_scanner_law(src, position_after(src, n));
    if m > n {
        let q = position_after(src, n + 1);
        assert(scan(src, q) == (token_at(src, n), q));
        if m - 1 > n {
            lemma_end_of_input_repeats(src, n, (m - 1) as nat);
            assert(position_after(src, (m - 1) as nat) == q);
        }
        assert(position_after(src, m) == scan(src, position_after(src, (m - 1) as nat)).1);
        assert(position_after(src, m) == q);
    }
}

} // verus!
