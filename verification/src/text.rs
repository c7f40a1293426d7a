//! Character, byte and number helpers shared by the assembler and the processor.
use vstd::prelude::*;
use vstd::utf8::*;

verus! {

// ---------------------------------------------------------------------------
// Strings and characters
// ---------------------------------------------------------------------------

/// `String::push`: appends one character at the end of the string.
#[verifier::external_body]
pub(crate) fn push_char(s: &mut String, c: char)
    ensures
        final(s)@ == old(s)@.push(c),
{
    s.push(c);
}

/// `String::from_utf8`: succeeds exactly on valid UTF-8, and then holds the
/// characters that the bytes encode.
#[verifier::external_body]
pub(crate) fn string_from_utf8(bytes: Vec<u8>) -> (r: Option<String>)
    ensures
        r is Some <==> valid_utf8(bytes@),
        r matches Some(s) ==> s@ == decode_utf8(bytes@),
{
    String::from_utf8(bytes).ok()
}

/// A string holding a copy of a string slice.
pub fn owned(s: &str) -> (r: String)
    ensures
        r@ == s@,
{
    s.to_string()
}

/// The characters of a string, in order.
pub fn chars_of(s: &str) -> (v: Vec<char>)
    ensures
        v@ == s@,
{
    let mut v: Vec<char> = Vec::new();
    for c in it: s.chars()
        invariant
            v@ == it.seq().take(it.index() as int),
    {
        v.push(c);
    }
    v
}

/// A string made of the given characters.
pub fn string_from_chars(cs: &[char]) -> (s: String)
    ensures
        s@ == cs@,
{
    let mut s = String::new();
    let mut i: usize = 0;
    while i < cs.len()
        invariant
            i <= cs.len(),
            s@ == cs@.take(i as int),
        decreases cs.len() - i,
    {
        push_char(&mut s, cs[i]);
        i += 1;
        assert(s@ =~= cs@.take(i as int));
    }
    assert(cs@.take(cs.len() as int) =~= cs@);
    s
}

/// `a` followed by `b`.
pub fn concat(a: &str, b: &str) -> (s: String)
    ensures
        s@ == a@ + b@,
{
    let mut s = owned(a);
    s.append(b);
    s
}

// ---------------------------------------------------------------------------
// Decimal numbers
// ---------------------------------------------------------------------------

/// The character of a decimal digit.
pub open spec fn digit_char(d: nat) -> char {
    ((d + 48) as u32) as char
}

/// The decimal notation of a natural number, without sign or leading zeros.
pub open spec fn decimal(n: nat) -> Seq<char>
    decreases n,
{
    if n < 10 {
        seq![digit_char(n)]
    } else {
        decimal(n / 10).push(digit_char(n % 10))
    }
}

/// Appends the decimal notation of `n`.
pub fn push_decimal(s: &mut String, n: u64)
    ensures
        final(s)@ == old(s)@ + decimal(n as nat),
    decreases n,
{
    let ghost start = s@;
    if n >= 10 {
        push_decimal(s, n / 10);
    }
    let d = (n % 10) as u8;
    push_char(s, (d + 48) as char);
    assert(s@ =~= start + decimal(n as nat));
}

/// The decimal notation of `n`.
pub fn decimal_string(n: u64) -> (s: String)
    ensures
        s@ == decimal(n as nat),
{
    let mut s = String::new();
    push_decimal(&mut s, n);
    assert(s@ =~= decimal(n as nat));
    s
}

pub open spec fn is_digit_byte(b: u8) -> bool {
    48 <= b <= 57
}

pub open spec fn all_digits(s: Seq<u8>) -> bool {
    forall|i: int| 0 <= i < s.len() ==> is_digit_byte(#[trigger] s[i])
}

/// The value of a sequence of decimal digits.
pub open spec fn digits_value(s: Seq<u8>) -> nat
    decreases s.len(),
{
    if s.len() == 0 {
        0
    } else {
        digits_value(s.drop_last()) * 10 + (s.last() - 48) as nat
    }
}

/// What `str::parse::<u32>` gives for ASCII text: an optional `+`, then at
/// least one digit, with a value that fits in a `u32`.
pub open spec fn parse_u32(s: Seq<u8>) -> Option<u32> {
    let d = if s.len() > 0 && s[0] == 43 {
        s.drop_first()
    } else {
        s
    };
    if d.len() > 0 && all_digits(d) && digits_value(d) <= u32::MAX {
        Some(digits_value(d) as u32)
    } else {
        None
    }
}

proof fn lemma_digits_value_grows(s: Seq<u8>, k: int)
    requires
        0 <= k <= s.len(),
        all_digits(s),
    ensures
        digits_value(s.take(k)) <= digits_value(s),
    decreases s.len() - k,
{
    if k < s.len() {
        lemma_digits_value_grows(s, k + 1);
        assert(s.take(k + 1).drop_last() =~= s.take(k));
    } else {
        assert(s.take(k) =~= s);
    }
}

/// Parses decimal text as `str::parse::<u32>` does.
pub fn parse_u32_bytes(s: &[u8]) -> (r: Option<u32>)
    ensures
        r == parse_u32(s@),
{
    let off: usize = if s.len() > 0 && s[0] == 43 {
        1
    } else {
        0
    };
    let ghost d = s@.skip(off as int);
    assert(off == 1 ==> d =~= s@.drop_first());
    assert(off == 0 ==> d =~= s@);
    if off >= s.len() {
        return None;
    }
    let mut v: u32 = 0;
    let mut i: usize = off;
    while i < s.len()
        invariant
            off <= i <= s.len(),
            d == s@.skip(off as int),
            off == 1 <==> (s@.len() > 0 && s@[0] == 43),
            off == 0 || off == 1,
            off == 1 ==> d =~= s@.drop_first(),
            off == 0 ==> d =~= s@,
            all_digits(d.take(i - off)),
            v == digits_value(d.take(i - off)),
        decreases s.len() - i,
    {
        let ghost j = i - off;
        let b = s[i];
        assert(d[j] == b);
        if b < 48 || b > 57 {
            assert(!is_digit_byte(d[j]));
            return None;
        }
        assert(d.take(j + 1).drop_last() =~= d.take(j));
        assert(d.take(j + 1).last() == b);
        if v > 429496729 || (v == 429496729 && b > 53) {
            proof {
                assert(digits_value(d.take(j + 1)) > u32::MAX);
                if all_digits(d) {
                    lemma_digits_value_grows(d, j + 1);
                }
            }
            return None;
        }
        v = v * 10 + (b - 48) as u32;
        i += 1;
        assert(all_digits(d.take(i - off))) by {
            assert forall|t: int| 0 <= t < i - off implies is_digit_byte(#[trigger] d.take(i - off)[t]) by {
                if t < j {
                    assert(d.take(i - off)[t] == d.take(j)[t]);
                }
            }
        }
    }
    assert(d.take(d.len() as int) =~= d);
    Some(v)
}

// ---------------------------------------------------------------------------
// ASCII case
// ---------------------------------------------------------------------------

/// ASCII lower case of one byte; other bytes are kept.
pub open spec fn lower(b: u8) -> u8 {
    if 65 <= b <= 90 {
        (b + 32) as u8
    } else {
        b
    }
}

pub fn lower_byte(b: u8) -> (r: u8)
    ensures
        r == lower(b),
{
    if 65 <= b && b <= 90 {
        b + 32
    } else {
        b
    }
}

/// ASCII lower case of a byte sequence.
pub open spec fn lower_all(s: Seq<u8>) -> Seq<u8> {
    s.map_values(|b: u8| lower(b))
}

pub fn lower_bytes(s: &[u8]) -> (r: Vec<u8>)
    ensures
        r@ == lower_all(s@),
{
    let mut r: Vec<u8> = Vec::new();
    let mut i: usize = 0;
    while i < s.len()
        invariant
            i <= s.len(),
            r@ == lower_all(s@.take(i as int)),
        decreases s.len() - i,
    {
        r.push(lower_byte(s[i]));
        i += 1;
        assert(r@ =~= lower_all(s@.take(i as int)));
    }
    assert(s@.take(s.len() as int) =~= s@);
    r
}

/// Byte-wise equality of two slices.
pub fn bytes_equal(a: &[u8], b: &[u8]) -> (r: bool)
    ensures
        r == (a@ == b@),
{
    if a.len() != b.len() {
        return false;
    }
    let mut i: usize = 0;
    while i < a.len()
        invariant
            i <= a.len(),
            a.len() == b.len(),
            a@.take(i as int) == b@.take(i as int),
        decreases a.len() - i,
    {
        if a[i] != b[i] {
            return false;
        }
        i += 1;
        assert(a@.take(i as int) =~= b@.take(i as int));
    }
    assert(a@ =~= a@.take(a.len() as int));
    assert(b@ =~= b@.take(b.len() as int));
    true
}

/// A copy of `v[from..to]`.
pub fn sub_bytes(v: &[u8], from: usize, to: usize) -> (r: Vec<u8>)
    requires
        from <= to <= v.len(),
    ensures
        r@ == v@.subrange(from as int, to as int),
{
    let mut r: Vec<u8> = Vec::new();
    let mut i = from;
    while i < to
        invariant
            from <= i <= to <= v.len(),
            r@ == v@.subrange(from as int, i as int),
        decreases to - i,
    {
        r.push(v[i]);
        i += 1;
        assert(r@ =~= v@.subrange(from as int, i as int));
    }
    r
}

// ---------------------------------------------------------------------------
// Escapes
// ---------------------------------------------------------------------------

/// Replaces, from left to right and without overlap, each pair of bytes
/// `a b` by the single byte `r` (`str::replace` with a two-byte pattern).
pub open spec fn replace_pair(s: Seq<u8>, a: u8, b: u8, r: u8) -> Seq<u8>
    decreases s.len(),
{
    if s.len() == 0 {
        s
    } else if s.len() >= 2 && s[0] == a && s[1] == b {
        seq![r] + replace_pair(s.skip(2), a, b, r)
    } else {
        seq![s[0]] + replace_pair(s.drop_first(), a, b, r)
    }
}

pub fn replace_pair_bytes(s: &[u8], a: u8, b: u8, r: u8) -> (out: Vec<u8>)
    ensures
        out@ == replace_pair(s@, a, b, r),
{
    let mut out: Vec<u8> = Vec::new();
    let mut i: usize = 0;
    assert(s@.skip(0) =~= s@);
    assert(out@ + s@ =~= s@);
    while i < s.len()
        invariant
            i <= s.len(),
            replace_pair(s@, a, b, r) == out@ + replace_pair(s@.skip(i as int), a, b, r),
        decreases s.len() - i,
    {
        let ghost rest = s@.skip(i as int);
        if i + 1 < s.len() && s[i] == a && s[i + 1] == b {
            out.push(r);
            assert(rest.skip(2) =~= s@.skip(i + 2));
            i += 2;
        } else {
            out.push(s[i]);
            assert(rest.drop_first() =~= s@.skip(i + 1));
            i += 1;
        }
    }
    assert(s@.skip(i as int) =~= Seq::<u8>::empty());
    assert(out@ + Seq::<u8>::empty() =~= out@);
    out
}

/// The text of a string literal between its quotes: `\n` becomes a line
/// feed, then `\"` becomes a double quote.
pub open spec fn unescape(s: Seq<u8>) -> Seq<u8> {
    replace_pair(replace_pair(s, 92, 110, 10), 92, 34, 34)
}

pub fn unescape_bytes(s: &[u8]) -> (r: Vec<u8>)
    ensures
        r@ == unescape(s@),
{
    let first = replace_pair_bytes(s, 92, 110, 10);
    replace_pair_bytes(first.as_slice(), 92, 34, 34)
}

// ---------------------------------------------------------------------------
// Lines and white space
// ---------------------------------------------------------------------------

/// Position of the first line feed at or after `i`, or the length.
pub open spec fn line_end(s: Seq<char>, i: int) -> int
    decreases s.len() - i,
{
    if i >= s.len() {
        s.len() as int
    } else if s[i] == '\n' {
        i
    } else {
        line_end(s, i + 1)
    }
}

/// A line without its carriage return before the line feed.
pub open spec fn strip_cr(l: Seq<char>) -> Seq<char> {
    if l.len() > 0 && l.last() == '\r' {
        l.drop_last()
    } else {
        l
    }
}

/// The lines of a text, as `str::lines` gives them: split at `\n`, a `\r`
/// before the `\n` removed, no empty line after a final line feed.
pub open spec fn lines(s: Seq<char>) -> Seq<Seq<char>>
    decreases s.len(),
{
    if s.len() == 0 {
        seq![]
    } else {
        let k = line_end(s, 0);
        proof {
            lemma_line_end_bounds(s, 0);
        }
        if k >= s.len() {
            seq![s]
        } else {
            seq![strip_cr(s.take(k))] + lines(s.skip(k + 1))
        }
    }
}

pub proof fn lemma_line_end_bounds(s: Seq<char>, i: int)
    requires
        0 <= i <= s.len(),
    ensures
        i <= line_end(s, i) <= s.len(),
        line_end(s, i) < s.len() ==> s[line_end(s, i)] == '\n',
    decreases s.len() - i,
{
    if i < s.len() && s[i] != '\n' {
        lemma_line_end_bounds(s, i + 1);
    }
}

proof fn lemma_line_end(p: Seq<char>, rest: Seq<char>, i: int)
    requires
        0 <= i <= p.len(),
        forall|j: int| 0 <= j < p.len() ==> p[j] != '\n',
    ensures
        line_end(p + rest, i) == p.len() + line_end(rest, 0),
    decreases p.len() + rest.len() - i,
{
    let s = p + rest;
    if i < p.len() {
        lemma_line_end(p, rest, i + 1);
    } else {
        lemma_line_end_shift(rest, p, 0);
    }
}

proof fn lemma_line_end_shift(rest: Seq<char>, p: Seq<char>, j: int)
    requires
        0 <= j <= rest.len(),
    ensures
        line_end(p + rest, p.len() + j) == p.len() + line_end(rest, j),
    decreases rest.len() - j,
{
    if j < rest.len() {
        assert((p + rest)[p.len() + j] == rest[j]);
        if rest[j] != '\n' {
            lemma_line_end_shift(rest, p, j + 1);
        }
    }
}

/// The lines of a text.
pub fn lines_of(cs: &[char]) -> (r: Vec<Vec<char>>)
    ensures
        r@.len() == lines(cs@).len(),
        forall|i: int| 0 <= i < r@.len() ==> #[trigger] r@[i]@ == lines(cs@)[i],
{
    let mut out: Vec<Vec<char>> = Vec::new();
    let mut cur: Vec<char> = Vec::new();
    let ghost done: Seq<Seq<char>> = seq![];
    let mut i: usize = 0;
    assert(cs@.skip(0) =~= cs@);
    assert(cur@ + cs@ =~= cs@);
    assert(done + lines(cs@) =~= lines(cs@));
    while i < cs.len()
        invariant
            i <= cs.len(),
            out@.len() == done.len(),
            forall|t: int| 0 <= t < out@.len() ==> #[trigger] out@[t]@ == done[t],
            forall|j: int| 0 <= j < cur@.len() ==> cur@[j] != '\n',
            lines(cs@) == done + lines(cur@ + cs@.skip(i as int)),
        decreases cs.len() - i,
    {
        let c = cs[i];
        let ghost rest = cs@.skip(i as int);
        let ghost whole = cur@ + rest;
        proof {
            lemma_line_end(cur@, rest, 0);
        }
        if c == '\n' {
            assert(rest[0] == '\n');
            assert(line_end(rest, 0) == 0);
            assert(whole.take(cur@.len() as int) =~= cur@);
            assert(whole.skip(cur@.len() as int + 1) =~= cs@.skip(i + 1));
            assert(Seq::<char>::empty() + cs@.skip(i + 1) =~= cs@.skip(i + 1));
            let mut line = cur;
            if line.len() > 0 && line[line.len() - 1] == '\r' {
                line.pop();
            }
            assert(line@ == strip_cr(whole.take(cur@.len() as int)));
            proof {
                done = done.push(strip_cr(whole.take(cur@.len() as int)));
            }
            out.push(line);
            cur = Vec::new();
        } else {
            assert(whole =~= cur@.push(c) + cs@.skip(i + 1));
            cur.push(c);
        }
        i += 1;
    }
    assert(cs@.skip(i as int) =~= Seq::<char>::empty());
    assert(cur@ + Seq::<char>::empty() =~= cur@);
    if cur.len() > 0 {
        proof {
            lemma_line_end(cur@, Seq::<char>::empty(), 0);
            assert(cur@ + Seq::<char>::empty() =~= cur@);
        }
        proof {
            done = done.push(cur@);
        }
        out.push(cur);
    } else {
        assert(done + lines(cur@) =~= done);
    }
    out
}

/// `char::is_whitespace`: the Unicode `White_Space` property.
pub open spec fn is_white_space(c: char) -> bool {
    ||| ('\t' <= c <= '\r')
    ||| c == ' '
    ||| c == '\u{85}'
    ||| c == '\u{a0}'
    ||| c == '\u{1680}'
    ||| ('\u{2000}' <= c <= '\u{200a}')
    ||| c == '\u{2028}'
    ||| c == '\u{2029}'
    ||| c == '\u{202f}'
    ||| c == '\u{205f}'
    ||| c == '\u{3000}'
}

pub fn white_space(c: char) -> (r: bool)
    ensures
        r == is_white_space(c),
{
    ('\t' <= c && c <= '\r') || c == ' ' || c == '\u{85}' || c == '\u{a0}' || c == '\u{1680}'
        || ('\u{2000}' <= c && c <= '\u{200a}') || c == '\u{2028}' || c == '\u{2029}' || c
        == '\u{202f}' || c == '\u{205f}' || c == '\u{3000}'
}

/// Drops white space at the start.
pub open spec fn trim_start(s: Seq<char>) -> Seq<char>
    decreases s.len(),
{
    if s.len() > 0 && is_white_space(s[0]) {
        trim_start(s.drop_first())
    } else {
        s
    }
}

/// Drops white space at the end.
pub open spec fn trim_end(s: Seq<char>) -> Seq<char>
    decreases s.len(),
{
    if s.len() > 0 && is_white_space(s.last()) {
        trim_end(s.drop_last())
    } else {
        s
    }
}

/// `str::trim`.
pub open spec fn trim(s: Seq<char>) -> Seq<char> {
    trim_end(trim_start(s))
}

/// The text without its line feeds.
pub open spec fn without_line_feeds(s: Seq<char>) -> Seq<char>
    decreases s.len(),
{
    if s.len() == 0 {
        s
    } else if s.last() == '\n' {
        without_line_feeds(s.drop_last())
    } else {
        without_line_feeds(s.drop_last()).push(s.last())
    }
}

/// `str::trim` followed by `replace("\n", "")`.
pub fn trimmed_single_line(cs: &[char]) -> (r: Vec<char>)
    ensures
        r@ == without_line_feeds(trim(cs@)),
{
    let mut a: usize = 0;
    assert(cs@.skip(0) =~= cs@);
    while a < cs.len() && white_space(cs[a])
        invariant
            a <= cs.len(),
            trim_start(cs@) == trim_start(cs@.skip(a as int)),
        decreases cs.len() - a,
    {
        assert(cs@.skip(a as int).drop_first() =~= cs@.skip(a + 1));
        a += 1;
    }
    assert(trim_start(cs@) == cs@.skip(a as int));
    let mut b: usize = cs.len();
    while b > a && white_space(cs[b - 1])
        invariant
            a <= b <= cs.len(),
            trim(cs@) == trim_end(cs@.subrange(a as int, b as int)),
        decreases b,
    {
        assert(cs@.subrange(a as int, b as int).drop_last() =~= cs@.subrange(a as int, b - 1));
        b -= 1;
    }
    assert(trim(cs@) =~= cs@.subrange(a as int, b as int));
    let ghost t = cs@.subrange(a as int, b as int);
    let mut r: Vec<char> = Vec::new();
    let mut i = a;
    while i < b
        invariant
            a <= i <= b <= cs.len(),
            t == cs@.subrange(a as int, b as int),
            r@ == without_line_feeds(t.take(i - a)),
        decreases b - i,
    {
        proof {
            assert(t.take(i - a + 1).drop_last() =~= t.take(i - a));
        }
        if cs[i] != '\n' {
            r.push(cs[i]);
        }
        i += 1;
    }
    assert(t.take(b - a) =~= t);
    r
}

} // verus!

verus! {

// ---------------------------------------------------------------------------
// UTF-8 of string literals
// ---------------------------------------------------------------------------

/// Bytes that hold no byte equal to `a` keep their place in front of what
/// follows when pairs starting with `a` are replaced.
proof fn lemma_replace_pair_prefix(x: Seq<u8>, y: Seq<u8>, a: u8, b: u8, r: u8)
    requires
        forall|i: int| 0 <= i < x.len() ==> x[i] != a,
    ensures
        replace_pair(x + y, a, b, r) == x + replace_pair(y, a, b, r),
    decreases x.len(),
{
    if x.len() > 0 {
        assert((x + y)[0] == x[0]);
        assert((x + y).drop_first() =~= x.drop_first() + y);
        lemma_replace_pair_prefix(x.drop_first(), y, a, b, r);
        assert(seq![x[0]] + (x.drop_first() + replace_pair(y, a, b, r)) =~= x + replace_pair(
            y,
            a,
            b,
            r,
        ));
    } else {
        assert(x + y =~= y);
        assert(x + replace_pair(y, a, b, r) =~= replace_pair(y, a, b, r));
    }
}

/// Replacing pairs of ASCII bytes by an ASCII byte keeps UTF-8 valid.
pub proof fn lemma_replace_pair_valid(s: Seq<u8>, a: u8, b: u8, r: u8)
    requires
        valid_utf8(s),
        a < 128,
        b < 128,
        r < 128,
    ensures
        valid_utf8(replace_pair(s, a, b, r)),
    decreases s.len(),
{
    broadcast use valid_utf8_concat;

    if s.len() > 0 {
        let k = length_of_first_scalar(s);
        let rest = pop_first_scalar(s);
        assert(valid_utf8(rest));
        if s[0] < 128 {
            assert(k == 1);
            assert(rest =~= s.drop_first());
            assert(valid_utf8(seq![r])) by {
                reveal_with_fuel(valid_utf8, 2);
            }
            assert(valid_utf8(seq![s[0]])) by {
                reveal_with_fuel(valid_utf8, 2);
            }
            if s.len() >= 2 && s[0] == a && s[1] == b {
                assert(valid_utf8(rest.drop_first())) by {
                    reveal_with_fuel(valid_utf8, 2);
                    assert(pop_first_scalar(rest) =~= rest.drop_first());
                }
                assert(rest.drop_first() =~= s.skip(2));
                lemma_replace_pair_valid(s.skip(2), a, b, r);
            } else {
                lemma_replace_pair_valid(s.drop_first(), a, b, r);
            }
        } else {
            let x = s.subrange(0, k);
            assert(forall|i: int| 0 <= i < x.len() ==> x[i] >= 128);
            assert(s =~= x + rest);
            lemma_replace_pair_prefix(x, rest, a, b, r);
            assert(is_char_boundary(s, k)) by {
                reveal_with_fuel(is_char_boundary, 2);
                assert(k <= s.len());
            }
            valid_utf8_split(s, k);
            lemma_replace_pair_valid(rest, a, b, r);
        }
    }
}

/// The bytes between two double quotes of valid UTF-8 are valid UTF-8.
pub proof fn lemma_quoted_valid(src: Seq<u8>, start: int, end: int)
    requires
        valid_utf8(src),
        0 <= start,
        start + 2 <= end <= src.len(),
        src[start] == 34,
        src[end - 1] == 34,
    ensures
        valid_utf8(src.subrange(start + 1, end - 1)),
{
    is_char_boundary_iff_not_is_continuation_byte(src, start);
    valid_utf8_split(src, start);
    let tail = src.subrange(start, src.len() as int);
    assert(tail[0] == 34);
    assert(length_of_first_scalar(tail) == 1);
    let t1 = pop_first_scalar(tail);
    assert(t1 =~= src.subrange(start + 1, src.len() as int));
    let i = end - 1 - (start + 1);
    assert(t1[i] == 34);
    is_char_boundary_iff_not_is_continuation_byte(t1, i);
    valid_utf8_split(t1, i);
    assert(t1.subrange(0, i) =~= src.subrange(start + 1, end - 1));
}

/// The text of a string literal of valid UTF-8 is valid UTF-8.
pub proof fn lemma_unescape_valid(s: Seq<u8>)
    requires
        valid_utf8(s),
    ensures
        valid_utf8(unescape(s)),
{
    lemma_replace_pair_valid(s, 92, 110, 10);
    lemma_replace_pair_valid(replace_pair(s, 92, 110, 10), 92, 34, 34);
}

} // verus!

verus! {

// ---------------------------------------------------------------------------
// What unescaping does
// ---------------------------------------------------------------------------

/// `x` holds no backslash.
pub open spec fn no_backslash(x: Seq<u8>) -> bool {
    forall|i: int| 0 <= i < x.len() ==> x[i] != 92
}

/// Text without a backslash is left as it is.
pub proof fn lemma_unescape_plain(x: Seq<u8>)
    requires
        no_backslash(x),
    ensures
        unescape(x) == x,
{
    lemma_replace_pair_prefix(x, Seq::empty(), 92, 110, 10);
    assert(x + Seq::<u8>::empty() =~= x);
    lemma_replace_pair_prefix(x, Seq::empty(), 92, 34, 34);
}

/// The escape `\n` (backslash, `n`) becomes one line feed (byte 10); the
/// text before it, which holds no backslash, is kept, and the text after it
/// is unescaped in turn.
pub proof fn lemma_unescape_line_feed(x: Seq<u8>, y: Seq<u8>)
    requires
        no_backslash(x),
    ensures
        unescape(x + seq![92u8, 110u8] + y) == x + seq![10u8] + unescape(y),
{
    let s = x + seq![92u8, 110u8] + y;
    let t = seq![92u8, 110u8] + y;
    assert(s =~= x + t);
    lemma_replace_pair_prefix(x, t, 92, 110, 10);
    assert(t.skip(2) =~= y);
    let r1 = replace_pair(y, 92, 110, 10);
    assert(replace_pair(t, 92, 110, 10) == seq![10u8] + r1);
    let u = seq![10u8] + r1;
    assert(x + u =~= (x + seq![10u8]) + r1);
    assert forall|i: int| 0 <= i < (x + seq![10u8]).len() implies (x + seq![10u8])[i] != 92 by {
        if i < x.len() {
            assert((x + seq![10u8])[i] == x[i]);
        }
    }
    lemma_replace_pair_prefix(x + seq![10u8], r1, 92, 34, 34);
}

/// The escape `\"` (backslash, double quote) becomes one double quote (byte
/// 34); the text before it, which holds no backslash, is kept, and the text
/// after it is unescaped in turn.
pub proof fn lemma_unescape_quote(x: Seq<u8>, y: Seq<u8>)
    requires
        no_backslash(x),
    ensures
        unescape(x + seq![92u8, 34u8] + y) == x + seq![34u8] + unescape(y),
{
    let s = x + seq![92u8, 34u8] + y;
    let t = seq![92u8, 34u8] + y;
    assert(s =~= x + t);
    lemma_replace_pair_prefix(x, t, 92, 110, 10);
    let t1 = t.drop_first();
    assert(t1 =~= seq![34u8] + y);
    assert(t1.drop_first() =~= y);
    let r1 = replace_pair(y, 92, 110, 10);
    assert(replace_pair(t1, 92, 110, 10) == seq![34u8] + r1);
    assert(replace_pair(t, 92, 110, 10) == seq![92u8] + (seq![34u8] + r1));
    let v = seq![92u8, 34u8] + r1;
    assert(x + (seq![92u8] + (seq![34u8] + r1)) =~= x + v);
    lemma_replace_pair_prefix(x, v, 92, 34, 34);
    assert(v.skip(2) =~= r1);
    assert(replace_pair(v, 92, 34, 34) == seq![34u8] + replace_pair(r1, 92, 34, 34));
    assert(x + (seq![34u8] + replace_pair(r1, 92, 34, 34)) =~= x + seq![34u8] + replace_pair(
        r1,
        92,
        34,
        34,
    ));
}

} // verus!

verus! {

// ---------------------------------------------------------------------------
// What splitting into lines does
// ---------------------------------------------------------------------------

/// `a` holds no line feed.
pub open spec fn no_line_feed(a: Seq<char>) -> bool {
    forall|i: int| 0 <= i < a.len() ==> a[i] != '\n'
}

/// A text is split at each line feed: a text without one is a single line;
/// a line ended by `\n` or by `\r\n` is kept without its ending, and the
/// lines after it follow.
pub proof fn lemma_lines_split(a: Seq<char>, b: Seq<char>)
    requires
        no_line_feed(a),
    ensures
        a.len() > 0 ==> lines(a) == seq![a],
        (a.len() == 0 || a.last() != '\r') ==> lines(a + seq!['\n'] + b) == seq![a] + lines(b),
        lines(a + seq!['\r', '\n'] + b) == seq![a] + lines(b),
{
    lemma_line_end(a, Seq::empty(), 0);
    assert(a + Seq::<char>::empty() =~= a);
    let s1 = a + seq!['\n'] + b;
    let t1 = seq!['\n'] + b;
    assert(s1 =~= a + t1);
    lemma_line_end(a, t1, 0);
    assert(line_end(t1, 0) == 0);
    assert(s1.take(a.len() as int) =~= a);
    assert(s1.skip(a.len() + 1int) =~= b);
    let a2 = a.push('\r');
    assert forall|i: int| 0 <= i < a2.len() implies a2[i] != '\n' by {
        if i < a.len() {
            assert(a2[i] == a[i]);
        }
    }
    let s2 = a + seq!['\r', '\n'] + b;
    assert(s2 =~= a2 + t1);
    lemma_line_end(a2, t1, 0);
    assert(s2.take(a2.len() as int) =~= a2);
    assert(s2.skip(a2.len() + 1int) =~= b);
    assert(a2.drop_last() =~= a);
}

} // verus!

verus! {

// ---------------------------------------------------------------------------
// What trimming does
// ---------------------------------------------------------------------------

proof fn lemma_trim_start(s: Seq<char>)
    ensures
        trim_start(s).len() <= s.len(),
        trim_start(s) == s.skip(s.len() - trim_start(s).len()),
        trim_start(s).len() > 0 ==> !is_white_space(trim_start(s)[0]),
        forall|i: int| 0 <= i < s.len() - trim_start(s).len() ==> is_white_space(#[trigger] s[i]),
    decreases s.len(),
{
    if s.len() > 0 && is_white_space(s[0]) {
        lemma_trim_start(s.drop_first());
        let t = trim_start(s.drop_first());
        assert(s.drop_first().skip(s.drop_first().len() - t.len()) =~= s.skip(s.len() - t.len()));
        assert forall|i: int| 0 <= i < s.len() - t.len() implies is_white_space(#[trigger] s[i]) by {
            if i > 0 {
                assert(s[i] == s.drop_first()[i - 1]);
            }
        }
    } else {
        assert(s.skip(0) =~= s);
    }
}

proof fn lemma_trim_end(s: Seq<char>)
    ensures
        trim_end(s).len() <= s.len(),
        trim_end(s) == s.take(trim_end(s).len() as int),
        trim_end(s).len() > 0 ==> !is_white_space(trim_end(s).last()),
        forall|i: int| trim_end(s).len() <= i < s.len() ==> is_white_space(#[trigger] s[i]),
    decreases s.len(),
{
    if s.len() > 0 && is_white_space(s.last()) {
        lemma_trim_end(s.drop_last());
        let t = trim_end(s.drop_last());
        assert(s.drop_last().take(t.len() as int) =~= s.take(t.len() as int));
        assert forall|i: int| t.len() <= i < s.len() implies is_white_space(#[trigger] s[i]) by {
            if i < s.len() - 1 {
                assert(s[i] == s.drop_last()[i]);
            }
        }
    } else {
        assert(s.take(s.len() as int) =~= s);
    }
}

/// Trimming removes white space from both ends and nothing else: the result
/// is a run of the text that neither starts nor ends with white space, all
/// that was cut off is white space, and a text without white space at its
/// ends is left as it is. The result is where the trimmed text starts.
pub proof fn lemma_trim(s: Seq<char>) -> (i: int)
    ensures
        0 <= i,
        i + trim(s).len() <= s.len(),
        trim(s) == s.subrange(i, i + trim(s).len()),
        forall|j: int| 0 <= j < i ==> is_white_space(#[trigger] s[j]),
        forall|j: int| i + trim(s).len() <= j < s.len() ==> is_white_space(#[trigger] s[j]),
        trim(s).len() > 0 ==> !is_white_space(trim(s)[0]) && !is_white_space(trim(s).last()),
        s.len() == 0 || (!is_white_space(s[0]) && !is_white_space(s.last())) ==> trim(s) == s,
{
    lemma_trim_start(s);
    let a = trim_start(s);
    lemma_trim_end(a);
    let t = trim_end(a);
    let i = s.len() - a.len();
    assert(t =~= s.subrange(i, i + t.len()));
    if t.len() > 0 {
        assert(t[0] == a[0]);
    }
    assert forall|j: int| i + t.len() <= j < s.len() implies is_white_space(#[trigger] s[j]) by {
        assert(s[j] == a[j - i]);
    }
    if s.len() > 0 && !is_white_space(s[0]) && !is_white_space(s.last()) {
        assert(a == s);
        assert(t == s);
    }
    i
}

} // verus!

verus! {

// ---------------------------------------------------------------------------
// Printing and reading numbers back
// ---------------------------------------------------------------------------

/// The bytes of ASCII text.
pub open spec fn ascii_bytes(s: Seq<char>) -> Seq<u8> {
    s.map_values(|c: char| c as u8)
}

proof fn lemma_decimal_digits(n: nat)
    ensures
        decimal(n).len() > 0,
        all_digits(ascii_bytes(decimal(n))),
        digits_value(ascii_bytes(decimal(n))) == n,
    decreases n,
{
    let d = (n % 10) as nat;
    assert(digit_char(d) as u8 == d + 48);
    if n >= 10 {
        lemma_decimal_digits(n / 10);
        let p = ascii_bytes(decimal(n / 10));
        assert(ascii_bytes(decimal(n)) =~= p.push(digit_char(d) as u8));
        let s = ascii_bytes(decimal(n));
        assert(s.drop_last() =~= p);
        assert(s.last() == d + 48);
        assert(n == (n / 10) * 10 + d);
        assert(digits_value(s) == digits_value(p) * 10 + d);
        assert forall|i: int| 0 <= i < s.len() implies is_digit_byte(#[trigger] s[i]) by {
            if i < p.len() {
                assert(s[i] == p[i]);
            }
        }
    } else {
        let s = ascii_bytes(decimal(n));
        assert(s =~= seq![digit_char(d) as u8]);
        assert(s.drop_last() =~= Seq::<u8>::empty());
        assert(s.last() == d + 48);
        assert(digits_value(s) == digits_value(s.drop_last()) * 10 + d);
    }
}

/// A number printed in decimal reads back as the same number.
pub proof fn lemma_decimal_reads_back(n: u32)
    ensures
        parse_u32(ascii_bytes(decimal(n as nat))) == Some(n),
{
    lemma_decimal_digits(n as nat);
    let s = ascii_bytes(decimal(n as nat));
    assert(is_digit_byte(s[0]));
}

} // verus!
