//! Four-byte big-endian words, the unit of the byte code.
use vstd::prelude::*;

verus! {

/// The value of four bytes read as a big-endian number.
pub open spec fn word_value(b: Seq<u8>) -> u32 {
    (b[0] as int * 16777216 + b[1] as int * 65536 + b[2] as int * 256 + b[3] as int) as u32
}

/// The four big-endian bytes of a number.
pub open spec fn word_bytes(v: u32) -> Seq<u8> {
    seq![(v / 16777216) as u8, (v / 65536 % 256) as u8, (v / 256 % 256) as u8, (v % 256) as u8]
}

/// `u32::from_be_bytes`.
pub fn from_be_bytes(b: [u8; 4]) -> (v: u32)
    ensures
        v == word_value(b@),
{
    (b[0] as u32) * 16777216 + (b[1] as u32) * 65536 + (b[2] as u32) * 256 + (b[3] as u32)
}

/// `u32::to_be_bytes`.
pub fn to_be_bytes(v: u32) -> (b: [u8; 4])
    ensures
        b@ == word_bytes(v),
{
    let b = [(v / 16777216) as u8, (v / 65536 % 256) as u8, (v / 256 % 256) as u8, (v % 256) as u8];
    assert(b@ =~= word_bytes(v));
    b
}

/// Reading back the bytes of a number gives the number.
pub proof fn lemma_word_roundtrip(v: u32)
    ensures
        word_value(word_bytes(v)) == v,
        word_bytes(v).len() == 4,
{
    let x = v as int;
    let a = x / 16777216;
    let b = x / 65536 % 256;
    let c = x / 256 % 256;
    let d = x % 256;
    assert(a * 16777216 + b * 65536 + c * 256 + d == x) by (nonlinear_arith)
        requires
            0 <= x,
            a == x / 16777216,
            b == x / 65536 % 256,
            c == x / 256 % 256,
            d == x % 256,
    {
        assert(x == (x / 256) * 256 + x % 256);
        assert(x / 256 == (x / 65536) * 256 + (x / 256) % 256);
        assert(x / 65536 == (x / 16777216) * 256 + (x / 65536) % 256);
    }
    assert(a < 256) by (nonlinear_arith)
        requires
            0 <= x < 4294967296,
            a == x / 16777216,
    ;
}

/// Writing the value of four bytes gives the bytes back.
pub proof fn lemma_bytes_roundtrip(b: Seq<u8>)
    requires
        b.len() == 4,
    ensures
        word_bytes(word_value(b)) =~= b,
{
    let (b0, b1, b2, b3) = (b[0] as int, b[1] as int, b[2] as int, b[3] as int);
    let v = b0 * 16777216 + b1 * 65536 + b2 * 256 + b3;
    assert(0 <= v <= u32::MAX);
    assert(v / 16777216 == b0) by (nonlinear_arith)
        requires v == b0 * 16777216 + b1 * 65536 + b2 * 256 + b3, 0 <= b0 < 256, 0 <= b1 < 256, 0 <= b2 < 256, 0 <= b3 < 256;
    assert(v / 65536 % 256 == b1) by (nonlinear_arith)
        requires v == b0 * 16777216 + b1 * 65536 + b2 * 256 + b3, 0 <= b0 < 256, 0 <= b1 < 256, 0 <= b2 < 256, 0 <= b3 < 256;
    assert(v / 256 % 256 == b2) by (nonlinear_arith)
        requires v == b0 * 16777216 + b1 * 65536 + b2 * 256 + b3, 0 <= b0 < 256, 0 <= b1 < 256, 0 <= b2 < 256, 0 <= b3 < 256;
    assert(v % 256 == b3) by (nonlinear_arith)
        requires v == b0 * 16777216 + b1 * 65536 + b2 * 256 + b3, 0 <= b0 < 256, 0 <= b1 < 256, 0 <= b2 < 256, 0 <= b3 < 256;
}

} // verus!
