//! The fixed-width big-endian form of a 64-bit signed integer.

use vstd::arithmetic::div_mod::{
    lemma_div_denominator, lemma_fundamental_div_mod, lemma_fundamental_div_mod_converse_div,
    lemma_fundamental_div_mod_converse_mod,
};
use vstd::prelude::*;

verus! {

/// The number of bytes in the big-endian form of an `i64`.
pub const WORD_LEN: usize = 8;

/// The two's-complement reading of `x`: the natural number below 2^64 that
/// has the same 64 bits.
pub open spec fn unsigned_of(x: i64) -> int {
    if x < 0 {
        x + 0x1_0000_0000_0000_0000
    } else {
        x as int
    }
}

/// The signed integer whose two's-complement reading is `u`.
pub open spec fn signed_of(u: int) -> i64
    recommends
        0 <= u < 0x1_0000_0000_0000_0000,
{
    if u >= 0x8000_0000_0000_0000 {
        (u - 0x1_0000_0000_0000_0000) as i64
    } else {
        u as i64
    }
}

/// The number that eight bytes spell, most significant byte first.
pub open spec fn be_word(s: Seq<u8>) -> int
    recommends
        s.len() == WORD_LEN,
{
    s[0] * 0x100_0000_0000_0000 + s[1] * 0x1_0000_0000_0000 + s[2] * 0x100_0000_0000 + s[3]
        * 0x1_0000_0000 + s[4] * 0x100_0000 + s[5] * 0x1_0000 + s[6] * 0x100 + s[7]
}

/// The eight bytes of `x`, most significant first.
pub open spec fn be_bytes(x: i64) -> Seq<u8> {
    let u = unsigned_of(x);
    seq![
        (u / 0x100_0000_0000_0000) as u8,
        (u / 0x1_0000_0000_0000 % 0x100) as u8,
        (u / 0x100_0000_0000 % 0x100) as u8,
        (u / 0x1_0000_0000 % 0x100) as u8,
        (u / 0x100_0000 % 0x100) as u8,
        (u / 0x1_0000 % 0x100) as u8,
        (u / 0x100 % 0x100) as u8,
        (u % 0x100) as u8,
    ]
}

/// The integer that eight bytes stand for, most significant byte first.
pub open spec fn be_value(s: Seq<u8>) -> i64
    recommends
        s.len() == WORD_LEN,
{
    signed_of(be_word(s))
}

/// The byte of `u` that stands above the factor `lo` is what is left of
/// `u / lo` once everything from the next byte up is taken away.
proof fn lemma_byte_at(u: int, lo: int)
    requires
        0 <= u,
        0 < lo,
    ensures
        0 <= u / lo % 0x100 < 0x100,
        u / lo % 0x100 == u / lo - 0x100 * (u / (lo * 0x100)),
{
    lemma_fundamental_div_mod(u / lo, 0x100);
    lemma_div_denominator(u, lo, 0x100);
}

/// Where `u` is `hi * lo + rest` with `rest` below `lo` and `hi` ending in the
/// byte `b`, that byte is the one of `u` that stands above the factor `lo`.
proof fn lemma_byte_found(u: int, lo: int, hi: int, rest: int, above: int, b: int)
    requires
        0 < lo,
        0 <= rest < lo,
        u == hi * lo + rest,
        0 <= b < 0x100,
        hi == above * 0x100 + b,
    ensures
        u / lo == hi,
        u / lo % 0x100 == b,
{
    lemma_fundamental_div_mod_converse_div(u, lo, hi, rest);
    lemma_fundamental_div_mod_converse_mod(hi, 0x100, above, b);
}

/// Reading back the bytes of an integer gives the integer.
pub proof fn lemma_be_value_of_bytes(x: i64)
    ensures
        be_bytes(x).len() == WORD_LEN,
        be_word(be_bytes(x)) == unsigned_of(x),
        be_value(be_bytes(x)) == x,
{
    let u = unsigned_of(x);
    lemma_byte_at(u, 1);
    lemma_byte_at(u, 0x100);
    lemma_byte_at(u, 0x1_0000);
    lemma_byte_at(u, 0x100_0000);
    lemma_byte_at(u, 0x1_0000_0000);
    lemma_byte_at(u, 0x100_0000_0000);
    lemma_byte_at(u, 0x1_0000_0000_0000);
    assert(0 <= u / 0x100_0000_0000_0000 < 0x100);
    assert(u / 1 == u);
    assert(u / 1 % 0x100 == u % 0x100);
    let s = be_bytes(x);
    assert(s[0] == u / 0x100_0000_0000_0000);
    assert(s[1] == u / 0x1_0000_0000_0000 - 0x100 * (u / 0x100_0000_0000_0000));
    assert(s[2] == u / 0x100_0000_0000 - 0x100 * (u / 0x1_0000_0000_0000));
    assert(s[3] == u / 0x1_0000_0000 - 0x100 * (u / 0x100_0000_0000));
    assert(s[4] == u / 0x100_0000 - 0x100 * (u / 0x1_0000_0000));
    assert(s[5] == u / 0x1_0000 - 0x100 * (u / 0x100_0000));
    assert(s[6] == u / 0x100 - 0x100 * (u / 0x1_0000));
    assert(s[7] == u - 0x100 * (u / 0x100));
    assert(be_word(s) == u);
}

/// Writing out the integer that eight bytes stand for gives those bytes.
pub proof fn lemma_be_bytes_of_value(s: Seq<u8>)
    requires
        s.len() == WORD_LEN,
    ensures
        0 <= be_word(s) < 0x1_0000_0000_0000_0000,
        unsigned_of(be_value(s)) == be_word(s),
        be_bytes(be_value(s)) == s,
{
    let w = be_word(s);
    let h0: int = s[0] as int;
    let h1: int = h0 * 0x100 + s[1];
    let h2: int = h1 * 0x100 + s[2];
    let h3: int = h2 * 0x100 + s[3];
    let h4: int = h3 * 0x100 + s[4];
    let h5: int = h4 * 0x100 + s[5];
    let h6: int = h5 * 0x100 + s[6];
    let h7: int = h6 * 0x100 + s[7];
    assert(w == h7);
    let u = unsigned_of(be_value(s));
    assert(u == w);
    lemma_byte_found(w, 0x100_0000_0000_0000, h0, w - h0 * 0x100_0000_0000_0000, 0, h0);
    lemma_byte_found(w, 0x1_0000_0000_0000, h1, w - h1 * 0x1_0000_0000_0000, h0, s[1] as int);
    lemma_byte_found(w, 0x100_0000_0000, h2, w - h2 * 0x100_0000_0000, h1, s[2] as int);
    lemma_byte_found(w, 0x1_0000_0000, h3, w - h3 * 0x1_0000_0000, h2, s[3] as int);
    lemma_byte_found(w, 0x100_0000, h4, w - h4 * 0x100_0000, h3, s[4] as int);
    lemma_byte_found(w, 0x1_0000, h5, w - h5 * 0x1_0000, h4, s[5] as int);
    lemma_byte_found(w, 0x100, h6, w - h6 * 0x100, h5, s[6] as int);
    lemma_byte_found(w, 1, h7, 0, h6, s[7] as int);
    assert(w / 1 % 0x100 == w % 0x100);
    assert(be_bytes(be_value(s)) =~= s);
}

/// Two integers with the same bytes are the same integer.
pub proof fn lemma_be_bytes_injective(x: i64, y: i64)
    requires
        be_bytes(x) == be_bytes(y),
    ensures
        x == y,
{
    lemma_be_value_of_bytes(x);
    lemma_be_value_of_bytes(y);
}

/// Writes `x` as eight bytes, most significant first.
pub fn i64_to_be_bytes(x: i64) -> (bytes: [u8; 8])
    ensures
        bytes@ == be_bytes(x),
{
    let u: u64 = if x < 0 {
        ((x - i64::MIN) as u64) + 0x8000_0000_0000_0000
    } else {
        x as u64
    };
    let bytes: [u8; 8] = [
        (u / 0x100_0000_0000_0000) as u8,
        (u / 0x1_0000_0000_0000 % 0x100) as u8,
        (u / 0x100_0000_0000 % 0x100) as u8,
        (u / 0x1_0000_0000 % 0x100) as u8,
        (u / 0x100_0000 % 0x100) as u8,
        (u / 0x1_0000 % 0x100) as u8,
        (u / 0x100 % 0x100) as u8,
        (u % 0x100) as u8,
    ];
    assert(bytes@ =~= be_bytes(x));
    bytes
}

/// Reads eight bytes, most significant first, as an integer.
pub fn i64_from_be_bytes(bytes: &[u8; 8]) -> (x: i64)
    ensures
        x == be_value(bytes@),
{
    let u: u64 = (bytes[0] as u64) * 0x100_0000_0000_0000 + (bytes[1] as u64) * 0x1_0000_0000_0000
        + (bytes[2] as u64) * 0x100_0000_0000 + (bytes[3] as u64) * 0x1_0000_0000 + (bytes[4] as u64)
        * 0x100_0000 + (bytes[5] as u64) * 0x1_0000 + (bytes[6] as u64) * 0x100 + (bytes[7] as u64);
    if u >= 0x8000_0000_0000_0000 {
        ((u - 0x8000_0000_0000_0000) as i64) + i64::MIN
    } else {
        u as i64
    }
}

} // verus!
