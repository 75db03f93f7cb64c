//! Single-precision numbers as their 32 bits, and the bytes that hold them.
//!
//! A sample is handed out as the 32-bit word of its single-precision
//! encoding: one sign bit, eight bits of exponent, 23 bits of fraction.

use vstd::arithmetic::power2::{lemma2_to64, lemma_pow2_strictly_increases, lemma_pow2_unfold, pow2};
use vstd::prelude::*;

verus! {

/// The word whose four bytes, lowest first, are those at the start of `b`.
pub open spec fn word_le(b: Seq<u8>) -> u32
    recommends
        b.len() >= 4,
{
    (b[0] + 0x100 * b[1] + 0x1_0000 * b[2] + 0x100_0000 * b[3]) as u32
}

/// The word whose four bytes, highest first, are those at the start of `b`:
/// the bytes are taken in reverse.
pub open spec fn word_be(b: Seq<u8>) -> u32
    recommends
        b.len() >= 4,
{
    word_le(seq![b[3], b[2], b[1], b[0]])
}

/// The four bytes of a word, lowest first.
pub open spec fn le_bytes(w: u32) -> Seq<u8> {
    seq![
        (w % 0x100) as u8,
        (w / 0x100 % 0x100) as u8,
        (w / 0x1_0000 % 0x100) as u8,
        (w / 0x100_0000) as u8,
    ]
}

/// The exponent field of a single-precision word.
pub open spec fn exponent(bits: u32) -> int {
    ((bits / 0x80_0000) % 0x100) as int
}

/// The fraction field of a single-precision word.
pub open spec fn fraction(bits: u32) -> int {
    (bits % 0x80_0000) as int
}

/// Whether `bits` is the single-precision number equal to the whole number
/// `n`. Zero is the word of zeros. A positive word with exponent field `e`
/// (not below the bias 127) and fraction field `f` is the number
/// `(2^23 + f) / 2^(150 - e)`.
pub open spec fn is_float_of(bits: u32, n: nat) -> bool {
    if n == 0 {
        bits == 0
    } else {
        &&& bits < 0x8000_0000
        &&& 127 <= exponent(bits) <= 150
        &&& 0x80_0000 + fraction(bits) == n * pow2((150 - exponent(bits)) as nat)
    }
}

/// The single-precision number equal to the whole number `n`, for an `n`
/// that has one: see [`float_of_is`].
pub open spec fn float_of(n: nat) -> u32 {
    choose|bits: u32| is_float_of(bits, n)
}

/// Reads a word from four bytes, lowest first.
pub fn read_word_le(b: &[u8]) -> (w: u32)
    requires
        b@.len() >= 4,
    ensures
        w == word_le(b@),
{
    let b0: u32 = b[0] as u32;
    let b1: u32 = b[1] as u32;
    let b2: u32 = b[2] as u32;
    let b3: u32 = b[3] as u32;
    b0 + 0x100 * b1 + 0x1_0000 * b2 + 0x100_0000 * b3
}

/// Reads a word from four bytes, highest first.
pub fn read_word_be(b: &[u8]) -> (w: u32)
    requires
        b@.len() >= 4,
    ensures
        w == word_be(b@),
{
    let b0: u32 = b[0] as u32;
    let b1: u32 = b[1] as u32;
    let b2: u32 = b[2] as u32;
    let b3: u32 = b[3] as u32;
    b3 + 0x100 * b2 + 0x1_0000 * b1 + 0x100_0000 * b0
}

/// Appends the four bytes of `w` to `out`, lowest first.
pub fn push_word_le(out: &mut Vec<u8>, w: u32)
    ensures
        final(out)@ == old(out)@ + le_bytes(w),
{
    out.push((w % 0x100) as u8);
    out.push((w / 0x100 % 0x100) as u8);
    out.push((w / 0x1_0000 % 0x100) as u8);
    out.push((w / 0x100_0000) as u8);
    assert(final(out)@ =~= old(out)@ + le_bytes(w));
}

/// The single-precision number equal to a byte's value.
pub fn float_of_byte(b: u8) -> (bits: u32)
    ensures
        is_float_of(bits, b as nat),
        bits == float_of(b as nat),
{
    if b == 0 {
        proof {
            float_of_is(0, 0);
        }
        return 0;
    }
    let mut m: u32 = b as u32;
    let mut e: u32 = 150;
    proof {
        lemma2_to64();
        assert(b * pow2(0) == b);
    }
    while m < 0x80_0000
        invariant
            1 <= b,
            127 <= e <= 150,
            0 < m < 0x100_0000,
            m == b * pow2((150 - e) as nat),
            pow2(23) == 0x80_0000,
        decreases e,
    {
        proof {
            let k = (150 - e) as nat;
            lemma_pow2_unfold(k + 1);
            assert(b * pow2(k + 1) == 2 * (b * pow2(k))) by (nonlinear_arith)
                requires
                    pow2(k + 1) == 2 * pow2(k),
            ;
            assert(pow2(k) <= m) by (nonlinear_arith)
                requires
                    m == b * pow2(k),
                    1 <= b,
                    pow2(k) > 0,
            ;
            if k >= 23 {
                if k > 23 {
                    lemma_pow2_strictly_increases(23, k);
                }
            }
        }
        m = m * 2;
        e = e - 1;
    }
    let bits: u32 = e * 0x80_0000 + (m - 0x80_0000);
    proof {
        float_of_is(bits, b as nat);
    }
    bits
}

/// Writing a word and reading it back gives the word.
pub proof fn word_of_le_bytes(w: u32)
    ensures
        word_le(le_bytes(w)) == w,
{
}

/// The bytes of the word read from four bytes are those bytes.
pub proof fn le_bytes_of_word(b: Seq<u8>)
    requires
        b.len() == 4,
    ensures
        le_bytes(word_le(b)) == b,
{
    let w = word_le(b);
    let b0 = b[0] as int;
    let b1 = b[1] as int;
    let b2 = b[2] as int;
    let b3 = b[3] as int;
    assert(w == b0 + 0x100 * (b1 + 0x100 * (b2 + 0x100 * b3)));
    assert(w % 0x100 == b0);
    assert(w / 0x100 == b1 + 0x100 * (b2 + 0x100 * b3));
    assert(w / 0x100 % 0x100 == b1);
    assert(w / 0x1_0000 == b2 + 0x100 * b3);
    assert(w / 0x1_0000 % 0x100 == b2);
    assert(w / 0x100_0000 == b3);
    assert(le_bytes(w) =~= b);
}

/// A word that is the single-precision number equal to `n` is
/// `float_of(n)`.
pub proof fn float_of_is(bits: u32, n: nat)
    requires
        is_float_of(bits, n),
    ensures
        bits == float_of(n),
{
    float_of_is_unique(bits, float_of(n), n);
}

/// At most one word is the single-precision number equal to `n`.
pub proof fn float_of_is_unique(a: u32, b: u32, n: nat)
    requires
        is_float_of(a, n),
        is_float_of(b, n),
    ensures
        a == b,
{
    if n > 0 {
        let ka = (150 - exponent(a)) as nat;
        let kb = (150 - exponent(b)) as nat;
        if ka < kb {
            scaled_apart(n, ka, kb);
        }
        if kb < ka {
            scaled_apart(n, kb, ka);
        }
    }
}

/// Scaling a positive number by a higher power of two at least doubles it.
proof fn scaled_apart(n: nat, lo: nat, hi: nat)
    requires
        n > 0,
        lo < hi,
    ensures
        n * pow2(hi) >= 2 * (n * pow2(lo)),
{
    lemma_pow2_unfold(lo + 1);
    if lo + 1 < hi {
        lemma_pow2_strictly_increases(lo + 1, hi);
    }
    assert(n * pow2(hi) >= 2 * (n * pow2(lo))) by (nonlinear_arith)
        requires
            pow2(hi) >= 2 * pow2(lo),
            n > 0,
    ;
}

} // verus!
