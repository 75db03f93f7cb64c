//! The types that a payload can be read as without conversion.

use crate::float::{read_word_le, word_le};
use vstd::prelude::*;

verus! {

/// A type of sample that a payload can be read as, bytes taken as they
/// lie. The library has it for `u8`, the sample of a byte encoding, and for
/// `u32`, which holds the 32 bits of a single-precision number.
pub trait Sample: Sized {
    /// The number of bytes that one sample takes.
    spec fn spec_width() -> usize;

    /// The sample that the first `spec_width()` bytes of `bytes` hold.
    spec fn spec_from_raw(bytes: Seq<u8>) -> Self;

    /// The number of bytes that one sample takes: at least one.
    fn width() -> (w: usize)
        ensures
            w == Self::spec_width(),
            w > 0,
    ;

    /// The sample at the start of `bytes`.
    fn from_raw(bytes: &[u8]) -> (v: Self)
        requires
            bytes@.len() >= Self::spec_width(),
        ensures
            v == Self::spec_from_raw(bytes@),
    ;
}

/// A byte is read as it is.
impl Sample for u8 {
    open spec fn spec_width() -> usize {
        1
    }

    open spec fn spec_from_raw(bytes: Seq<u8>) -> u8 {
        bytes[0]
    }

    fn width() -> (w: usize) {
        1
    }

    fn from_raw(bytes: &[u8]) -> (v: u8) {
        bytes[0]
    }
}

/// A word of 32 bits, such as the bits of a single-precision number, is
/// read lowest byte first.
impl Sample for u32 {
    open spec fn spec_width() -> usize {
        4
    }

    open spec fn spec_from_raw(bytes: Seq<u8>) -> u32 {
        word_le(bytes)
    }

    fn width() -> (w: usize) {
        4
    }

    fn from_raw(bytes: &[u8]) -> (v: u32) {
        read_word_le(bytes)
    }
}

} // verus!
