//! How the samples of a payload are laid down in bytes.

use crate::error::Error;
use crate::float::{
    float_of, float_of_byte, is_float_of, read_word_be, read_word_le, word_be, word_le,
};
use crate::text::{bytes_eq, same_text_same_bytes};
use vstd::prelude::*;
use vstd::string::StringSliceAdditionalSpecFns;

verus! {

/// The encoding of one sample.
#[derive(Debug, Clone, Copy, PartialEq, Eq, Structural)]
pub enum DataType {
    /// A single-precision number in four bytes, highest byte first.
    XDRFloat,
    /// A single-precision number in four bytes, lowest byte first.
    FloatLE,
    /// A whole number from 0 to 255 in one byte.
    Byte,
}

impl DataType {
    /// The encoding that a header value names, byte for byte.
    pub open spec fn spec_from_bytes(s: Seq<u8>) -> Result<DataType, Error> {
        if s == "float_le".spec_bytes() {
            Ok(DataType::FloatLE)
        } else if s == "xdr_float".spec_bytes() {
            Ok(DataType::XDRFloat)
        } else if s == "byte".spec_bytes() {
            Ok(DataType::Byte)
        } else {
            Err(Error::DataType)
        }
    }

    /// The encoding that a string names.
    pub open spec fn spec_from_str(s: Seq<char>) -> Result<DataType, Error> {
        if s == "float_le"@ {
            Ok(DataType::FloatLE)
        } else if s == "xdr_float"@ {
            Ok(DataType::XDRFloat)
        } else if s == "byte"@ {
            Ok(DataType::Byte)
        } else {
            Err(Error::DataType)
        }
    }

    /// The number of bytes that one sample takes.
    pub open spec fn spec_num_bytes(&self) -> usize {
        match *self {
            DataType::XDRFloat => 4,
            DataType::FloatLE => 4,
            DataType::Byte => 1,
        }
    }

    /// The single-precision number, as its 32 bits, that the sample at the
    /// start of `buf` encodes.
    pub open spec fn spec_convert(&self, buf: Seq<u8>) -> u32
        recommends
            buf.len() >= self.spec_num_bytes(),
    {
        match *self {
            DataType::XDRFloat => word_be(buf),
            DataType::FloatLE => word_le(buf),
            DataType::Byte => float_of(buf[0] as nat),
        }
    }

    /// The encoding that the bytes of a header value name, or
    /// [`Error::DataType`] where they name none.
    pub fn from_bytes(s: &[u8]) -> (r: Result<DataType, Error>)
        ensures
            r == Self::spec_from_bytes(s@),
    {
        if bytes_eq(s, "float_le".as_bytes()) {
            Ok(DataType::FloatLE)
        } else if bytes_eq(s, "xdr_float".as_bytes()) {
            Ok(DataType::XDRFloat)
        } else if bytes_eq(s, "byte".as_bytes()) {
            Ok(DataType::Byte)
        } else {
            Err(Error::DataType)
        }
    }

    /// The encoding that `s` names, or [`Error::DataType`] where it names
    /// none.
    pub fn from_str(s: &str) -> (r: Result<DataType, Error>)
        ensures
            r == Self::spec_from_str(s@),
            r == Self::spec_from_bytes(s.spec_bytes()),
    {
        proof {
            same_text_same_bytes(s@, "float_le"@);
            same_text_same_bytes(s@, "xdr_float"@);
            same_text_same_bytes(s@, "byte"@);
        }
        Self::from_bytes(s.as_bytes())
    }

    /// The number of bytes that one sample takes.
    #[verifier::when_used_as_spec(spec_num_bytes)]
    pub fn num_bytes(&self) -> (n: usize)
        ensures
            n == self.spec_num_bytes(),
    {
        match *self {
            DataType::XDRFloat => 4usize,
            DataType::FloatLE => 4usize,
            DataType::Byte => 1usize,
        }
    }

    /// The single-precision number, as its 32 bits, that the sample at the
    /// start of `buf` encodes. The four bytes of a number are taken as they
    /// lie where the lowest comes first and in reverse where the highest
    /// comes first; a single byte becomes the number equal to its value.
    pub fn convert_to_f32(&self, buf: &[u8]) -> (bits: u32)
        requires
            buf@.len() >= self.spec_num_bytes(),
        ensures
            bits == self.spec_convert(buf@),
            *self == DataType::Byte ==> is_float_of(bits, buf@[0] as nat),
    {
        match *self {
            DataType::XDRFloat => read_word_be(buf),
            DataType::FloatLE => read_word_le(buf),
            DataType::Byte => float_of_byte(buf[0]),
        }
    }
}

} // verus!
