//! The kind of grid that a field is laid out on.

use crate::error::Error;
use crate::text::bytes_eq;
use vstd::prelude::*;
use vstd::string::StringSliceAdditionalSpecFns;

verus! {

/// The kind of a field. Only uniform fields are known.
#[derive(Debug, Clone, Copy, PartialEq, Eq, Structural)]
pub enum FieldType {
    /// Samples on a regular grid.
    Uniform,
}

impl FieldType {
    /// The kind that a header value names, byte for byte.
    pub open spec fn spec_from_bytes(s: Seq<u8>) -> Result<FieldType, Error> {
        if s == "uniform".spec_bytes() {
            Ok(FieldType::Uniform)
        } else {
            Err(Error::FieldType)
        }
    }

    /// The kind that a string names.
    pub open spec fn spec_from_str(s: Seq<char>) -> Result<FieldType, Error> {
        if s == "uniform"@ {
            Ok(FieldType::Uniform)
        } else {
            Err(Error::FieldType)
        }
    }

    /// The kind that the bytes of a header value name, or
    /// [`Error::FieldType`] where they name none.
    pub fn from_bytes(s: &[u8]) -> (r: Result<FieldType, Error>)
        ensures
            r == Self::spec_from_bytes(s@),
    {
        if bytes_eq(s, "uniform".as_bytes()) {
            Ok(FieldType::Uniform)
        } else {
            Err(Error::FieldType)
        }
    }

    /// The kind that `s` names, or [`Error::FieldType`] where it names
    /// none.
    pub fn from_str(s: &str) -> (r: Result<FieldType, Error>)
        ensures
            r == Self::spec_from_str(s@),
            r == Self::spec_from_bytes(s.spec_bytes()),
    {
        proof {
            crate::text::same_text_same_bytes(s@, "uniform"@);
        }
        Self::from_bytes(s.as_bytes())
    }
}

} // verus!
