//! The ways in which reading or writing a field can fail.

use vstd::prelude::*;

verus! {

/// Why an operation on a field failed.
#[derive(Debug, Clone, Copy, PartialEq, Eq, Structural)]
pub enum Error {
    /// The byte stream could not be read or written, or ended too early.
    IO,
    /// A header value that should be an unsigned number is not one.
    Parse,
    /// The `data` entry names no known sample encoding, or the requested
    /// sample type does not fit the encoding.
    DataType,
    /// The `field` entry names no known kind of field.
    FieldType,
    /// A required header entry is missing, an extent has no slot, or the
    /// payload does not hold the samples that the header announces.
    Malformed,
    /// The operation is not available.
    NotImplemented,
}

} // verus!
