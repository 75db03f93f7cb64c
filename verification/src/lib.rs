//! Reading and writing AVS field files: a text header of `key = value`
//! lines closed by two form feeds, followed by raw binary samples.
//!
//! The library works on bytes in memory. [`AVSFile::open`] reads a header,
//! [`AVSFile::read_to_f32`] and [`AVSFile::read`] decode a payload, and
//! [`AVSFile::write`] produces a whole field. A caller that draws a header
//! from a stream feeds it byte by byte to a [`HeaderParser`].
//! Single-precision numbers are handed in and out as their 32 bits.

pub mod data_type;
pub mod draft;
pub mod encode;
pub mod error;
pub mod field_type;
pub mod file;
pub mod float;
pub mod header;
pub mod laws;
pub mod number;
pub mod parser;
pub mod sample;
pub mod scan;
pub mod shape;
pub mod text;
pub mod words;

pub use data_type::DataType;
pub use draft::Draft;
pub use error::Error;
pub use field_type::FieldType;
pub use file::{AVSFile, PayloadSource};
pub use header::Key;
pub use parser::HeaderParser;
pub use sample::Sample;
pub use scan::Status;
