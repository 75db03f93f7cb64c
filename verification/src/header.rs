//! The entries of a header: which keys are known, what each does to the
//! header being built, and when a header is complete.

use crate::data_type::DataType;
use crate::error::Error;
use crate::field_type::FieldType;
use crate::number::spec_parse_usize;
use crate::text::{bytes_eq, first_index, spec_trim};
use vstd::prelude::*;
use vstd::string::StringSliceAdditionalSpecFns;

verus! {

/// The largest number of extents that header entries can set: the keys
/// `dim1` to `dim7` are known and no others.
pub const MAX_DIMS: usize = 7;

/// The byte `=`, which parts a key from its value.
pub const EQUALS: u8 = 61;

/// A key that the header reader knows.
#[derive(Debug, Clone, Copy, PartialEq, Eq, Structural)]
pub enum Key {
    /// `ndim`: the number of dimensions.
    Ndim,
    /// `dim1` to `dim7`: the extent along one axis; holds the axis, from 0.
    Dim(usize),
    /// `data`: the encoding of the samples.
    Data,
    /// `field`: the kind of field.
    Field,
    /// `variable 1 file`: the file that holds the payload.
    External,
}

impl Key {
    /// Whether the key is one of the format: an extent's axis is one of the
    /// first seven.
    pub open spec fn wf(self) -> bool {
        self matches Key::Dim(axis) ==> axis < MAX_DIMS
    }

    /// The key that `s` spells, if it spells one.
    pub open spec fn spec_from_bytes(s: Seq<u8>) -> Option<Key> {
        if s == "ndim".spec_bytes() {
            Some(Key::Ndim)
        } else if s == "dim1".spec_bytes() {
            Some(Key::Dim(0))
        } else if s == "dim2".spec_bytes() {
            Some(Key::Dim(1))
        } else if s == "dim3".spec_bytes() {
            Some(Key::Dim(2))
        } else if s == "dim4".spec_bytes() {
            Some(Key::Dim(3))
        } else if s == "dim5".spec_bytes() {
            Some(Key::Dim(4))
        } else if s == "dim6".spec_bytes() {
            Some(Key::Dim(5))
        } else if s == "dim7".spec_bytes() {
            Some(Key::Dim(6))
        } else if s == "data".spec_bytes() {
            Some(Key::Data)
        } else if s == "field".spec_bytes() {
            Some(Key::Field)
        } else if s == "variable 1 file".spec_bytes() {
            Some(Key::External)
        } else {
            None
        }
    }

    /// The key that `s` spells, if it spells one.
    pub fn from_bytes(s: &[u8]) -> (r: Option<Key>)
        ensures
            r == Self::spec_from_bytes(s@),
            r matches Some(key) ==> key.wf(),
    {
        if bytes_eq(s, "ndim".as_bytes()) {
            Some(Key::Ndim)
        } else if bytes_eq(s, "dim1".as_bytes()) {
            Some(Key::Dim(0))
        } else if bytes_eq(s, "dim2".as_bytes()) {
            Some(Key::Dim(1))
        } else if bytes_eq(s, "dim3".as_bytes()) {
            Some(Key::Dim(2))
        } else if bytes_eq(s, "dim4".as_bytes()) {
            Some(Key::Dim(3))
        } else if bytes_eq(s, "dim5".as_bytes()) {
            Some(Key::Dim(4))
        } else if bytes_eq(s, "dim6".as_bytes()) {
            Some(Key::Dim(5))
        } else if bytes_eq(s, "dim7".as_bytes()) {
            Some(Key::Dim(6))
        } else if bytes_eq(s, "data".as_bytes()) {
            Some(Key::Data)
        } else if bytes_eq(s, "field".as_bytes()) {
            Some(Key::Field)
        } else if bytes_eq(s, "variable 1 file".as_bytes()) {
            Some(Key::External)
        } else {
            None
        }
    }
}

/// The characters that a string of bytes stands for: each byte is the
/// character with the same code point.
pub open spec fn chars_of(s: Seq<u8>) -> Seq<char> {
    Seq::new(s.len(), |i: int| s[i] as char)
}

/// Where the payload of a field lies.
pub ghost enum Source {
    /// In the stream of the header, from this position on.
    Inline(nat),
    /// In the file of this name, from its start.
    External(Seq<char>),
}

/// A complete header.
pub ghost struct Header {
    /// The number of dimensions.
    pub ndim: usize,
    /// The extent along each axis, first axis first.
    pub sizes: Seq<usize>,
    /// The encoding of the samples.
    pub data_type: DataType,
    /// The kind of field.
    pub field_type: FieldType,
    /// Where the payload lies.
    pub source: Source,
}

impl Header {
    /// Whether the header has one extent for each dimension, and no more
    /// dimensions than entries can give extents for.
    pub open spec fn wf(self) -> bool {
        self.sizes.len() == self.ndim <= MAX_DIMS
    }
}

/// What the entries of a header have said so far.
pub ghost struct Fields {
    /// The number of dimensions, once an `ndim` entry was read.
    pub ndim: Option<usize>,
    /// The slots for the extents, each empty until its entry was read.
    /// Every `ndim` entry adds as many empty slots as it announces.
    pub slots: Seq<Option<usize>>,
    /// The encoding, once a `data` entry was read.
    pub data_type: Option<DataType>,
    /// The kind of field, once a `field` entry was read.
    pub field_type: Option<FieldType>,
    /// The name of the payload's file, once an entry named one.
    pub external: Option<Seq<char>>,
}

impl Fields {
    /// The state before any entry was read.
    pub open spec fn empty() -> Fields {
        Fields {
            ndim: None,
            slots: Seq::empty(),
            data_type: None,
            field_type: None,
            external: None,
        }
    }

    /// The state after the entry `key = value`, or why the entry is
    /// rejected. A value that should be a number and is none is a
    /// [`Error::Parse`]; an extent whose slot does not exist is
    /// [`Error::Malformed`], and so a `dim` entry cannot come before the
    /// `ndim` entry that makes its slot.
    pub open spec fn apply(self, key: Key, value: Seq<u8>) -> Result<Fields, Error> {
        match key {
            Key::Ndim => match spec_parse_usize(value) {
                None => Err(Error::Parse),
                Some(n) => Ok(
                    Fields {
                        ndim: Some(n),
                        slots: self.slots + Seq::new(n as nat, |i: int| None::<usize>),
                        ..self
                    },
                ),
            },
            Key::Dim(axis) => match spec_parse_usize(value) {
                None => Err(Error::Parse),
                Some(extent) => if axis < self.slots.len() {
                    Ok(Fields { slots: self.slots.update(axis as int, Some(extent)), ..self })
                } else {
                    Err(Error::Malformed)
                },
            },
            Key::Data => match DataType::spec_from_bytes(value) {
                Err(e) => Err(e),
                Ok(data_type) => Ok(Fields { data_type: Some(data_type), ..self }),
            },
            Key::Field => match FieldType::spec_from_bytes(value) {
                Err(e) => Err(e),
                Ok(field_type) => Ok(Fields { field_type: Some(field_type), ..self }),
            },
            Key::External => Ok(Fields { external: Some(chars_of(value)), ..self }),
        }
    }

    /// The state after one line, given without its line feed. The line is
    /// split at its first `=` into a key and a value, and both are
    /// trimmed. A line without `=`, or with a key that is not known,
    /// changes nothing.
    pub open spec fn apply_line(self, line: Seq<u8>) -> Result<Fields, Error> {
        let at = first_index(line, EQUALS);
        if at == line.len() {
            Ok(self)
        } else {
            match Key::spec_from_bytes(spec_trim(line.take(at as int))) {
                None => Ok(self),
                Some(key) => self.apply(key, spec_trim(line.skip((at + 1) as int))),
            }
        }
    }

    /// Whether nothing is missing: the number of dimensions, the encoding
    /// and the kind of field were given, and every one of the first `ndim`
    /// slots exists and was filled.
    pub open spec fn complete(self) -> bool {
        &&& self.ndim is Some
        &&& self.data_type is Some
        &&& self.field_type is Some
        &&& self.ndim->0 <= self.slots.len()
        &&& forall|i: int| 0 <= i < self.ndim->0 ==> (#[trigger] self.slots[i]) is Some
    }

    /// The header that the entries describe once the header has ended at
    /// position `end` of its stream, or [`Error::Malformed`] where
    /// something is missing.
    pub open spec fn finish(self, end: nat) -> Result<Header, Error> {
        if self.complete() {
            Ok(
                Header {
                    ndim: self.ndim->0,
                    sizes: Seq::new(self.ndim->0 as nat, |i: int| self.slots[i]->0),
                    data_type: self.data_type->0,
                    field_type: self.field_type->0,
                    source: match self.external {
                        None => Source::Inline(end),
                        Some(name) => Source::External(name),
                    },
                },
            )
        } else {
            Err(Error::Malformed)
        }
    }

    /// What holds of every state that entries can lead to: no slot from the
    /// eighth on is ever filled, and the slots that the last `ndim` entry
    /// announced exist.
    pub open spec fn reachable(self) -> bool {
        &&& forall|i: int| MAX_DIMS <= i < self.slots.len() ==> (#[trigger] self.slots[i]) is None
        &&& self.ndim is Some ==> self.ndim->0 <= self.slots.len()
    }

    /// Lines lead from reachable states to reachable states.
    pub proof fn apply_line_keeps_reachable(self, line: Seq<u8>)
        requires
            self.reachable(),
        ensures
            self.apply_line(line) is Ok ==> self.apply_line(line)->Ok_0.reachable(),
    {
    }

    /// The header of a reachable state that is complete has one extent for
    /// each of at most seven dimensions.
    pub proof fn finish_is_wf(self, end: nat)
        requires
            self.reachable(),
        ensures
            self.finish(end) matches Ok(header) ==> header.wf(),
    {
        if self.complete() {
            self.complete_has_few_dims();
        }
    }

    /// A header of more than seven dimensions is never complete.
    pub proof fn complete_has_few_dims(self)
        requires
            self.reachable(),
            self.complete(),
        ensures
            self.ndim->0 <= MAX_DIMS,
    {
        if self.ndim->0 > MAX_DIMS {
            assert(self.slots[MAX_DIMS as int] is None);
        }
    }
}

} // verus!
