//! The header being built while its lines are read.

use crate::data_type::DataType;
use crate::error::Error;
use crate::field_type::FieldType;
use crate::file::{AVSFile, PayloadSource};
use crate::header::{chars_of, Fields, Key, EQUALS, MAX_DIMS};
use crate::number::parse_usize;
use crate::text::{find_byte, trim};
use vstd::prelude::*;

verus! {

/// Taken on trust of `String::push` of the standard library, as its
/// documentation has it: the call appends the character `ch`, so that the
/// string then holds the characters it held before, followed by `ch`.
pub assume_specification[ String::push ](s: &mut String, ch: char)
    ensures
        final(s)@ == old(s)@.push(ch),
;

/// The string whose characters are the bytes of `s`, each byte taken as
/// the character with the same code point.
pub fn string_of(s: &[u8]) -> (r: String)
    ensures
        r@ == chars_of(s@),
{
    let mut r = String::new();
    let mut i: usize = 0;
    while i < s.len()
        invariant
            i <= s.len(),
            r@ == chars_of(s@.take(i as int)),
        decreases s.len() - i,
    {
        r.push(s[i] as char);
        assert(r@ =~= chars_of(s@.take(i + 1)));
        i += 1;
    }
    assert(s@.take(i as int) =~= s@);
    r
}

/// The header being built. Of the slots for the extents it keeps the first
/// seven, which are all that an entry can fill.
pub struct Draft {
    ndim: Option<usize>,
    sizes: Vec<Option<usize>>,
    data_type: Option<DataType>,
    field_type: Option<FieldType>,
    external: Option<String>,
    fields: Ghost<Fields>,
}

impl View for Draft {
    type V = Fields;

    closed spec fn view(&self) -> Fields {
        self.fields@
    }
}

impl Draft {
    /// Whether the draft holds what its view says, and its view is a state
    /// that entries can lead to.
    pub closed spec fn wf(&self) -> bool {
        let f = self.fields@;
        &&& f.reachable()
        &&& self.ndim == f.ndim
        &&& self.data_type == f.data_type
        &&& self.field_type == f.field_type
        &&& match (self.external, f.external) {
            (None, None) => true,
            (Some(a), Some(b)) => a@ == b,
            _ => false,
        }
        &&& self.sizes@.len() <= MAX_DIMS
        &&& self.sizes@.len() <= f.slots.len()
        &&& self.sizes@.len() < MAX_DIMS ==> self.sizes@.len() == f.slots.len()
        &&& self.sizes@ =~= f.slots.take(self.sizes@.len() as int)
    }

    /// A draft that no entry has touched.
    pub fn new() -> (r: Draft)
        ensures
            r.wf(),
            r@ == Fields::empty(),
    {
        Draft {
            ndim: None,
            sizes: Vec::new(),
            data_type: None,
            field_type: None,
            external: None,
            fields: Ghost(Fields::empty()),
        }
    }

    /// Takes in the entry `key = value`. Where the entry is rejected the
    /// draft stays as it was.
    pub fn apply(&mut self, key: Key, value: &[u8]) -> (r: Result<(), Error>)
        requires
            old(self).wf(),
            key.wf(),
        ensures
            final(self).wf(),
            match old(self)@.apply(key, value@) {
                Ok(next) => r is Ok && final(self)@ == next,
                Err(e) => r == Err::<(), Error>(e) && final(self)@ == old(self)@,
            },
    {
        let ghost before = self.fields@;
        let ghost after = before.apply(key, value@);
        match key {
            Key::Ndim => {
                let n = match parse_usize(value) {
                    Some(n) => n,
                    None => {
                        return Err(Error::Parse);
                    },
                };
                self.ndim = Some(n);
                let mut added: usize = 0;
                while added < n && self.sizes.len() < MAX_DIMS
                    invariant
                        added <= n,
                        old(self).wf(),
                        before == old(self).fields@,
                        after == Ok::<Fields, Error>(
                            Fields {
                                ndim: Some(n),
                                slots: before.slots + Seq::new(n as nat, |i: int| None::<usize>),
                                ..before
                            },
                        ),
                        self.sizes@.len() <= MAX_DIMS,
                        self.sizes@.len() == old(self).sizes@.len() + added,
                        self.sizes@ == after->Ok_0.slots.take(self.sizes@.len() as int),
                        self.fields == old(self).fields,
                        self.ndim == Some(n),
                        self.data_type == old(self).data_type,
                        self.field_type == old(self).field_type,
                        self.external == old(self).external,
                    decreases n - added,
                {
                    self.sizes.push(None);
                    added += 1;
                    assert(self.sizes@ =~= after->Ok_0.slots.take(self.sizes@.len() as int));
                }
                self.fields = Ghost(after->Ok_0);
                Ok(())
            },
            Key::Dim(axis) => {
                let extent = match parse_usize(value) {
                    Some(extent) => extent,
                    None => {
                        return Err(Error::Parse);
                    },
                };
                if axis < self.sizes.len() {
                    self.sizes.set(axis, Some(extent));
                    self.fields = Ghost(after->Ok_0);
                    assert(self.sizes@ =~= after->Ok_0.slots.take(self.sizes@.len() as int));
                    Ok(())
                } else {
                    Err(Error::Malformed)
                }
            },
            Key::Data => {
                let data_type = match DataType::from_bytes(value) {
                    Ok(data_type) => data_type,
                    Err(e) => {
                        return Err(e);
                    },
                };
                self.data_type = Some(data_type);
                self.fields = Ghost(after->Ok_0);
                Ok(())
            },
            Key::Field => {
                let field_type = match FieldType::from_bytes(value) {
                    Ok(field_type) => field_type,
                    Err(e) => {
                        return Err(e);
                    },
                };
                self.field_type = Some(field_type);
                self.fields = Ghost(after->Ok_0);
                Ok(())
            },
            Key::External => {
                self.external = Some(string_of(value));
                self.fields = Ghost(after->Ok_0);
                Ok(())
            },
        }
    }

    /// Takes in one line of a header, given without its line feed. Where
    /// the line is rejected the draft stays as it was.
    pub fn apply_line(&mut self, line: &[u8]) -> (r: Result<(), Error>)
        requires
            old(self).wf(),
        ensures
            final(self).wf(),
            match old(self)@.apply_line(line@) {
                Ok(next) => r is Ok && final(self)@ == next,
                Err(e) => r == Err::<(), Error>(e) && final(self)@ == old(self)@,
            },
    {
        let len = line.len();
        let at = match find_byte(line, EQUALS) {
            Some(at) => at,
            None => {
                return Ok(());
            },
        };
        let key = match Key::from_bytes(trim(vstd::slice::slice_subrange(line, 0, at))) {
            Some(key) => key,
            None => {
                return Ok(());
            },
        };
        self.apply(key, trim(vstd::slice::slice_subrange(line, at + 1, len)))
    }

    /// The field that the entries describe, once the header has ended at
    /// position `end` of its stream; [`Error::Malformed`] where something
    /// is missing.
    pub fn finish(self, end: usize) -> (r: Result<AVSFile, Error>)
        requires
            self.wf(),
        ensures
            match self@.finish(end as nat) {
                Ok(header) => r is Ok && r->Ok_0@ == header,
                Err(e) => r == Err::<AVSFile, Error>(e),
            },
            r matches Ok(file) ==> file@.wf(),
    {
        let ghost f = self.fields@;
        proof {
            f.finish_is_wf(end as nat);
        }
        let ndim = match self.ndim {
            Some(ndim) => ndim,
            None => {
                return Err(Error::Malformed);
            },
        };
        let data_type = match self.data_type {
            Some(data_type) => data_type,
            None => {
                return Err(Error::Malformed);
            },
        };
        let field_type = match self.field_type {
            Some(field_type) => field_type,
            None => {
                return Err(Error::Malformed);
            },
        };
        if ndim > self.sizes.len() {
            proof {
                if f.complete() {
                    f.complete_has_few_dims();
                }
            }
            return Err(Error::Malformed);
        }
        let mut sizes: Vec<usize> = Vec::new();
        let mut i: usize = 0;
        while i < ndim
            invariant
                self.wf(),
                f == self@,
                f.ndim == Some(ndim),
                f.data_type is Some,
                f.field_type is Some,
                i <= ndim <= self.sizes@.len() <= f.slots.len(),
                sizes@.len() == i,
                forall|j: int| 0 <= j < i ==> f.slots[j] == Some(#[trigger] sizes@[j]),
            decreases ndim - i,
        {
            assert(self.sizes@[i as int] == f.slots[i as int]);
            match self.sizes[i] {
                Some(extent) => {
                    sizes.push(extent);
                },
                None => {
                    return Err(Error::Malformed);
                },
            }
            i += 1;
        }
        let source = match self.external {
            Some(name) => PayloadSource::External(name),
            None => PayloadSource::Inline(end),
        };
        let file = AVSFile { ndim, sizes, data_type, field_type, source };
        proof {
            assert forall|j: int| 0 <= j < ndim implies (#[trigger] f.slots[j]) is Some by {
                assert(f.slots[j] == Some(sizes@[j]));
            }
            assert(f.complete());
            assert(file@.sizes =~= f.finish(end as nat)->Ok_0.sizes);
        }
        Ok(file)
    }
}

} // verus!
