//! Reading a header byte by byte, for a caller that draws the bytes from a
//! stream and must stop at the end of the header.

use crate::draft::Draft;
use crate::error::Error;
use crate::file::AVSFile;
use crate::header::Fields;
use crate::scan::{
    header_lines, opened_is_wf, pending, read_lines_push, sentinel_at, sentinel_index, sentinel_index_is,
    sentinel_index_is_first, spec_open, spec_status, Status, FORM_FEED, LINE_FEED,
};
use vstd::prelude::*;

verus! {

/// A reader of one header. It takes the bytes of the stream one at a time
/// until the header has ended or a line was rejected; after that it takes
/// no more.
pub struct HeaderParser {
    draft: Draft,
    line: Vec<u8>,
    last: u8,
    count: usize,
    status: Status,
    consumed: Ghost<Seq<u8>>,
}

impl HeaderParser {
    /// The bytes taken so far.
    pub closed spec fn consumed(&self) -> Seq<u8> {
        self.consumed@
    }

    /// Whether the reader holds what the bytes taken so far lead to.
    pub closed spec fn wf(&self) -> bool {
        let s = self.consumed@;
        &&& self.count == s.len()
        &&& self.status == spec_status(s)
        &&& self.draft.wf()
        &&& match self.status {
            Status::More => {
                &&& header_lines(s) == Ok::<Fields, Error>(self.draft@)
                &&& sentinel_index(s) == s.len()
                &&& self.line@ == pending(s)
                &&& self.last == if s.len() > 0 {
                    s.last()
                } else {
                    0
                }
            },
            Status::Ended => {
                &&& header_lines(s) == Ok::<Fields, Error>(self.draft@)
                &&& sentinel_index(s) + 2 == s.len()
            },
            Status::Failed(_) => true,
        }
    }

    /// A reader that has taken nothing.
    pub fn new() -> (r: HeaderParser)
        ensures
            r.wf(),
            r.consumed() == Seq::<u8>::empty(),
    {
        let r = HeaderParser {
            draft: Draft::new(),
            line: Vec::new(),
            last: 0,
            count: 0,
            status: Status::More,
            consumed: Ghost(Seq::empty()),
        };
        proof {
            let s = Seq::<u8>::empty();
            assert(s.take(0) =~= s);
        }
        r
    }

    /// How far the bytes taken so far have brought the reading.
    pub fn status(&self) -> (r: Status)
        requires
            self.wf(),
        ensures
            r == spec_status(self.consumed()),
    {
        self.status
    }

    /// Takes the next byte of the stream, unless the header has ended or a
    /// line was rejected: then the byte is not taken. Says how far the
    /// reading has come.
    pub fn push(&mut self, b: u8) -> (r: Status)
        requires
            old(self).wf(),
            old(self).consumed().len() < usize::MAX,
        ensures
            final(self).wf(),
            final(self).consumed() == if spec_status(old(self).consumed()) == Status::More {
                old(self).consumed().push(b)
            } else {
                old(self).consumed()
            },
            r == spec_status(final(self).consumed()),
    {
        match self.status {
            Status::More => {},
            _ => {
                return self.status;
            },
        }
        let ghost p = self.consumed@;
        let ghost q = p.push(b);
        proof {
            sentinel_index_is_first(p);
            assert(p.take(p.len() as int) =~= p);
            assert(q.take(q.len() as int) =~= q);
        }
        self.count = self.count + 1;
        self.consumed = Ghost(q);
        if b == FORM_FEED && self.last == FORM_FEED {
            proof {
                let at = p.len() - 1;
                assert(sentinel_at(q, at));
                assert forall|j: int| 0 <= j < at implies !sentinel_at(q, j) by {
                    assert(!sentinel_at(p, j));
                }
                sentinel_index_is(q, at);
                assert(q.take(at) =~= p.drop_last());
                assert(p.drop_last().push(FORM_FEED) =~= p);
                read_lines_push(Fields::empty(), p.drop_last(), FORM_FEED);
            }
            self.status = Status::Ended;
        } else {
            proof {
                assert forall|j: int| 0 <= j < q.len() implies !sentinel_at(q, j) by {
                    if j + 1 < p.len() {
                        assert(!sentinel_at(p, j));
                    }
                }
                sentinel_index_is(q, q.len() as int);
                read_lines_push(Fields::empty(), p, b);
            }
            self.last = b;
            if b == LINE_FEED {
                let read = self.draft.apply_line(self.line.as_slice());
                self.line.clear();
                match read {
                    Ok(()) => {},
                    Err(e) => {
                        self.status = Status::Failed(e);
                    },
                }
            } else {
                self.line.push(b);
            }
        }
        self.status
    }

    /// The field whose header was read. A line's error is handed on; a
    /// stream whose header has not ended is an [`Error::IO`]; a header that
    /// ended with something missing is [`Error::Malformed`].
    pub fn finish(self) -> (r: Result<AVSFile, Error>)
        requires
            self.wf(),
        ensures
            match spec_open(self.consumed()) {
                Ok(header) => r is Ok && r->Ok_0@ == header,
                Err(e) => r == Err::<AVSFile, Error>(e),
            },
            r matches Ok(file) ==> file@.wf(),
    {
        proof {
            opened_is_wf(self.consumed@);
        }
        match self.status {
            Status::More => Err(Error::IO),
            Status::Failed(e) => Err(e),
            Status::Ended => self.draft.finish(self.count),
        }
    }
}

} // verus!
