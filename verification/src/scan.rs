//! A header as a stream of bytes: where it ends, which lines it holds, and
//! what reading them gives.
//!
//! A header ends with the first two adjacent form feeds. Before them, each
//! line feed ends a line; what stands between the last line feed and the
//! form feeds is no line and is dropped.

use crate::error::Error;
use crate::header::{Fields, Header};
use crate::text::{first_index, first_index_is, first_index_is_first};
use vstd::prelude::*;

verus! {

/// The byte that ends a line.
pub const LINE_FEED: u8 = 10;

/// The byte that, twice in a row, ends a header.
pub const FORM_FEED: u8 = 12;

/// Whether two form feeds stand at positions `i` and `i + 1` of `s`.
pub open spec fn sentinel_at(s: Seq<u8>, i: int) -> bool {
    0 <= i && i + 1 < s.len() && s[i] == FORM_FEED && s[i + 1] == FORM_FEED
}

/// The position of the first two adjacent form feeds of `s`, or the length
/// of `s` where it holds none.
pub open spec fn sentinel_index(s: Seq<u8>) -> nat
    decreases s.len(),
{
    if s.len() < 2 {
        s.len()
    } else if s[0] == FORM_FEED && s[1] == FORM_FEED {
        0
    } else {
        1 + sentinel_index(s.drop_first())
    }
}

/// What the complete lines of `text` lead to, read in order from the state
/// `from`: the first line that is rejected ends the reading. What follows
/// the last line feed is not read.
pub open spec fn read_lines(from: Fields, text: Seq<u8>) -> Result<Fields, Error>
    decreases text.len(),
{
    let at = first_index(text, LINE_FEED);
    if at >= text.len() {
        Ok(from)
    } else {
        match from.apply_line(text.take(at as int)) {
            Err(e) => Err(e),
            Ok(next) => read_lines(next, text.skip((at + 1) as int)),
        }
    }
}

/// What follows the last line feed of `text`: the line that is not
/// complete yet.
pub open spec fn pending(text: Seq<u8>) -> Seq<u8>
    decreases text.len(),
{
    let at = first_index(text, LINE_FEED);
    if at >= text.len() {
        text
    } else {
        pending(text.skip((at + 1) as int))
    }
}

/// What the lines of the header at the start of `s` lead to. The lines are
/// those before the first two adjacent form feeds, or all lines of `s`
/// where the form feeds have not come yet.
pub open spec fn header_lines(s: Seq<u8>) -> Result<Fields, Error> {
    read_lines(Fields::empty(), s.take(sentinel_index(s) as int))
}

/// How far the reading of a header has come.
#[derive(Debug, Clone, Copy, PartialEq, Eq, Structural)]
pub enum Status {
    /// No line was rejected and the header has not ended.
    More,
    /// No line was rejected and the two form feeds were read.
    Ended,
    /// A line was rejected, for this reason.
    Failed(Error),
}

/// How far the bytes `s` bring the reading of a header.
pub open spec fn spec_status(s: Seq<u8>) -> Status {
    match header_lines(s) {
        Err(e) => Status::Failed(e),
        Ok(_) => if sentinel_index(s) < s.len() {
            Status::Ended
        } else {
            Status::More
        },
    }
}

/// The header that the stream `s` starts with. The first rejected line
/// gives its error; a stream that ends before the two form feeds is an
/// [`Error::IO`]; a header that ends with something missing is
/// [`Error::Malformed`]. The payload of a header that names no file starts
/// right after the form feeds.
pub open spec fn spec_open(s: Seq<u8>) -> Result<Header, Error> {
    match header_lines(s) {
        Err(e) => Err(e),
        Ok(fields) => if sentinel_index(s) < s.len() {
            fields.finish(sentinel_index(s) + 2)
        } else {
            Err(Error::IO)
        },
    }
}

/// Before `sentinel_index` no two form feeds stand side by side, and at
/// it, where it lies inside `s`, two do.
pub proof fn sentinel_index_is_first(s: Seq<u8>)
    ensures
        sentinel_index(s) <= s.len(),
        sentinel_index(s) < s.len() ==> sentinel_at(s, sentinel_index(s) as int),
        forall|j: int| 0 <= j < sentinel_index(s) ==> !sentinel_at(s, j),
    decreases s.len(),
{
    if s.len() < 2 {
    } else if s[0] == FORM_FEED && s[1] == FORM_FEED {
    } else {
        let t = s.drop_first();
        sentinel_index_is_first(t);
        assert forall|j: int| 0 <= j < sentinel_index(s) implies !sentinel_at(s, j) by {
            if j > 0 {
                assert(!sentinel_at(t, j - 1));
            }
        }
    }
}

/// The first position at which two form feeds stand side by side is
/// `sentinel_index`, and so is the length of a stream without any.
pub proof fn sentinel_index_is(s: Seq<u8>, i: int)
    requires
        sentinel_at(s, i) || i == s.len(),
        forall|j: int| 0 <= j < i ==> !sentinel_at(s, j),
    ensures
        sentinel_index(s) == i,
{
    sentinel_index_is_first(s);
    let at = sentinel_index(s) as int;
    if at < i {
        assert(sentinel_at(s, at));
    }
}

/// One more byte at the end of a text: a line feed completes the pending
/// line, which is then read; any other byte joins the pending line.
pub proof fn read_lines_push(from: Fields, text: Seq<u8>, b: u8)
    ensures
        pending(text.push(b)) == if b == LINE_FEED {
            Seq::<u8>::empty()
        } else {
            pending(text).push(b)
        },
        read_lines(from, text.push(b)) == if b == LINE_FEED {
            match read_lines(from, text) {
                Err(e) => Err(e),
                Ok(fields) => fields.apply_line(pending(text)),
            }
        } else {
            read_lines(from, text)
        },
    decreases text.len(),
{
    let at = first_index(text, LINE_FEED) as int;
    let more = text.push(b);
    first_index_is_first(text, LINE_FEED);
    if at < text.len() {
        first_index_is(more, LINE_FEED, at);
        assert(more.take(at) =~= text.take(at));
        assert(more.skip(at + 1) =~= text.skip(at + 1).push(b));
        match from.apply_line(text.take(at)) {
            Err(e) => {
                read_lines_push(from, text.skip(at + 1), b);
            },
            Ok(next) => {
                read_lines_push(next, text.skip(at + 1), b);
            },
        }
    } else if b == LINE_FEED {
        first_index_is(more, LINE_FEED, at);
        assert(more.take(at) =~= text);
        let rest = Seq::<u8>::empty();
        assert(more.skip(at + 1) =~= rest);
        assert(pending(rest) == rest);
        match from.apply_line(text) {
            Err(e) => {},
            Ok(next) => {
                assert(read_lines(next, rest) == Ok::<Fields, Error>(next));
            },
        }
    } else {
        first_index_is(more, LINE_FEED, more.len() as int);
    }
}

/// A line that was rejected stays rejected however the text goes on.
pub proof fn read_lines_error_stays(from: Fields, text: Seq<u8>, n: int)
    requires
        0 <= n <= text.len(),
        read_lines(from, text.take(n)) is Err,
    ensures
        read_lines(from, text) == read_lines(from, text.take(n)),
    decreases text.len() - n,
{
    if n < text.len() {
        read_lines_push(from, text.take(n), text[n]);
        assert(text.take(n).push(text[n]) =~= text.take(n + 1));
        read_lines_error_stays(from, text, n + 1);
    } else {
        assert(text.take(n) =~= text);
    }
}

/// Where two form feeds stand inside the first `n` bytes, the first such
/// place of the whole stream is that of its first `n` bytes.
pub proof fn sentinel_index_of_prefix(s: Seq<u8>, n: int)
    requires
        0 <= n <= s.len(),
        sentinel_index(s.take(n)) < n,
    ensures
        sentinel_index(s) == sentinel_index(s.take(n)),
{
    let p = s.take(n);
    let at = sentinel_index(p) as int;
    sentinel_index_is_first(p);
    assert(sentinel_at(s, at));
    assert forall|j: int| 0 <= j < at implies !sentinel_at(s, j) by {
        assert(!sentinel_at(p, j));
    }
    sentinel_index_is(s, at);
}

/// Once the first `n` bytes have ended the header or had a line rejected,
/// the bytes that follow change nothing.
pub proof fn decided_by_prefix(s: Seq<u8>, n: int)
    requires
        0 <= n <= s.len(),
        spec_status(s.take(n)) != Status::More,
    ensures
        spec_status(s) == spec_status(s.take(n)),
        spec_open(s) == spec_open(s.take(n)),
{
    let p = s.take(n);
    sentinel_index_is_first(p);
    sentinel_index_is_first(s);
    let at = sentinel_index(p) as int;
    if at < n {
        sentinel_index_of_prefix(s, n);
        assert(s.take(at) =~= p.take(at));
    } else {
        let whole = sentinel_index(s) as int;
        assert(p.take(at) =~= p);
        assert(read_lines(Fields::empty(), p) is Err);
        assert(whole >= n - 1) by {
            if whole < n - 1 {
                assert(sentinel_at(s, whole));
                assert(sentinel_at(p, whole));
            }
        }
        if whole >= n {
            assert(s.take(whole).take(n) =~= p);
            read_lines_error_stays(Fields::empty(), s.take(whole), n);
        } else {
            assert(s.take(whole).push(s[whole]) =~= p);
            read_lines_push(Fields::empty(), s.take(whole), s[whole]);
        }
    }
}

/// Lines lead from reachable states to reachable states.
pub proof fn read_lines_keeps_reachable(from: Fields, text: Seq<u8>)
    requires
        from.reachable(),
    ensures
        read_lines(from, text) matches Ok(fields) ==> fields.reachable(),
    decreases text.len(),
{
    let at = first_index(text, LINE_FEED);
    if at < text.len() {
        from.apply_line_keeps_reachable(text.take(at as int));
        match from.apply_line(text.take(at as int)) {
            Err(e) => {},
            Ok(next) => {
                read_lines_keeps_reachable(next, text.skip((at + 1) as int));
            },
        }
    }
}

/// Every header that a stream opens as has one extent for each of its
/// dimensions, and at most seven dimensions.
pub proof fn opened_is_wf(s: Seq<u8>)
    ensures
        spec_open(s) matches Ok(header) ==> header.wf(),
{
    read_lines_keeps_reachable(Fields::empty(), s.take(sentinel_index(s) as int));
    match header_lines(s) {
        Err(e) => {},
        Ok(fields) => {
            fields.finish_is_wf(sentinel_index(s) + 2);
        },
    }
}

/// A text without line feed, closed by one, is one line.
pub proof fn read_one_line(from: Fields, line: Seq<u8>)
    requires
        forall|i: int| 0 <= i < line.len() ==> line[i] != LINE_FEED,
    ensures
        read_lines(from, line.push(LINE_FEED)) == from.apply_line(line),
{
    first_index_is(line, LINE_FEED, line.len() as int);
    read_lines_push(from, line, LINE_FEED);
}

/// The lines of a text that follows complete lines are read from where
/// those lines lead.
pub proof fn read_lines_concat(from: Fields, a: Seq<u8>, b: Seq<u8>)
    requires
        a.len() == 0 || a.last() == LINE_FEED,
    ensures
        read_lines(from, a + b) == match read_lines(from, a) {
            Err(e) => Err(e),
            Ok(next) => read_lines(next, b),
        },
    decreases a.len(),
{
    if a.len() == 0 {
        assert(a + b =~= b);
    } else {
        first_index_is_first(a, LINE_FEED);
        let at = first_index(a, LINE_FEED) as int;
        assert(at < a.len()) by {
            if at >= a.len() {
                assert(a[a.len() - 1] != LINE_FEED);
            }
        }
        first_index_is(a + b, LINE_FEED, at);
        assert((a + b).take(at) =~= a.take(at));
        assert((a + b).skip(at + 1) =~= a.skip(at + 1) + b);
        match from.apply_line(a.take(at)) {
            Err(e) => {},
            Ok(next) => {
                let rest = a.skip(at + 1);
                if rest.len() > 0 {
                    assert(rest.last() == a.last());
                }
                read_lines_concat(next, rest, b);
            },
        }
    }
}

/// Whether `s` is empty or ends with a line feed, and holds no form feed:
/// the lines of a header, all complete.
pub open spec fn whole_lines(s: Seq<u8>) -> bool {
    &&& s.len() == 0 || s.last() == LINE_FEED
    &&& forall|i: int| 0 <= i < s.len() ==> #[trigger] s[i] != FORM_FEED
}

/// Complete lines followed by complete lines are complete lines.
pub proof fn whole_lines_concat(a: Seq<u8>, b: Seq<u8>)
    requires
        whole_lines(a),
        whole_lines(b),
    ensures
        whole_lines(a + b),
{
    let all = a + b;
    if b.len() == 0 {
        assert(all =~= a);
    } else {
        assert(all.last() == b.last());
    }
    assert forall|i: int| 0 <= i < all.len() implies #[trigger] all[i] != FORM_FEED by {
        if i < a.len() {
            assert(all[i] == a[i]);
        } else {
            assert(all[i] == b[i - a.len()]);
        }
    }
}

/// Complete lines, two form feeds and anything after them open as the
/// header that the lines describe, with the payload right after the form
/// feeds.
pub proof fn lines_then_form_feeds(lines: Seq<u8>, payload: Seq<u8>)
    requires
        whole_lines(lines),
    ensures
        spec_open(lines + seq![FORM_FEED, FORM_FEED] + payload) == match read_lines(
            Fields::empty(),
            lines,
        ) {
            Err(e) => Err(e),
            Ok(fields) => fields.finish(lines.len() + 2),
        },
{
    let s = lines + seq![FORM_FEED, FORM_FEED] + payload;
    let at = lines.len() as int;
    assert(s[at] == FORM_FEED && s[at + 1] == FORM_FEED);
    assert forall|j: int| 0 <= j < at implies !sentinel_at(s, j) by {
        assert(s[j] == lines[j]);
    }
    sentinel_index_is(s, at);
    assert(s.take(at) =~= lines);
}

/// A stream whose first `at` bytes hold no two adjacent form feeds, and
/// which has two at `at`, ends its header there.
pub proof fn header_ends_at(s: Seq<u8>, at: int)
    requires
        sentinel_at(s, at),
        forall|j: int| 0 <= j < at ==> !sentinel_at(s, j),
    ensures
        sentinel_index(s) == at,
        spec_status(s) != Status::More,
        spec_status(s) == spec_status(s.take(at + 2)),
        spec_open(s) == spec_open(s.take(at + 2)),
        forall|n: int| 0 <= n < at + 2 ==> spec_status(#[trigger] s.take(n)) != Status::Ended,
{
    sentinel_index_is(s, at);
    let p = s.take(at + 2);
    assert(sentinel_at(p, at));
    assert forall|j: int| 0 <= j < at implies !sentinel_at(p, j) by {
        assert(!sentinel_at(s, j));
    }
    sentinel_index_is(p, at);
    assert(p.take(at) =~= s.take(at));
    assert forall|n: int| 0 <= n < at + 2 implies spec_status(#[trigger] s.take(n))
        != Status::Ended by {
        let q = s.take(n);
        assert forall|j: int| 0 <= j < n implies !sentinel_at(q, j) by {
            if sentinel_at(q, j) {
                assert(sentinel_at(s, j));
            }
        }
        sentinel_index_is(q, n);
    }
}

} // verus!
