//! The bytes of a written field: the text of its header and its samples.

use crate::float::{le_bytes, push_word_le};
use crate::header::EQUALS;
use crate::number::{decimal, push_decimal};
use crate::scan::{FORM_FEED, LINE_FEED};
use vstd::prelude::*;
use vstd::string::StringSliceAdditionalSpecFns;

verus! {

/// The header line that gives `key` the value `value`.
pub open spec fn entry(key: Seq<u8>, value: Seq<u8>) -> Seq<u8> {
    key + seq![EQUALS] + value + seq![LINE_FEED]
}

/// The comment that opens a written header and names the writer.
pub open spec fn comment_line() -> Seq<u8> {
    "# AVS FLD file (written by avsfldrs github.com/greyhill/avsfldrs)\n".spec_bytes()
}

/// The lines of a written header that do not depend on the extents: the
/// comment, the number of dimensions, one value per sample, as many
/// coordinates as dimensions, and a uniform field of single-precision
/// numbers stored lowest byte first.
pub open spec fn preamble(ndim: nat) -> Seq<u8> {
    comment_line() + entry("ndim".spec_bytes(), decimal(ndim)) + entry(
        "veclen".spec_bytes(),
        "1".spec_bytes(),
    ) + entry("nspace".spec_bytes(), decimal(ndim)) + entry(
        "field".spec_bytes(),
        "uniform".spec_bytes(),
    ) + entry("data".spec_bytes(), "float_le".spec_bytes())
}

/// The key of the extent along the axis `axis`, axes counted from 1.
pub open spec fn dim_key(axis: nat) -> Seq<u8> {
    "dim".spec_bytes() + decimal(axis)
}

/// The lines that give the extents `dims`, one line per axis in order.
pub open spec fn dim_lines(dims: Seq<usize>) -> Seq<u8>
    decreases dims.len(),
{
    if dims.len() == 0 {
        Seq::empty()
    } else {
        dim_lines(dims.drop_last()) + entry(dim_key(dims.len()), decimal(dims.last() as nat))
    }
}

/// The header of a field with the extents `dims`, the two form feeds
/// included.
pub open spec fn header_text(dims: Seq<usize>) -> Seq<u8> {
    preamble(dims.len()) + dim_lines(dims) + seq![FORM_FEED, FORM_FEED]
}

/// The bytes of the samples `data`, in order, each lowest byte first.
pub open spec fn payload_bytes(data: Seq<u32>) -> Seq<u8>
    decreases data.len(),
{
    if data.len() == 0 {
        Seq::empty()
    } else {
        payload_bytes(data.drop_last()) + le_bytes(data.last())
    }
}

/// Appending in two steps is appending the whole.
proof fn appended_twice(a: Seq<u8>, b: Seq<u8>, c: Seq<u8>)
    ensures
        (a + b) + c == a + (b + c),
{
    assert((a + b) + c =~= a + (b + c));
}

/// Appends `bytes` to `out`.
pub fn append(out: &mut Vec<u8>, bytes: &[u8])
    ensures
        final(out)@ == old(out)@ + bytes@,
{
    let mut i: usize = 0;
    assert(old(out)@ + bytes@.take(0) =~= old(out)@);
    while i < bytes.len()
        invariant
            i <= bytes.len(),
            out@ == old(out)@ + bytes@.take(i as int),
        decreases bytes.len() - i,
    {
        out.push(bytes[i]);
        assert(out@ =~= old(out)@ + bytes@.take(i + 1));
        i += 1;
    }
    assert(bytes@.take(i as int) =~= bytes@);
}

/// Appends the header line that gives `key` the value `value`.
pub fn push_entry(out: &mut Vec<u8>, key: &[u8], value: &[u8])
    ensures
        final(out)@ == old(out)@ + entry(key@, value@),
{
    append(out, key);
    out.push(EQUALS);
    append(out, value);
    out.push(LINE_FEED);
    assert(final(out)@ =~= old(out)@ + entry(key@, value@));
}

/// Appends the header line that gives `key` the number `value`.
pub fn push_number_entry(out: &mut Vec<u8>, key: &[u8], value: usize)
    ensures
        final(out)@ == old(out)@ + entry(key@, decimal(value as nat)),
{
    let mut digits: Vec<u8> = Vec::new();
    push_decimal(&mut digits, value);
    assert(digits@ =~= decimal(value as nat));
    push_entry(out, key, digits.as_slice());
}

/// Appends the lines of a written header that do not depend on the
/// extents.
pub fn push_preamble(out: &mut Vec<u8>, ndim: usize)
    ensures
        final(out)@ == old(out)@ + preamble(ndim as nat),
{
    let ghost start = out@;
    append(out, "# AVS FLD file (written by avsfldrs github.com/greyhill/avsfldrs)\n".as_bytes());
    let ghost text = comment_line();
    push_number_entry(out, "ndim".as_bytes(), ndim);
    proof {
        let line = entry("ndim".spec_bytes(), decimal(ndim as nat));
        appended_twice(start, text, line);
        text = text + line;
    }
    push_entry(out, "veclen".as_bytes(), "1".as_bytes());
    proof {
        let line = entry("veclen".spec_bytes(), "1".spec_bytes());
        appended_twice(start, text, line);
        text = text + line;
    }
    push_number_entry(out, "nspace".as_bytes(), ndim);
    proof {
        let line = entry("nspace".spec_bytes(), decimal(ndim as nat));
        appended_twice(start, text, line);
        text = text + line;
    }
    push_entry(out, "field".as_bytes(), "uniform".as_bytes());
    proof {
        let line = entry("field".spec_bytes(), "uniform".spec_bytes());
        appended_twice(start, text, line);
        text = text + line;
    }
    push_entry(out, "data".as_bytes(), "float_le".as_bytes());
    proof {
        let line = entry("data".spec_bytes(), "float_le".spec_bytes());
        appended_twice(start, text, line);
        text = text + line;
    }
}

/// Appends the lines that give the extents `dims`.
pub fn push_dim_lines(out: &mut Vec<u8>, dims: &[usize])
    ensures
        final(out)@ == old(out)@ + dim_lines(dims@),
{
    let mut i: usize = 0;
    assert(dims@.take(0) =~= Seq::<usize>::empty());
    assert(old(out)@ + dim_lines(dims@.take(0)) =~= old(out)@);
    while i < dims.len()
        invariant
            i <= dims.len(),
            out@ == old(out)@ + dim_lines(dims@.take(i as int)),
        decreases dims.len() - i,
    {
        let ghost so_far = dims@.take(i as int);
        let ghost next = dims@.take(i + 1);
        assert(next.drop_last() =~= so_far);
        assert(next.last() == dims@[i as int]);
        let mut key: Vec<u8> = Vec::new();
        append(&mut key, "dim".as_bytes());
        push_decimal(&mut key, i + 1);
        assert(key@ =~= dim_key((i + 1) as nat));
        push_number_entry(out, key.as_slice(), dims[i]);
        proof {
            appended_twice(
                old(out)@,
                dim_lines(so_far),
                entry(dim_key((i + 1) as nat), decimal(dims@[i as int] as nat)),
            );
        }
        i += 1;
    }
    assert(dims@.take(i as int) =~= dims@);
}

/// Appends the header of a field with the extents `dims`.
pub fn push_header(out: &mut Vec<u8>, dims: &[usize])
    ensures
        final(out)@ == old(out)@ + header_text(dims@),
{
    push_preamble(out, dims.len());
    push_dim_lines(out, dims);
    out.push(FORM_FEED);
    out.push(FORM_FEED);
    assert(final(out)@ =~= old(out)@ + header_text(dims@));
}

/// Appends the bytes of the samples `data`.
pub fn push_payload(out: &mut Vec<u8>, data: &[u32])
    ensures
        final(out)@ == old(out)@ + payload_bytes(data@),
{
    let mut i: usize = 0;
    assert(data@.take(0) =~= Seq::<u32>::empty());
    assert(old(out)@ + payload_bytes(data@.take(0)) =~= old(out)@);
    while i < data.len()
        invariant
            i <= data.len(),
            out@ == old(out)@ + payload_bytes(data@.take(i as int)),
        decreases data.len() - i,
    {
        let ghost next = data@.take(i + 1);
        assert(next.drop_last() =~= data@.take(i as int));
        assert(next.last() == data@[i as int]);
        push_word_le(out, data[i]);
        proof {
            appended_twice(old(out)@, payload_bytes(data@.take(i as int)), le_bytes(data@[i as int]));
        }
        i += 1;
    }
    assert(data@.take(i as int) =~= data@);
}

} // verus!
