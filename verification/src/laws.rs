//! What is written can be read: a written header reads back as the
//! extents it was written for, and written samples read back as they were.

use crate::data_type::DataType;
use crate::encode::{comment_line, dim_key, dim_lines, entry, header_text, payload_bytes, preamble};
use crate::error::Error;
use crate::field_type::FieldType;
use crate::file::sample_bytes;
use crate::float::{le_bytes, word_le, word_of_le_bytes};
use crate::header::{Fields, Header, Key, Source, EQUALS, MAX_DIMS};
use crate::number::{decimal, parse_of_decimal};
use crate::scan::{
    lines_then_form_feeds, read_lines, read_lines_concat, read_one_line, spec_open, whole_lines,
    whole_lines_concat, FORM_FEED, LINE_FEED,
};
use crate::shape::product;
use crate::text::{first_index, first_index_is, spec_is_space, spec_trim};
use crate::words::{
    decimal_is_plain, dim_key_is_known, fixed_keys, fixed_texts_are_plain, plain, text_comment,
};
use vstd::prelude::*;
use vstd::string::StringSliceAdditionalSpecFns;

verus! {

/// What the entries of a written header lead to once the first `filled`
/// extents of `dims` were read.
pub open spec fn written_fields(dims: Seq<usize>, filled: nat) -> Fields {
    Fields {
        ndim: Some(dims.len() as usize),
        slots: Seq::new(
            dims.len(),
            |i: int|
                if i < filled {
                    Some(dims[i])
                } else {
                    None
                },
        ),
        data_type: Some(DataType::FloatLE),
        field_type: Some(FieldType::Uniform),
        external: None,
    }
}

/// The header that a field written for the extents `dims` has.
pub open spec fn written_header(dims: Seq<usize>) -> Header {
    Header {
        ndim: dims.len() as usize,
        sizes: dims,
        data_type: DataType::FloatLE,
        field_type: FieldType::Uniform,
        source: Source::Inline(header_text(dims).len()),
    }
}

/// Trimming leaves a plain text as it is.
proof fn trim_of_plain(s: Seq<u8>)
    requires
        plain(s),
    ensures
        spec_trim(s) == s,
{
    if s.len() > 0 {
        assert(!spec_is_space(s[0]));
        assert(!spec_is_space(s[s.len() - 1]));
    }
}

/// A line made of a plain key, `=` and a plain value is the entry of that
/// key and value.
proof fn apply_plain_line(from: Fields, key: Seq<u8>, value: Seq<u8>)
    requires
        plain(key),
        plain(value),
    ensures
        from.apply_line(key + seq![EQUALS] + value) == match Key::spec_from_bytes(key) {
            None => Ok(from),
            Some(k) => from.apply(k, value),
        },
{
    let line = key + seq![EQUALS] + value;
    assert forall|j: int| 0 <= j < key.len() implies line[j] != EQUALS by {
        assert(line[j] == key[j]);
    }
    first_index_is(line, EQUALS, key.len() as int);
    assert(line.take(key.len() as int) =~= key);
    assert(line.skip((key.len() + 1) as int) =~= value);
    trim_of_plain(key);
    trim_of_plain(value);
}

/// After complete lines, the written entry of a plain key and value is
/// read as that entry.
proof fn read_entry_after(from: Fields, text: Seq<u8>, key: Seq<u8>, value: Seq<u8>)
    requires
        whole_lines(text),
        plain(key),
        plain(value),
    ensures
        whole_lines(text + entry(key, value)),
        read_lines(from, text + entry(key, value)) == match read_lines(from, text) {
            Err(e) => Err(e),
            Ok(next) => match Key::spec_from_bytes(key) {
                None => Ok(next),
                Some(k) => next.apply(k, value),
            },
        },
{
    let line = key + seq![EQUALS] + value;
    assert(entry(key, value) =~= line.push(LINE_FEED));
    assert forall|i: int| 0 <= i < line.len() implies line[i] != LINE_FEED && line[i]
        != FORM_FEED by {
        if i < key.len() {
            assert(line[i] == key[i]);
        } else if i > key.len() {
            assert(line[i] == value[i - key.len() - 1]);
        }
    }
    read_lines_concat(from, text, entry(key, value));
    match read_lines(from, text) {
        Err(e) => {},
        Ok(next) => {
            read_one_line(next, line);
            apply_plain_line(next, key, value);
        },
    }
}

/// The comment that opens a written header is one line without `=`, and
/// so changes nothing.
proof fn comment_is_skipped(from: Fields)
    ensures
        whole_lines(comment_line()),
        read_lines(from, comment_line()) == Ok::<Fields, Error>(from),
{
    text_comment();
    let text = comment_line();
    let line = text.drop_last();
    assert(text =~= line.push(LINE_FEED));
    read_one_line(from, line);
    first_index_is(line, EQUALS, line.len() as int);
}

/// What the entries of a written header lead to once the number of
/// dimensions was read.
spec fn announced(dims: Seq<usize>) -> Fields {
    Fields {
        ndim: Some(dims.len() as usize),
        slots: Seq::new(dims.len(), |i: int| None::<usize>),
        ..Fields::empty()
    }
}

/// The first lines of a written header, from the comment to the number of
/// coordinates.
spec fn opening(ndim: nat) -> Seq<u8> {
    comment_line() + entry("ndim".spec_bytes(), decimal(ndim)) + entry(
        "veclen".spec_bytes(),
        "1".spec_bytes(),
    ) + entry("nspace".spec_bytes(), decimal(ndim))
}

/// The first lines of a written header announce the number of dimensions
/// and nothing else.
#[verifier::rlimit(30)]
proof fn opening_is_read(dims: Seq<usize>)
    requires
        dims.len() <= usize::MAX,
    ensures
        whole_lines(opening(dims.len())),
        read_lines(Fields::empty(), opening(dims.len())) == Ok::<Fields, Error>(announced(dims)),
{
    let n = dims.len();
    let start = Fields::empty();
    fixed_texts_are_plain();
    fixed_keys();
    decimal_is_plain(n);
    parse_of_decimal(n as usize);
    comment_is_skipped(start);
    let t0 = comment_line();
    read_entry_after(start, t0, "ndim".spec_bytes(), decimal(n));
    let t1 = t0 + entry("ndim".spec_bytes(), decimal(n));
    let ndim = start.apply(Key::Ndim, decimal(n))->Ok_0;
    assert(ndim.slots =~= announced(dims).slots);
    assert(read_lines(start, t1) == Ok::<Fields, Error>(announced(dims)));
    read_entry_after(start, t1, "veclen".spec_bytes(), "1".spec_bytes());
    let t2 = t1 + entry("veclen".spec_bytes(), "1".spec_bytes());
    assert(read_lines(start, t2) == Ok::<Fields, Error>(announced(dims)));
    read_entry_after(start, t2, "nspace".spec_bytes(), decimal(n));
}

/// The lines of a written header up to the extents announce the number of
/// dimensions, the encoding and the kind of field.
#[verifier::rlimit(30)]
proof fn preamble_is_read(dims: Seq<usize>)
    requires
        dims.len() <= usize::MAX,
    ensures
        whole_lines(preamble(dims.len())),
        read_lines(Fields::empty(), preamble(dims.len())) == Ok::<Fields, Error>(
            written_fields(dims, 0),
        ),
{
    let n = dims.len();
    let start = Fields::empty();
    fixed_texts_are_plain();
    fixed_keys();
    opening_is_read(dims);
    let t3 = opening(n);
    read_entry_after(start, t3, "field".spec_bytes(), "uniform".spec_bytes());
    let t4 = t3 + entry("field".spec_bytes(), "uniform".spec_bytes());
    let field = announced(dims).apply(Key::Field, "uniform".spec_bytes())->Ok_0;
    assert(read_lines(start, t4) == Ok::<Fields, Error>(field));
    read_entry_after(start, t4, "data".spec_bytes(), "float_le".spec_bytes());
    let data = field.apply(Key::Data, "float_le".spec_bytes())->Ok_0;
    assert(data.slots =~= written_fields(dims, 0).slots);
}

/// The lines of a written header that give the first `filled` extents
/// fill the slots of these extents.
#[verifier::rlimit(30)]
proof fn dim_lines_are_read(dims: Seq<usize>, filled: nat)
    requires
        filled <= dims.len() <= MAX_DIMS,
    ensures
        whole_lines(dim_lines(dims.take(filled as int))),
        read_lines(written_fields(dims, 0), dim_lines(dims.take(filled as int))) == Ok::<
            Fields,
            Error,
        >(written_fields(dims, filled)),
    decreases filled,
{
    let start = written_fields(dims, 0);
    if filled == 0 {
        assert(dim_lines(dims.take(0)) =~= Seq::<u8>::empty());
        assert(first_index(Seq::<u8>::empty(), LINE_FEED) == 0);
    } else {
        let before = (filled - 1) as nat;
        let shorter = dims.take(before as int);
        let these = dims.take(filled as int);
        assert(these.drop_last() =~= shorter);
        assert(these.last() == dims[before as int]);
        dim_lines_are_read(dims, before);
        dim_key_is_known(filled);
        decimal_is_plain(dims[before as int] as nat);
        parse_of_decimal(dims[before as int]);
        read_entry_after(
            start,
            dim_lines(shorter),
            dim_key(filled),
            decimal(dims[before as int] as nat),
        );
        let was = written_fields(dims, before);
        let now = was.apply(Key::Dim(before as usize), decimal(dims[before as int] as nat))->Ok_0;
        assert(now.slots =~= written_fields(dims, filled).slots);
    }
}

/// The lines of a written header for at most seven extents are complete
/// and lead to these extents.
proof fn written_lines_are_read(dims: Seq<usize>)
    requires
        dims.len() <= MAX_DIMS,
    ensures
        whole_lines(preamble(dims.len()) + dim_lines(dims)),
        read_lines(Fields::empty(), preamble(dims.len()) + dim_lines(dims)) == Ok::<
            Fields,
            Error,
        >(written_fields(dims, dims.len())),
{
    preamble_is_read(dims);
    dim_lines_are_read(dims, dims.len());
    assert(dims.take(dims.len() as int) =~= dims);
    read_lines_concat(Fields::empty(), preamble(dims.len()), dim_lines(dims));
    whole_lines_concat(preamble(dims.len()), dim_lines(dims));
}

/// The entries of a written header are complete and describe the written
/// extents.
proof fn written_fields_finish(dims: Seq<usize>, end: nat)
    requires
        dims.len() <= MAX_DIMS,
    ensures
        written_fields(dims, dims.len()).finish(end) == Ok::<Header, Error>(
            Header {
                ndim: dims.len() as usize,
                sizes: dims,
                data_type: DataType::FloatLE,
                field_type: FieldType::Uniform,
                source: Source::Inline(end),
            },
        ),
{
    let fields = written_fields(dims, dims.len());
    assert(fields.complete());
    assert(fields.finish(end)->Ok_0.sizes =~= dims);
}

/// A field written for at most seven extents opens as a field with these
/// extents whose samples are single-precision numbers stored lowest byte
/// first and start right after the written header, whatever follows the
/// header.
pub proof fn written_header_opens(dims: Seq<usize>, payload: Seq<u8>)
    requires
        dims.len() <= MAX_DIMS,
    ensures
        spec_open(header_text(dims) + payload) == Ok::<Header, Error>(written_header(dims)),
{
    let lines = preamble(dims.len()) + dim_lines(dims);
    written_lines_are_read(dims);
    lines_then_form_feeds(lines, payload);
    written_fields_finish(dims, lines.len() + 2);
}

/// The bytes of written samples are four for each sample, and those of
/// one sample are its bytes, lowest first.
pub proof fn payload_bytes_of_each(data: Seq<u32>, i: int)
    requires
        0 <= i < data.len(),
    ensures
        payload_bytes(data).len() == 4 * data.len(),
        sample_bytes(payload_bytes(data), 4, i) == le_bytes(data[i]),
    decreases data.len(),
{
    let shorter = data.drop_last();
    let bytes = payload_bytes(data);
    if shorter.len() > 0 {
        payload_bytes_of_each(shorter, 0);
    }
    assert(payload_bytes(shorter).len() == 4 * shorter.len());
    if i < shorter.len() {
        payload_bytes_of_each(shorter, i);
        assert(sample_bytes(bytes, 4, i) =~= sample_bytes(payload_bytes(shorter), 4, i));
    } else {
        assert(sample_bytes(bytes, 4, i) =~= le_bytes(data[i]));
    }
}

/// Written samples read back as they were, with conversion and without:
/// a field of single-precision numbers stored lowest byte first, with as
/// many samples as were written, reads the written bytes as those samples.
pub proof fn written_payload_reads_back(header: Header, data: Seq<u32>)
    requires
        header.data_type == DataType::FloatLE,
        header.count() == data.len(),
    ensures
        header.read_to_f32(payload_bytes(data)) == Ok::<Seq<u32>, Error>(data),
        header.read::<u32>(payload_bytes(data)) == Ok::<Seq<u32>, Error>(data),
{
    let bytes = payload_bytes(data);
    if data.len() > 0 {
        payload_bytes_of_each(data, 0);
    }
    assert(bytes.len() == 4 * data.len());
    assert forall|i: int| 0 <= i < data.len() implies word_le(sample_bytes(bytes, 4, i))
        == data[i] by {
        payload_bytes_of_each(data, i);
        word_of_le_bytes(data[i]);
    }
    assert(header.read_to_f32(bytes)->Ok_0 =~= data);
    assert(header.read::<u32>(bytes)->Ok_0 =~= data);
}

/// A field written for at most seven extents and as many samples as the
/// extents ask for reads back as it was written: opening the written
/// bytes gives the extents, and reading what follows the header gives the
/// samples.
pub proof fn written_field_reads_back(dims: Seq<usize>, data: Seq<u32>)
    requires
        dims.len() <= MAX_DIMS,
        data.len() == product(dims),
    ensures
        ({
            let stream = header_text(dims) + payload_bytes(data);
            let start = header_text(dims).len() as int;
            &&& spec_open(stream) == Ok::<Header, Error>(written_header(dims))
            &&& written_header(dims).read_to_f32(stream.skip(start)) == Ok::<Seq<u32>, Error>(
                data,
            )
        }),
{
    let stream = header_text(dims) + payload_bytes(data);
    let start = header_text(dims).len() as int;
    written_header_opens(dims, payload_bytes(data));
    written_payload_reads_back(written_header(dims), data);
    assert(stream.skip(start) =~= payload_bytes(data));
}

} // verus!
