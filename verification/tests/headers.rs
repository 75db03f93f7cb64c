use avsfldrs::number::{parse_usize, push_decimal};
use avsfldrs::text::{bytes_eq, find_byte, is_space, trim};
use avsfldrs::{AVSFile, DataType, Draft, Error, HeaderParser, Key, PayloadSource, Status};

fn feed(parser: &mut HeaderParser, bytes: &[u8]) -> Status {
    let mut status = parser.status();
    for b in bytes {
        status = parser.push(*b);
    }
    status
}

#[test]
fn sentinel_ends_the_header_mid_line() {
    let stream = b"ndim=1\ndim1=3\ndata=byte\nfield=uniform\ndim1=12\x0c\x0c\x01\x02\x03";
    let mut parser = HeaderParser::new();
    let end = stream.len() - 3;
    assert_eq!(feed(&mut parser, &stream[..end - 1]), Status::More);
    assert_eq!(parser.push(stream[end - 1]), Status::Ended);
    assert_eq!(parser.push(b'\n'), Status::Ended);
    let file = parser.finish().unwrap();
    assert_eq!(file.source, PayloadSource::Inline(end));
    assert_eq!(file.sizes, vec![3]);
    assert_eq!(AVSFile::open(stream).unwrap(), file);
}

#[test]
fn sentinel_inside_a_value() {
    let stream = b"ndim=1\ndata=byte\nfield=uniform\ndim1=1\x0c\x0c2\n";
    assert_eq!(AVSFile::open(stream), Err(Error::Malformed));
    let whole = b"ndim=1\ndata=byte\nfield=uniform\ndim1=1\x0c2\n\x0c\x0c";
    assert_eq!(AVSFile::open(whole), Err(Error::Parse));
}

#[test]
fn form_feeds_must_be_adjacent() {
    let stream = b"ndim=0\ndata=byte\x0c\nfield=uniform\x0c\n\x0c \x0c\n";
    assert_eq!(AVSFile::open(stream), Err(Error::IO));
    let mut parser = HeaderParser::new();
    assert_eq!(feed(&mut parser, stream), Status::More);
    assert_eq!(parser.push(12), Status::More);
    assert_eq!(parser.push(12), Status::Ended);
    let file = parser.finish().unwrap();
    assert_eq!(file.data_type, DataType::Byte);
    assert_eq!(file.source, PayloadSource::Inline(stream.len() + 2));
}

#[test]
fn stream_without_form_feeds_is_an_io_error() {
    assert_eq!(AVSFile::open(b""), Err(Error::IO));
    assert_eq!(AVSFile::open(b"ndim=1\ndim1=1\ndata=byte\nfield=uniform\n"), Err(Error::IO));
    assert_eq!(AVSFile::open(b"ndim=1\n\x0c"), Err(Error::IO));
}

#[test]
fn value_errors_are_told_apart() {
    assert_eq!(AVSFile::open(b"ndim=two\n\x0c\x0c"), Err(Error::Parse));
    assert_eq!(AVSFile::open(b"ndim=1\ndim1=-4\n\x0c\x0c"), Err(Error::Parse));
    assert_eq!(AVSFile::open(b"ndim=1\ndim1=\n\x0c\x0c"), Err(Error::Parse));
    assert_eq!(AVSFile::open(b"data=double\n\x0c\x0c"), Err(Error::DataType));
    assert_eq!(AVSFile::open(b"field=irregular\n\x0c\x0c"), Err(Error::FieldType));
    assert_eq!(AVSFile::open(b"ndim=1\ndata=byte\n\x0c\x0c"), Err(Error::Malformed));
}

#[test]
fn first_error_in_the_stream_wins() {
    assert_eq!(AVSFile::open(b"data=double\nndim=x\n\x0c\x0c"), Err(Error::DataType));
    assert_eq!(AVSFile::open(b"ndim=x\ndata=double\n\x0c\x0c"), Err(Error::Parse));
    assert_eq!(AVSFile::open(b"ndim=x\n"), Err(Error::Parse));
    let mut parser = HeaderParser::new();
    assert_eq!(feed(&mut parser, b"field=none"), Status::More);
    assert_eq!(parser.push(b'\n'), Status::Failed(Error::FieldType));
    assert_eq!(feed(&mut parser, b"\x0c\x0c"), Status::Failed(Error::FieldType));
    assert_eq!(parser.finish(), Err(Error::FieldType));
}

#[test]
fn extent_before_its_slot_exists() {
    assert_eq!(AVSFile::open(b"dim1=4\nndim=1\n\x0c\x0c"), Err(Error::Malformed));
    assert_eq!(AVSFile::open(b"ndim=1\ndim2=4\n\x0c\x0c"), Err(Error::Malformed));
    assert_eq!(AVSFile::open(b"dim1=x\nndim=1\n\x0c\x0c"), Err(Error::Parse));
}

#[test]
fn more_than_seven_dimensions() {
    let header = b"ndim=8\ndim1=1\ndim2=1\ndim3=1\ndim4=1\ndim5=1\ndim6=1\ndim7=1\ndim8=1\ndata=byte\nfield=uniform\n\x0c\x0c";
    assert_eq!(AVSFile::open(header), Err(Error::Malformed));
    let seven = b"ndim=7\ndim1=1\ndim2=2\ndim3=3\ndim4=4\ndim5=5\ndim6=6\ndim7=7\ndata=byte\nfield=uniform\n\x0c\x0c";
    assert_eq!(AVSFile::open(seven).unwrap().sizes, vec![1, 2, 3, 4, 5, 6, 7]);
    let huge = b"ndim=18446744073709551615\ndim7=1\ndata=byte\nfield=uniform\n\x0c\x0c";
    assert_eq!(AVSFile::open(huge), Err(Error::Malformed));
}

#[test]
fn each_ndim_adds_slots() {
    let header = b"ndim=1\ndim1=5\nndim=2\ndim3=7\ndim2=6\ndata=byte\nfield=uniform\n\x0c\x0c";
    let file = AVSFile::open(header).unwrap();
    assert_eq!(file.ndim, 2);
    assert_eq!(file.sizes, vec![5, 6]);
}

#[test]
fn unknown_lines_are_ignored() {
    let header = b"# a comment\nveclen=1\nnspace = 2\nndim\nlabel=a=b\n\nndim = 1 \n dim1\t=\t4\r\ndata= byte\nfield =uniform\n\x0c\x0c";
    let file = AVSFile::open(header).unwrap();
    assert_eq!(file.ndim, 1);
    assert_eq!(file.sizes, vec![4]);
}

#[test]
fn value_is_all_after_the_first_equals() {
    let header = b"ndim=0\ndata=byte\nfield=uniform\nvariable 1 file = a=b.raw \n\x0c\x0c";
    let file = AVSFile::open(header).unwrap();
    assert_eq!(file.source, PayloadSource::External("a=b.raw".to_string()));
    assert_eq!(AVSFile::open(b"ndim=1=2\n\x0c\x0c"), Err(Error::Parse));
}

#[test]
fn external_name_takes_bytes_as_characters() {
    let header = b"ndim=0\ndata=byte\nfield=uniform\nvariable 1 file=\xe9t\xe9 1.raw\xa0\n\x0c\x0c";
    let file = AVSFile::open(header).unwrap();
    assert_eq!(file.source, PayloadSource::External("\u{e9}t\u{e9} 1.raw".to_string()));
}

#[test]
fn later_entries_replace_earlier_ones() {
    let header = b"ndim=1\ndim1=1\ndim1=9\ndata=byte\ndata=xdr_float\nfield=uniform\n\x0c\x0c";
    let file = AVSFile::open(header).unwrap();
    assert_eq!(file.sizes, vec![9]);
    assert_eq!(file.data_type, DataType::XDRFloat);
}

#[test]
fn draft_takes_lines() {
    let mut draft = Draft::new();
    assert_eq!(draft.apply_line(b"no entry"), Ok(()));
    assert_eq!(draft.apply_line(b"ndim = 2"), Ok(()));
    assert_eq!(draft.apply_line(b"dim3 = 2"), Err(Error::Malformed));
    assert_eq!(draft.apply_line(b"dim2 = x"), Err(Error::Parse));
    assert_eq!(draft.apply(Key::Dim(0), b"4"), Ok(()));
    assert_eq!(draft.apply(Key::Dim(1), b"+5"), Ok(()));
    assert_eq!(draft.apply(Key::Data, b"byte"), Ok(()));
    assert_eq!(draft.apply(Key::Field, b"uniform"), Ok(()));
    let file = draft.finish(17).unwrap();
    assert_eq!(file.sizes, vec![4, 5]);
    assert_eq!(file.source, PayloadSource::Inline(17));
}

#[test]
fn keys_are_spelled_exactly() {
    assert_eq!(Key::from_bytes(b"ndim"), Some(Key::Ndim));
    assert_eq!(Key::from_bytes(b"dim1"), Some(Key::Dim(0)));
    assert_eq!(Key::from_bytes(b"dim7"), Some(Key::Dim(6)));
    assert_eq!(Key::from_bytes(b"dim8"), None);
    assert_eq!(Key::from_bytes(b"dim0"), None);
    assert_eq!(Key::from_bytes(b"data"), Some(Key::Data));
    assert_eq!(Key::from_bytes(b"field"), Some(Key::Field));
    assert_eq!(Key::from_bytes(b"variable 1 file"), Some(Key::External));
    assert_eq!(Key::from_bytes(b"variable 2 file"), None);
    assert_eq!(Key::from_bytes(b"NDIM"), None);
    assert_eq!(Key::from_bytes(b""), None);
}

#[test]
fn numbers_are_read() {
    assert_eq!(parse_usize(b"0"), Some(0));
    assert_eq!(parse_usize(b"12"), Some(12));
    assert_eq!(parse_usize(b"+12"), Some(12));
    assert_eq!(parse_usize(b"007"), Some(7));
    assert_eq!(parse_usize(b""), None);
    assert_eq!(parse_usize(b"+"), None);
    assert_eq!(parse_usize(b"-1"), None);
    assert_eq!(parse_usize(b"++1"), None);
    assert_eq!(parse_usize(b"1 2"), None);
    assert_eq!(parse_usize(b"12a"), None);
    assert_eq!(parse_usize(b"1.5"), None);
    let max = format!("{}", usize::MAX);
    assert_eq!(parse_usize(max.as_bytes()), Some(usize::MAX));
    let over = format!("{}0", usize::MAX);
    assert_eq!(parse_usize(over.as_bytes()), None);
    assert_eq!(parse_usize(b"18446744073709551616"), "18446744073709551616".parse::<usize>().ok());
    for text in ["5", "+5", "-5", "", "+", " 5", "5 ", "0x10", "99999999999999999999999"] {
        assert_eq!(parse_usize(text.as_bytes()), text.parse::<usize>().ok());
    }
}

#[test]
fn numbers_are_written_and_read_back() {
    for n in [0usize, 1, 9, 10, 11, 99, 100, 12345, usize::MAX - 1, usize::MAX] {
        let mut out = vec![b'x'];
        push_decimal(&mut out, n);
        assert_eq!(out, format!("x{}", n).into_bytes());
        assert_eq!(parse_usize(&out[1..]), Some(n));
    }
}

#[test]
fn white_space_is_trimmed() {
    assert_eq!(trim(b"  a b \t\r\n"), b"a b");
    assert_eq!(trim(b""), b"");
    assert_eq!(trim(b" \x0b\x0c "), b"");
    assert_eq!(trim(b"a"), b"a");
    assert_eq!(trim(b"\xa0a\x85"), b"a");
    for b in 0..=255u8 {
        assert_eq!(is_space(b), (b as char).is_whitespace());
    }
}

#[test]
fn bytes_are_found_and_compared() {
    assert_eq!(find_byte(b"a=b=c", b'='), Some(1));
    assert_eq!(find_byte(b"abc", b'='), None);
    assert_eq!(find_byte(b"", b'='), None);
    assert_eq!(find_byte(b"=", b'='), Some(0));
    assert!(bytes_eq(b"abc", b"abc"));
    assert!(!bytes_eq(b"abc", b"abd"));
    assert!(!bytes_eq(b"abc", b"ab"));
    assert!(bytes_eq(b"", b""));
}

#[test]
fn bytes_become_characters() {
    assert_eq!(avsfldrs::draft::string_of(b"a/b.raw"), "a/b.raw");
    assert_eq!(avsfldrs::draft::string_of(b""), "");
    assert_eq!(avsfldrs::draft::string_of(&[0x41, 0xe9, 0xff]), "A\u{e9}\u{ff}");
}

#[test]
fn new_reader_wants_more() {
    let parser = HeaderParser::new();
    assert_eq!(parser.status(), Status::More);
    assert_eq!(parser.finish(), Err(Error::IO));
}

#[test]
fn reader_stops_taking_bytes_at_the_end() {
    let mut parser = HeaderParser::new();
    assert_eq!(feed(&mut parser, b"ndim=0\ndata=byte\nfield=uniform\n\x0c"), Status::More);
    assert_eq!(parser.push(12), Status::Ended);
    assert_eq!(feed(&mut parser, b"ndim=x\n\x0c\x0c"), Status::Ended);
    assert_eq!(parser.finish().unwrap().source, PayloadSource::Inline(33));
}

#[test]
fn reader_and_whole_stream_agree() {
    let streams: [&[u8]; 6] = [
        b"ndim=1\ndim1=2\ndata=byte\nfield=uniform\n\x0c\x0c\x01\x02",
        b"ndim=1\ndim1=2\n\x0c\x0c",
        b"ndim=1\ndim1=2\ndata=byte\nfield=uniform\n",
        b"data=nothing\n\x0c\x0c",
        b"\x0c\x0c",
        b"\x0c\n\x0c\x0c\x0c",
    ];
    for stream in streams {
        let mut parser = HeaderParser::new();
        feed(&mut parser, stream);
        assert_eq!(parser.finish(), AVSFile::open(stream));
    }
}

#[test]
fn draft_keeps_the_name_of_the_payload_file() {
    let mut draft = Draft::new();
    assert_eq!(draft.apply_line(b"ndim=0"), Ok(()));
    assert_eq!(draft.apply_line(b"data=float_le"), Ok(()));
    assert_eq!(draft.apply_line(b"field=uniform"), Ok(()));
    assert_eq!(draft.apply_line(b"field=other"), Err(Error::FieldType));
    assert_eq!(draft.apply_line(b"data=other"), Err(Error::DataType));
    assert_eq!(draft.apply(Key::External, b"x y"), Ok(()));
    let file = draft.finish(3).unwrap();
    assert_eq!(file.source, PayloadSource::External("x y".to_string()));
    assert_eq!(file.data_type, DataType::FloatLE);
}

#[test]
fn empty_draft_is_not_complete() {
    assert_eq!(Draft::new().finish(0), Err(Error::Malformed));
}
