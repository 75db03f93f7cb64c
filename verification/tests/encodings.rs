use avsfldrs::encode::{
    append, push_dim_lines, push_entry, push_header, push_number_entry, push_payload,
    push_preamble,
};
use avsfldrs::float::{float_of_byte, push_word_le, read_word_be, read_word_le};
use avsfldrs::{DataType, Error, FieldType, Sample};

#[test]
fn big_endian_pi() {
    let bytes = [0x40u8, 0x49, 0x0f, 0xdb];
    let big = f32::from_bits(DataType::XDRFloat.convert_to_f32(&bytes));
    assert_eq!(big, std::f32::consts::PI);
    assert!((big - 3.14159).abs() < 1e-5);
    let little = f32::from_bits(DataType::FloatLE.convert_to_f32(&bytes));
    assert_ne!(little, big);
    assert_eq!(little, f32::from_le_bytes(bytes));
    assert!(little.abs() > 1e15);
}

#[test]
fn byte_widening() {
    let bits = DataType::Byte.convert_to_f32(&[200]);
    assert_eq!(f32::from_bits(bits), 200.0);
    assert_eq!(bits, 0x4348_0000);
}

#[test]
fn every_byte_widens_to_its_value() {
    for b in 0..=255u8 {
        assert_eq!(float_of_byte(b), (b as f32).to_bits());
        assert_eq!(DataType::Byte.convert_to_f32(&[b, 0xff]), (b as f32).to_bits());
    }
}

#[test]
fn words_follow_the_byte_order() {
    let bytes = [0x12u8, 0x34, 0x56, 0x78, 0x9a];
    assert_eq!(read_word_le(&bytes), 0x7856_3412);
    assert_eq!(read_word_be(&bytes), 0x1234_5678);
    assert_eq!(read_word_le(&bytes), u32::from_le_bytes([0x12, 0x34, 0x56, 0x78]));
    assert_eq!(read_word_be(&bytes), u32::from_be_bytes([0x12, 0x34, 0x56, 0x78]));
    let mut out = vec![1u8];
    push_word_le(&mut out, 0x7856_3412);
    assert_eq!(out, vec![1, 0x12, 0x34, 0x56, 0x78]);
    let mut all = Vec::new();
    push_word_le(&mut all, u32::MAX);
    push_word_le(&mut all, 0);
    assert_eq!(all, vec![255, 255, 255, 255, 0, 0, 0, 0]);
}

#[test]
fn data_type_names() {
    assert_eq!(DataType::from_str("float_le"), Ok(DataType::FloatLE));
    assert_eq!(DataType::from_str("xdr_float"), Ok(DataType::XDRFloat));
    assert_eq!(DataType::from_str("byte"), Ok(DataType::Byte));
    assert_eq!(DataType::from_str("Byte"), Err(Error::DataType));
    assert_eq!(DataType::from_str(""), Err(Error::DataType));
    assert_eq!(DataType::from_str("float_le "), Err(Error::DataType));
    assert_eq!(DataType::from_bytes(b"xdr_float"), Ok(DataType::XDRFloat));
    assert_eq!(DataType::from_bytes(b"xdr"), Err(Error::DataType));
}

#[test]
fn data_type_widths() {
    assert_eq!(DataType::XDRFloat.num_bytes(), 4);
    assert_eq!(DataType::FloatLE.num_bytes(), 4);
    assert_eq!(DataType::Byte.num_bytes(), 1);
}

#[test]
fn field_type_names() {
    assert_eq!(FieldType::from_str("uniform"), Ok(FieldType::Uniform));
    assert_eq!(FieldType::from_str("rectilinear"), Err(Error::FieldType));
    assert_eq!(FieldType::from_str("Uniform"), Err(Error::FieldType));
    assert_eq!(FieldType::from_bytes(b"uniform"), Ok(FieldType::Uniform));
    assert_eq!(FieldType::from_bytes(b""), Err(Error::FieldType));
}

#[test]
fn sample_types() {
    assert_eq!(<u8 as Sample>::width(), 1);
    assert_eq!(<u32 as Sample>::width(), 4);
    assert_eq!(<u8 as Sample>::from_raw(&[7, 8]), 7);
    assert_eq!(<u32 as Sample>::from_raw(&[1, 0, 0, 0, 9]), 1);
}

#[test]
fn written_word_reads_back() {
    for w in [0u32, 1, 0xff, 0x100, 0x1234_5678, 0x8000_0000, u32::MAX] {
        let mut out = Vec::new();
        push_word_le(&mut out, w);
        assert_eq!(out, w.to_le_bytes().to_vec());
        assert_eq!(read_word_le(&out), w);
        assert_eq!(read_word_be(&out), w.swap_bytes());
    }
}

#[test]
fn header_lines_are_written() {
    let mut out = b"a".to_vec();
    append(&mut out, b"bc");
    assert_eq!(out, b"abc");
    push_entry(&mut out, b"key", b"value");
    assert_eq!(out, b"abckey=value\n");
    let mut out = Vec::new();
    push_number_entry(&mut out, b"ndim", 12);
    assert_eq!(out, b"ndim=12\n");
    let mut out = Vec::new();
    push_dim_lines(&mut out, &[5, 0, 123]);
    assert_eq!(out, b"dim1=5\ndim2=0\ndim3=123\n");
    let mut out = Vec::new();
    push_preamble(&mut out, 3);
    assert_eq!(
        out,
        b"# AVS FLD file (written by avsfldrs github.com/greyhill/avsfldrs)\nndim=3\nveclen=1\nnspace=3\nfield=uniform\ndata=float_le\n".to_vec()
    );
    let mut whole = Vec::new();
    push_header(&mut whole, &[5, 0, 123]);
    let mut expected = out.clone();
    expected.extend_from_slice(b"dim1=5\ndim2=0\ndim3=123\n\x0c\x0c");
    assert_eq!(whole, expected);
    let mut out = vec![9u8];
    push_payload(&mut out, &[1, 0x0203_0405]);
    assert_eq!(out, vec![9, 1, 0, 0, 0, 5, 4, 3, 2]);
}

#[test]
fn twelve_dimensions_are_written_with_two_digits() {
    let mut out = Vec::new();
    push_dim_lines(&mut out, &[1; 12]);
    assert!(out.ends_with(b"dim9=1\ndim10=1\ndim11=1\ndim12=1\n"));
}
