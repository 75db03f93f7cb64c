use avsfldrs::shape::{count_within, element_count};
use avsfldrs::{AVSFile, DataType, Error, FieldType, PayloadSource};

fn bits(values: &[f32]) -> Vec<u32> {
    values.iter().map(|v| v.to_bits()).collect()
}

fn floats(words: &[u32]) -> Vec<f32> {
    words.iter().map(|w| f32::from_bits(*w)).collect()
}

#[test]
fn round_trip_two_by_three() {
    let data = [1.0f32, 2.0, 3.0, 4.0, 5.0, 6.0];
    let mut stream = Vec::new();
    assert_eq!(AVSFile::write(&mut stream, &[2, 3], &bits(&data)), Ok(()));
    let file = AVSFile::open(&stream).unwrap();
    assert_eq!(file.ndim, 2);
    assert_eq!(file.sizes, vec![2, 3]);
    assert_eq!(file.data_type, DataType::FloatLE);
    assert_eq!(file.field_type, FieldType::Uniform);
    let start = match file.source {
        PayloadSource::Inline(start) => start,
        PayloadSource::External(_) => panic!("the payload is inline"),
    };
    assert_eq!(start, stream.len() - 24);
    let back = file.read_to_f32(&stream[start..]).unwrap();
    assert_eq!(back, bits(&data));
    assert_eq!(floats(&back), data.to_vec());
}

#[test]
fn written_bytes_are_exact() {
    let mut stream = Vec::new();
    AVSFile::write(&mut stream, &[2, 3], &[0x3f80_0000, 0x0102_0304]).unwrap();
    let mut expected = Vec::new();
    expected.extend_from_slice(
        b"# AVS FLD file (written by avsfldrs github.com/greyhill/avsfldrs)\n",
    );
    expected.extend_from_slice(b"ndim=2\nveclen=1\nnspace=2\nfield=uniform\ndata=float_le\n");
    expected.extend_from_slice(b"dim1=2\ndim2=3\n\x0c\x0c");
    expected.extend_from_slice(&[0x00, 0x00, 0x80, 0x3f, 0x04, 0x03, 0x02, 0x01]);
    assert_eq!(stream, expected);
}

#[test]
fn write_appends_to_what_is_there() {
    let mut stream = vec![7u8, 8, 9];
    AVSFile::write(&mut stream, &[], &[]).unwrap();
    let mut expected = vec![7u8, 8, 9];
    expected.extend_from_slice(
        b"# AVS FLD file (written by avsfldrs github.com/greyhill/avsfldrs)\n",
    );
    expected.extend_from_slice(b"ndim=0\nveclen=1\nnspace=0\nfield=uniform\ndata=float_le\n\x0c\x0c");
    assert_eq!(stream, expected);
}

#[test]
fn dimension_ordering() {
    let header = b"ndim=3\ndim1=2\ndim2=3\ndim3=4\ndata=byte\nfield=uniform\n\x0c\x0c";
    let file = AVSFile::open(header).unwrap();
    assert_eq!(file.sizes, vec![2, 3, 4]);
    assert_eq!(element_count(&file.sizes), Some(24));
    let payload: Vec<u8> = (0..24).collect();
    assert_eq!(file.read::<u8>(&payload).unwrap(), payload);
}

#[test]
fn dimensions_given_out_of_order() {
    let header = b"ndim=3\ndim3=4\ndim1=2\ndim2=3\ndata=byte\nfield=uniform\n\x0c\x0c";
    let file = AVSFile::open(header).unwrap();
    assert_eq!(file.sizes, vec![2, 3, 4]);
}

#[test]
fn missing_keys_are_malformed() {
    let header = b"ndim=2\ndim1=5\n\x0c\x0c";
    assert_eq!(AVSFile::open(header), Err(Error::Malformed));
}

#[test]
fn each_missing_entry_is_malformed() {
    let no_ndim = b"data=byte\nfield=uniform\n\x0c\x0c";
    assert_eq!(AVSFile::open(no_ndim), Err(Error::Malformed));
    let no_data = b"ndim=1\ndim1=2\nfield=uniform\n\x0c\x0c";
    assert_eq!(AVSFile::open(no_data), Err(Error::Malformed));
    let no_field = b"ndim=1\ndim1=2\ndata=byte\n\x0c\x0c";
    assert_eq!(AVSFile::open(no_field), Err(Error::Malformed));
    let no_dim = b"ndim=2\ndim2=2\ndata=byte\nfield=uniform\n\x0c\x0c";
    assert_eq!(AVSFile::open(no_dim), Err(Error::Malformed));
}

#[test]
fn external_payload_is_named() {
    let header =
        b"ndim=1\ndim1=2\ndata=byte\nfield=uniform\nvariable 1 file = payload.raw\n\x0c\x0c\x01\x02";
    let file = AVSFile::open(header).unwrap();
    assert_eq!(file.source, PayloadSource::External("payload.raw".to_string()));
    assert_eq!(file.sizes, vec![2]);
}

#[test]
fn inline_payload_starts_after_the_form_feeds() {
    let header = b"ndim=1\ndim1=2\ndata=byte\nfield=uniform\n\x0c\x0c\x01\x02";
    let file = AVSFile::open(header).unwrap();
    assert_eq!(file.source, PayloadSource::Inline(header.len() - 2));
    let start = header.len() - 2;
    assert_eq!(file.read_to_f32(&header[start..]).unwrap(), bits(&[1.0, 2.0]));
}

#[test]
fn short_payload_is_malformed() {
    let file = AVSFile {
        ndim: 1,
        sizes: vec![10],
        data_type: DataType::FloatLE,
        field_type: FieldType::Uniform,
        source: PayloadSource::Inline(0),
    };
    assert_eq!(file.read_to_f32(&[0u8; 36]), Err(Error::Malformed));
    assert_eq!(file.read::<u32>(&[0u8; 36]), Err(Error::Malformed));
    assert_eq!(file.read_to_f32(&[0u8; 40]).unwrap().len(), 10);
    assert_eq!(file.read::<u32>(&[0u8; 40]).unwrap().len(), 10);
}

#[test]
fn empty_payload_is_valid() {
    let file = AVSFile {
        ndim: 2,
        sizes: vec![5, 0],
        data_type: DataType::XDRFloat,
        field_type: FieldType::Uniform,
        source: PayloadSource::Inline(0),
    };
    assert_eq!(file.read_to_f32(&[]), Ok(vec![]));
    assert_eq!(file.read::<u32>(&[]), Ok(vec![]));
}

#[test]
fn zero_extent_hides_huge_extents() {
    let file = AVSFile {
        ndim: 3,
        sizes: vec![usize::MAX, usize::MAX, 0],
        data_type: DataType::Byte,
        field_type: FieldType::Uniform,
        source: PayloadSource::Inline(0),
    };
    assert_eq!(file.read_to_f32(&[1, 2, 3]), Ok(vec![]));
}

#[test]
fn huge_field_is_too_short() {
    let file = AVSFile {
        ndim: 2,
        sizes: vec![usize::MAX, 2],
        data_type: DataType::Byte,
        field_type: FieldType::Uniform,
        source: PayloadSource::Inline(0),
    };
    assert_eq!(file.read_to_f32(&[1, 2, 3]), Err(Error::Malformed));
    assert_eq!(file.read::<u8>(&[1, 2, 3]), Err(Error::Malformed));
}

#[test]
fn no_dimensions_is_one_sample() {
    let header = b"ndim=0\ndata=byte\nfield=uniform\n\x0c\x0c\x07";
    let file = AVSFile::open(header).unwrap();
    assert_eq!(file.ndim, 0);
    assert_eq!(file.sizes, Vec::<usize>::new());
    assert_eq!(file.read_to_f32(&[7]).unwrap(), bits(&[7.0]));
    assert_eq!(file.read_to_f32(&[]), Err(Error::Malformed));
}

#[test]
fn bytes_beyond_the_samples_are_ignored() {
    let file = AVSFile {
        ndim: 1,
        sizes: vec![2],
        data_type: DataType::Byte,
        field_type: FieldType::Uniform,
        source: PayloadSource::Inline(0),
    };
    assert_eq!(file.read_to_f32(&[1, 2, 3, 4]).unwrap(), bits(&[1.0, 2.0]));
    assert_eq!(file.read::<u8>(&[1, 2, 3, 4]).unwrap(), vec![1, 2]);
}

#[test]
fn raw_read_wants_the_width_of_the_encoding() {
    let file = AVSFile {
        ndim: 1,
        sizes: vec![1],
        data_type: DataType::FloatLE,
        field_type: FieldType::Uniform,
        source: PayloadSource::Inline(0),
    };
    assert_eq!(file.read::<u8>(&[1, 2, 3, 4]), Err(Error::DataType));
    assert_eq!(file.read::<u32>(&[1, 2, 3, 4]), Ok(vec![0x0403_0201]));
    assert_eq!(file.read::<u32>(&[1, 2, 3, 4, 5]), Err(Error::Malformed));
    let bytes = AVSFile { data_type: DataType::Byte, ..file };
    assert_eq!(bytes.read::<u32>(&[1, 2, 3, 4]), Err(Error::DataType));
    assert_eq!(bytes.read::<u8>(&[9]), Ok(vec![9]));
}

#[test]
fn raw_read_does_not_reorder_bytes() {
    let file = AVSFile {
        ndim: 1,
        sizes: vec![1],
        data_type: DataType::XDRFloat,
        field_type: FieldType::Uniform,
        source: PayloadSource::Inline(0),
    };
    assert_eq!(file.read::<u32>(&[0x40, 0x49, 0x0f, 0xdb]), Ok(vec![0xdb0f_4940]));
    assert_eq!(file.read_to_f32(&[0x40, 0x49, 0x0f, 0xdb]), Ok(vec![0x4049_0fdb]));
}

#[test]
fn element_counts() {
    assert_eq!(element_count(&[]), Some(1));
    assert_eq!(element_count(&[7]), Some(7));
    assert_eq!(element_count(&[2, 3, 4]), Some(24));
    assert_eq!(element_count(&[2, 0, 4]), Some(0));
    assert_eq!(element_count(&[usize::MAX, 1]), Some(usize::MAX));
    assert_eq!(element_count(&[usize::MAX, 2]), None);
    assert_eq!(element_count(&[usize::MAX, usize::MAX, 0]), Some(0));
    assert_eq!(count_within(&[2, 3], 4, 24), Some(6));
    assert_eq!(count_within(&[2, 3], 4, 23), None);
    assert_eq!(count_within(&[2, 3], 1, 6), Some(6));
    assert_eq!(count_within(&[usize::MAX], 4, usize::MAX), None);
    assert_eq!(count_within(&[0], 4, 0), Some(0));
}

#[test]
fn opened_field_has_one_extent_for_each_dimension() {
    let mut stream = Vec::new();
    AVSFile::write(&mut stream, &[4, 1, 9, 2, 2, 3, 5], &[]).unwrap();
    let file = AVSFile::open(&stream).unwrap();
    assert_eq!(file.ndim, 7);
    assert_eq!(file.sizes.len(), file.ndim);
    assert_eq!(file.sizes, vec![4, 1, 9, 2, 2, 3, 5]);
    assert_eq!(file.source, PayloadSource::Inline(stream.len()));
}

#[test]
fn eight_written_extents_do_not_open() {
    let mut stream = Vec::new();
    AVSFile::write(&mut stream, &[1, 1, 1, 1, 1, 1, 1, 1], &[0]).unwrap();
    assert_eq!(AVSFile::open(&stream), Err(Error::Malformed));
}

#[test]
fn round_trip_of_many_shapes() {
    let shapes: [&[usize]; 5] = [&[], &[1], &[3, 0, 2], &[2, 2, 2], &[12, 1, 1, 1, 1, 1, 2]];
    for dims in shapes {
        let count: usize = dims.iter().product();
        let data: Vec<u32> = (0..count as u32).map(|i| i.wrapping_mul(0x9e37_79b9) ^ 0xffff).collect();
        let mut stream = Vec::new();
        AVSFile::write(&mut stream, dims, &data).unwrap();
        let file = AVSFile::open(&stream).unwrap();
        assert_eq!(file.sizes, dims.to_vec());
        let start = stream.len() - 4 * count;
        assert_eq!(file.source, PayloadSource::Inline(start));
        assert_eq!(file.read_to_f32(&stream[start..]).unwrap(), data);
        assert_eq!(file.read::<u32>(&stream[start..]).unwrap(), data);
    }
}

#[test]
fn external_payload_is_read_from_what_is_handed_in() {
    let stream = b"ndim=1\ndim1=3\ndata=byte\nfield=uniform\nvariable 1 file=payload.raw\n\x0c\x0c\x09\x09\x09";
    let file = AVSFile::open(stream).unwrap();
    assert_eq!(file.source, PayloadSource::External("payload.raw".to_string()));
    let other = [1u8, 2, 3];
    assert_eq!(file.read_to_f32(&other).unwrap(), bits(&[1.0, 2.0, 3.0]));
    assert_eq!(file.read::<u8>(&other).unwrap(), vec![1, 2, 3]);
}

#[test]
fn xdr_payload_is_converted() {
    let stream = b"ndim=1\ndim1=2\ndata=xdr_float\nfield=uniform\n\x0c\x0c\x3f\x80\x00\x00\xc0\x00\x00\x00";
    let file = AVSFile::open(stream).unwrap();
    assert_eq!(file.data_type, DataType::XDRFloat);
    let start = stream.len() - 8;
    assert_eq!(floats(&file.read_to_f32(&stream[start..]).unwrap()), vec![1.0, -2.0]);
}
