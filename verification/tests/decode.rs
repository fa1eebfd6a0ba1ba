use idx_reader::parse_header;
use idx_reader::read_idx;
use idx_reader::IdxData;
use idx_reader::IdxError;
use idx_reader::IdxType;
use idx_reader::Tensor;

fn stream(code: u8, dims: &[u32], data: &[u8]) -> Vec<u8> {
    let mut v = vec![0u8, 0u8, code, dims.len() as u8];
    for d in dims {
        v.extend_from_slice(&d.to_be_bytes());
    }
    v.extend_from_slice(data);
    v
}

fn expect_err(r: Result<Tensor, IdxError>) -> IdxError {
    match r {
        Err(e) => e,
        Ok(_) => panic!("expected a decode error"),
    }
}

#[test]
fn zero_dims_reads_one_element() {
    let bytes = stream(0x08, &[], &[42]);
    let t = read_idx(&bytes).unwrap();
    assert_eq!(t.shape(), Vec::<usize>::new());
    assert_eq!(t.num_elements(), 1);
    assert_eq!(t.at(&vec![]).unwrap(), IdxData::UnsignedByte(42));
}

#[test]
fn shape_round_trip_row_major() {
    let bytes = stream(0x08, &[2, 3], &[10, 11, 12, 13, 14, 15]);
    let t = read_idx(&bytes).unwrap();
    assert_eq!(t.shape(), vec![2, 3]);
    assert_eq!(t.num_elements(), 6);
    for r in 0..2usize {
        for c in 0..3usize {
            let expected = 10 + (3 * r + c) as u8;
            assert_eq!(t.at(&vec![r, c]).unwrap(), IdxData::UnsignedByte(expected));
        }
    }
    assert_eq!(t.at_flat(4).unwrap(), IdxData::UnsignedByte(14));
}

#[test]
fn unsigned_byte_max_value() {
    let bytes = stream(0x08, &[1], &[0xFF]);
    let t = read_idx(&bytes).unwrap();
    assert_eq!(t.at(&vec![0]).unwrap(), IdxData::UnsignedByte(255));
}

#[test]
fn signed_byte_values() {
    let bytes = stream(0x09, &[2], &[0xFF, 0x7F]);
    let t = read_idx(&bytes).unwrap();
    assert_eq!(t.at(&vec![0]).unwrap(), IdxData::SignedByte(-1));
    assert_eq!(t.at(&vec![1]).unwrap(), IdxData::SignedByte(127));
}

#[test]
fn short_values_big_endian() {
    let bytes = stream(0x0B, &[2], &[0x01, 0x02, 0xFF, 0xFE]);
    let t = read_idx(&bytes).unwrap();
    assert_eq!(t.at(&vec![0]).unwrap(), IdxData::Short(258));
    assert_eq!(t.at(&vec![1]).unwrap(), IdxData::Short(-2));
}

#[test]
fn int_big_endian() {
    let bytes = stream(0x0C, &[1], &[0x00, 0x00, 0x01, 0x00]);
    let t = read_idx(&bytes).unwrap();
    assert_eq!(t.at(&vec![0]).unwrap(), IdxData::Int(256));
}

#[test]
fn int_negative() {
    let bytes = stream(0x0C, &[1], &[0xFF, 0xFF, 0xFF, 0xFF]);
    let t = read_idx(&bytes).unwrap();
    assert_eq!(t.at(&vec![0]).unwrap(), IdxData::Int(-1));
}

#[test]
fn float_ieee_one() {
    let bytes = stream(0x0D, &[1], &[0x3F, 0x80, 0x00, 0x00]);
    let t = read_idx(&bytes).unwrap();
    match t.at(&vec![0]).unwrap() {
        IdxData::Float(bits) => assert_eq!(f32::from_bits(bits), 1.0f32),
        other => panic!("wrong variant: {:?}", other),
    }
}

#[test]
fn double_bits_round_trip() {
    let enc = 1.5f64.to_bits().to_be_bytes();
    let bytes = stream(0x0E, &[1], &enc);
    let t = read_idx(&bytes).unwrap();
    match t.at(&vec![0]).unwrap() {
        IdxData::Double(bits) => assert_eq!(f64::from_bits(bits), 1.5f64),
        other => panic!("wrong variant: {:?}", other),
    }
}

#[test]
fn truncation_after_header_fails() {
    let bytes = stream(0x08, &[1], &[]);
    assert_eq!(expect_err(read_idx(&bytes)), IdxError::Truncated);
}

#[test]
fn truncation_mid_data_fails() {
    let bytes = stream(0x0C, &[2], &[0, 0, 0, 1, 0, 0]);
    assert_eq!(expect_err(read_idx(&bytes)), IdxError::Truncated);
}

#[test]
fn truncated_header_fails() {
    assert_eq!(expect_err(read_idx(&[])), IdxError::Truncated);
    assert_eq!(expect_err(read_idx(&[0, 0])), IdxError::Truncated);
    assert_eq!(expect_err(read_idx(&[0, 0, 0x08])), IdxError::Truncated);
    // dimension count declared, size fields missing
    assert_eq!(expect_err(read_idx(&[0, 0, 0x08, 2, 0, 0, 0, 1])), IdxError::Truncated);
}

#[test]
fn zero_size_dimension_needs_no_data() {
    let bytes = stream(0x08, &[0, 5], &[]);
    let t = read_idx(&bytes).unwrap();
    assert_eq!(t.shape(), vec![0, 5]);
    assert_eq!(t.num_elements(), 0);
    // still fine with arbitrary bytes left in the stream
    let noisy = stream(0x08, &[0, 5], &[1, 2, 3]);
    let t2 = read_idx(&noisy).unwrap();
    assert_eq!(t2.num_elements(), 0);
}

#[test]
fn unknown_type_code_fails_before_dimensions() {
    // only three bytes: the bad code is rejected without any dimension bytes
    assert_eq!(expect_err(read_idx(&[0, 0, 0x07])), IdxError::UnrecognizedType);
    let bytes = stream(0x07, &[1], &[9]);
    assert_eq!(expect_err(read_idx(&bytes)), IdxError::UnrecognizedType);
}

#[test]
fn reserved_bytes_are_ignored() {
    let mut bytes = stream(0x08, &[1], &[7]);
    bytes[0] = 9;
    bytes[1] = 250;
    let t = read_idx(&bytes).unwrap();
    assert_eq!(t.at(&vec![0]).unwrap(), IdxData::UnsignedByte(7));
}

#[test]
fn trailing_bytes_are_ignored() {
    let bytes = stream(0x08, &[1], &[5, 99, 99]);
    let t = read_idx(&bytes).unwrap();
    assert_eq!(t.num_elements(), 1);
    assert_eq!(t.at(&vec![0]).unwrap(), IdxData::UnsignedByte(5));
}

#[test]
fn negative_dimension_is_rejected() {
    let bytes = stream(0x08, &[0xFFFF_FFFF], &[1, 2, 3]);
    assert_eq!(expect_err(read_idx(&bytes)), IdxError::NegativeDimension);
}

#[test]
fn dimension_size_is_big_endian() {
    let data: Vec<u8> = (0..=255u8).collect();
    let bytes = stream(0x08, &[256], &data);
    let t = read_idx(&bytes).unwrap();
    assert_eq!(t.shape(), vec![256]);
    assert_eq!(t.at(&vec![255]).unwrap(), IdxData::UnsignedByte(255));
}

#[test]
fn out_of_range_coordinates_read_nothing() {
    let bytes = stream(0x08, &[2, 3], &[10, 11, 12, 13, 14, 15]);
    let t = read_idx(&bytes).unwrap();
    assert_eq!(t.at(&vec![2, 0]), None);
    assert_eq!(t.at(&vec![0, 3]), None);
    assert_eq!(t.at(&vec![0]), None);
    assert_eq!(t.at_flat(6), None);
}

#[test]
fn parse_header_reports_type_and_dims() {
    let bytes = stream(0x0C, &[3, 4], &[]);
    let (ty, dims) = parse_header(&bytes).unwrap();
    assert_eq!(ty, IdxType::Int);
    assert_eq!(dims, vec![3, 4]);
}
