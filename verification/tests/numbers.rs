use root_io::codec::{decode_all, decode_rows, BeF32, BeI32, BeU32, FloatBits};
use root_io::error::Error;
use root_io::number::{be_i16, be_i32, be_i64, be_i8, be_u16, be_u32, be_u64, be_u8};
use root_io::parsers::{checked_byte_count, frame, parse_custom_mantissa, string, take};

#[test]
fn unsigned_integers_are_big_endian() {
    let bytes = [0x01u8, 0x02, 0x03, 0x04, 0x05, 0x06, 0x07, 0x08, 0x09];
    assert_eq!(be_u8(&bytes, 0), Ok((0x01, 1)));
    assert_eq!(be_u16(&bytes, 1), Ok((0x0203, 3)));
    assert_eq!(be_u32(&bytes, 1), Ok((0x0203_0405, 5)));
    assert_eq!(be_u64(&bytes, 1), Ok((0x0203_0405_0607_0809, 9)));
}

#[test]
fn signed_integers_are_twos_complement() {
    let bytes = [0xffu8, 0xfe, 0xff, 0xff, 0xff, 0xfd, 0xff, 0xff];
    assert_eq!(be_i8(&bytes, 0), Ok((-1, 1)));
    assert_eq!(be_i8(&bytes, 1), Ok((-2, 2)));
    assert_eq!(be_i16(&bytes, 0), Ok((-2, 2)));
    assert_eq!(be_i32(&bytes, 2), Ok((-3, 6)));
    assert_eq!(be_i64(&bytes, 0), Ok((-281_474_976_841_729, 8)));
    assert_eq!(be_i32(&[0x7f, 0xff, 0xff, 0xff], 0), Ok((i32::MAX, 4)));
    assert_eq!(be_i32(&[0x80, 0x00, 0x00, 0x00], 0), Ok((i32::MIN, 4)));
}

#[test]
fn integers_fail_only_on_short_input() {
    let bytes = [0u8; 7];
    assert_eq!(be_u64(&bytes, 0), Err(Error::Format));
    assert_eq!(be_u32(&bytes, 4), Err(Error::Format));
    assert_eq!(be_u32(&bytes, 3), Ok((0, 7)));
    assert_eq!(be_u16(&bytes, 6), Err(Error::Format));
    assert_eq!(be_u8(&bytes, 7), Err(Error::Format));
    assert_eq!(be_u8(&bytes, 8), Err(Error::Format));
    assert_eq!(be_i16(&bytes, 6), Err(Error::Format));
    assert_eq!(be_i8(&bytes, 7), Err(Error::Format));
    assert_eq!(be_i64(&bytes, 0), Err(Error::Format));
    assert_eq!(be_i32(&bytes, usize::MAX), Err(Error::Format));
}

#[test]
fn strings_are_length_prefixed() {
    let bytes = [3u8, b'a', b'b', b'c', 0];
    assert_eq!(string(&bytes, 0), Ok((b"abc".to_vec(), 4)));
    assert_eq!(string(&bytes, 4), Ok((Vec::new(), 5)));
    assert_eq!(string(&bytes, 5), Err(Error::Format));
    assert_eq!(string(&[4u8, b'a'], 0), Err(Error::Format));
    let mut long = vec![255u8, 0, 0, 1, 4];
    long.extend(std::iter::repeat(b'x').take(260));
    assert_eq!(string(&long, 0), Ok((vec![b'x'; 260], 265)));
    assert_eq!(string(&long[..264], 0), Err(Error::Format));
    assert_eq!(take(&bytes, 1, 3), Ok((b"abc".to_vec(), 4)));
    assert_eq!(take(&bytes, 1, 5), Err(Error::Format));
}

#[test]
fn byte_counts_need_their_marker() {
    assert_eq!(checked_byte_count(&[0x40, 0, 0, 5], 0), Ok((5, 4)));
    assert_eq!(checked_byte_count(&[0x00, 0, 0, 5], 0), Err(Error::Format));
    assert_eq!(checked_byte_count(&[0x40, 0, 0, 0], 0), Err(Error::Format));
    assert_eq!(checked_byte_count(&[0xc0, 0, 0, 5], 0), Err(Error::Format));
    assert_eq!(checked_byte_count(&[0x40, 0, 0], 0), Err(Error::Format));
    assert_eq!(frame(&[0x40, 0, 0, 2, 9, 9, 9], 0), Ok((4, 6)));
    assert_eq!(frame(&[0x40, 0, 0, 4, 9, 9, 9], 0), Err(Error::Format));
}

#[test]
fn custom_mantissa_rebuilds_the_number() {
    // exponent 127, mantissa word 0x40 of 8 bits: 1.25
    let v = parse_custom_mantissa(&[127, 0x00, 0x40], 0, 8).unwrap();
    assert_eq!(v.1, 3);
    assert_eq!(f32::from_bits(v.0.bits), 1.25);
    // the bit above the mantissa is the sign
    let v = parse_custom_mantissa(&[128, 0x02, 0x80], 0, 8).unwrap();
    assert_eq!(f32::from_bits(v.0.bits), -3.0);
    assert_eq!(parse_custom_mantissa(&[127, 0x00, 0x00], 0, 8).unwrap().0, FloatBits { bits: 0x3f80_0000 });
    assert_eq!(parse_custom_mantissa(&[127, 0x00], 0, 8), Err(Error::Format));
}

#[test]
fn columns_decode_to_the_end() {
    let bytes = [0u8, 0, 0, 1, 0, 0, 0, 2, 0xff, 0xff, 0xff, 0xff];
    assert_eq!(decode_all(&BeU32, &bytes), Ok(vec![1, 2, u32::MAX]));
    assert_eq!(decode_all(&BeI32, &bytes), Ok(vec![1, 2, -1]));
    assert_eq!(decode_all(&BeU32, &bytes[..11]), Err(Error::Format));
    assert_eq!(decode_all(&BeU32, &[]), Ok(vec![]));
    let one = 1.0f32.to_bits().to_be_bytes();
    assert_eq!(decode_all(&BeF32, &one), Ok(vec![FloatBits { bits: 0x3f80_0000 }]));
}

#[test]
fn rows_follow_the_counter() {
    let mut bytes = Vec::new();
    for x in [1.0f32, 2.0, 3.0] {
        bytes.extend_from_slice(&x.to_bits().to_be_bytes());
    }
    let rows = decode_rows(&BeF32, &bytes, &[0, 2, 1]).unwrap();
    let floats: Vec<Vec<f32>> =
        rows.iter().map(|r| r.iter().map(|v| f32::from_bits(v.bits)).collect()).collect();
    assert_eq!(floats, vec![vec![], vec![1.0, 2.0], vec![3.0]]);
    let total: usize = rows.iter().map(|r| r.len()).sum();
    assert_eq!(total, 3);
    // the bytes end before the count is met
    assert_eq!(decode_rows(&BeF32, &bytes, &[0, 2, 2]), Err(Error::Format));
    // bytes are left behind the last row
    assert_eq!(decode_rows(&BeF32, &bytes, &[0, 2]), Err(Error::Format));
    assert_eq!(decode_rows(&BeF32, &[], &[]), Ok(vec![]));
    assert_eq!(decode_rows(&BeF32, &[], &[0, 0]), Ok(vec![vec![], vec![]]));
}

#[test]
fn numbers_are_written_in_decimal() {
    let mut out = b"n=".to_vec();
    root_io::text::put_decimal(&mut out, 0);
    root_io::text::put(&mut out, ", ");
    root_io::text::put_decimal(&mut out, 9);
    root_io::text::put_bytes(&mut out, b", ");
    root_io::text::put_decimal(&mut out, 10);
    root_io::text::put(&mut out, ", ");
    root_io::text::put_decimal(&mut out, u64::MAX);
    root_io::text::put(&mut out, ", ");
    root_io::text::put_signed(&mut out, -1);
    root_io::text::put(&mut out, ", ");
    root_io::text::put_signed(&mut out, i64::MIN);
    root_io::text::put(&mut out, ", ");
    root_io::text::put_signed(&mut out, 120);
    assert_eq!(
        String::from_utf8(out).unwrap(),
        format!("n=0, 9, 10, {}, -1, {}, 120", u64::MAX, i64::MIN)
    );
}
