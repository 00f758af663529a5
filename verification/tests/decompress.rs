use root_io::decompress::{
    block_header, checked_output, decode_block, decompress, Algorithm, BlockHeader,
};
use root_io::error::Error;
use std::io::Write;

fn le24(n: usize) -> [u8; 3] {
    [(n & 0xff) as u8, ((n >> 8) & 0xff) as u8, ((n >> 16) & 0xff) as u8]
}

fn block(tag: &[u8; 2], compressed: &[u8], uncompressed: usize) -> Vec<u8> {
    let mut out = vec![tag[0], tag[1], 1];
    out.extend_from_slice(&le24(compressed.len()));
    out.extend_from_slice(&le24(uncompressed));
    out.extend_from_slice(compressed);
    out
}

fn zlib(data: &[u8]) -> Vec<u8> {
    let mut enc = flate2::write::ZlibEncoder::new(Vec::new(), flate2::Compression::default());
    enc.write_all(data).unwrap();
    enc.finish().unwrap()
}

fn lz4(data: &[u8]) -> Vec<u8> {
    let mut out = vec![0u8; 8];
    out.extend_from_slice(&lz4_compress::compress(data));
    out
}

fn sample(n: usize) -> Vec<u8> {
    (0..n).map(|i| (i % 7) as u8 + b'a').collect()
}

#[test]
fn zlib_block_round_trips() {
    let data = sample(300);
    let input = block(b"ZL", &zlib(&data), data.len());
    assert_ne!(&input[9..], &data[..]);
    assert_eq!(decompress(&input, data.len()), Ok(data));
}

#[test]
fn lz4_block_round_trips() {
    let data = sample(300);
    let input = block(b"L4", &lz4(&data), data.len());
    assert_ne!(&input[17..], &data[..]);
    assert_eq!(decompress(&input, data.len()), Ok(data));
}

#[test]
fn blocks_are_read_one_behind_the_other() {
    let first = sample(100);
    let second: Vec<u8> = sample(50).into_iter().rev().collect();
    let mut input = block(b"ZL", &zlib(&first), first.len());
    input.extend_from_slice(&block(b"L4", &lz4(&second), second.len()));
    let mut whole = first.clone();
    whole.extend_from_slice(&second);
    let out = decompress(&input, 150).unwrap();
    assert_eq!(out.len(), 150);
    assert_eq!(out, whole);
    // only the first block is needed for the first hundred bytes
    assert_eq!(decompress(&input, 100), Ok(first));
}

#[test]
fn declared_length_is_met_exactly_or_not_at_all() {
    let data = sample(100);
    let packed = zlib(&data);
    // the block decodes to 100 bytes but declares 99 or 101
    assert_eq!(decompress(&block(b"ZL", &packed, 99), 99), Err(Error::Compression));
    assert_eq!(decompress(&block(b"ZL", &packed, 101), 101), Err(Error::Compression));
    // the block is sound but more is asked than it holds
    assert_eq!(decompress(&block(b"ZL", &packed, 100), 101), Err(Error::Format));
    // the block holds more than is still missing
    assert_eq!(decompress(&block(b"ZL", &packed, 100), 60), Err(Error::Compression));
    // nothing is asked
    assert_eq!(decompress(&[], 0), Ok(vec![]));
    assert_eq!(decompress(&block(b"ZL", &packed, 100), 0), Ok(vec![]));
}

#[test]
fn unknown_algorithm_is_a_compression_error() {
    let data = sample(10);
    assert_eq!(decompress(&block(b"ZS", &data, 10), 10), Err(Error::Compression));
    assert_eq!(decompress(&block(b"CS", &data, 10), 10), Err(Error::Compression));
    assert_eq!(decompress(&block(b"XZ", &data, 10), 10), Err(Error::Compression));
    assert_eq!(decompress(&block(b"Z4", &data, 10), 10), Err(Error::Compression));
    assert_eq!(decompress(&block(b"LL", &data, 10), 10), Err(Error::Compression));
    assert_eq!(block_header(&block(b"??", &data, 10), 0), Err(Error::Compression));
}

#[test]
fn truncated_input_is_a_format_error() {
    let data = sample(100);
    let input = block(b"ZL", &zlib(&data), data.len());
    assert_eq!(decompress(&input[..8], 100), Err(Error::Format));
    assert_eq!(decompress(&input[..input.len() - 1], 100), Err(Error::Format));
    assert_eq!(decompress(&[], 1), Err(Error::Format));
    assert_eq!(block_header(&input, input.len() - 8), Err(Error::Format));
    assert_eq!(block_header(&input, input.len() + 1), Err(Error::Format));
}

#[test]
fn garbled_data_is_a_compression_error() {
    let garbage = [0x12u8, 0x34, 0x56, 0x78, 0x9a, 0xbc, 0xde, 0xf0, 0x11, 0x22];
    assert_eq!(decompress(&block(b"ZL", &garbage, 10), 10), Err(Error::Compression));
    assert_eq!(decompress(&block(b"L4", &garbage, 10), 10), Err(Error::Compression));
    // an LZ4 block needs its eight bytes of checksum
    assert_eq!(decompress(&block(b"L4", &garbage[..7], 10), 10), Err(Error::Compression));
    assert_eq!(decode_block(Algorithm::Lz4, &garbage[..7]), None);
}

#[test]
fn block_header_gives_tag_and_lengths() {
    let input = block(b"L4", &[0u8; 0x0102], 0x03_0405);
    assert_eq!(
        block_header(&input, 0),
        Ok(BlockHeader { algorithm: Algorithm::Lz4, compressed: 0x0102, uncompressed: 0x03_0405 })
    );
    let input = block(b"ZL", &[], 0);
    assert_eq!(
        block_header(&input, 0),
        Ok(BlockHeader { algorithm: Algorithm::Zlib, compressed: 0, uncompressed: 0 })
    );
    let input = block(b"ZL", &[], 0xff_ffff);
    assert_eq!(block_header(&input, 0).unwrap().uncompressed, 0xff_ffff);
}

#[test]
fn output_is_held_against_the_declared_length() {
    assert_eq!(checked_output(3, Some(vec![1, 2, 3])), Ok(vec![1, 2, 3]));
    assert_eq!(checked_output(2, Some(vec![1, 2, 3])), Err(Error::Compression));
    assert_eq!(checked_output(4, Some(vec![1, 2, 3])), Err(Error::Compression));
    assert_eq!(checked_output(0, Some(vec![])), Ok(vec![]));
    assert_eq!(checked_output(0, None), Err(Error::Compression));
}
