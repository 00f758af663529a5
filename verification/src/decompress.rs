//! Decompression of a record's payload.
//!
//! A compressed payload is a run of blocks. Each block begins with nine
//! bytes: two that name the algorithm, one for its level, three for the
//! length of the compressed data and three for the length it decompresses to,
//! both least significant byte first. The compressed data follow.

use vstd::prelude::*;
use vstd::slice::slice_subrange;
use crate::error::Error;
use crate::number::{fits, tail};

verus! {

/// The algorithms a block can name.
#[derive(Debug, Clone, Copy, PartialEq, Eq, Structural)]
pub enum Algorithm {
    /// Tag `ZL`: a zlib stream.
    Zlib,
    /// Tag `L4`: an eight-byte checksum and one LZ4 block.
    Lz4,
}

/// What stands at the head of a block.
#[derive(Debug, Clone, Copy, PartialEq, Eq, Structural)]
pub struct BlockHeader {
    /// The algorithm that the tag names.
    pub algorithm: Algorithm,
    /// The length of the compressed data behind the header.
    pub compressed: u32,
    /// The length that the block declares for its decompressed data.
    pub uncompressed: u32,
}

/// The length of a block header.
pub const BLOCK_HEADER_LEN: usize = 9;

/// What a zlib stream decodes to, as `flate2` reads it; `None` where it
/// reports an error.
pub uninterp spec fn zlib_stream_decoded(data: Seq<u8>) -> Option<Seq<u8>>;

/// What an LZ4 block decodes to, as `lz4_compress` reads it; `None` where it
/// reports an error.
pub uninterp spec fn lz4_block_decoded(data: Seq<u8>) -> Option<Seq<u8>>;

/// Reads `data` to the end through `flate2::read::ZlibDecoder`. The contract
/// names the outcome and claims only that it depends on the bytes alone.
#[verifier::external_body]
fn inflate_zlib(data: &[u8]) -> (r: Option<Vec<u8>>)
    ensures
        match r {
            Some(v) => zlib_stream_decoded(data@) == Some(v@),
            None => zlib_stream_decoded(data@) is None,
        },
{
    let mut out = Vec::new();
    match std::io::Read::read_to_end(&mut flate2::read::ZlibDecoder::new(data), &mut out) {
        Ok(_) => Some(out),
        Err(_) => None,
    }
}

/// Calls `lz4_compress::decompress`. The contract names the outcome and
/// claims only that it depends on the bytes alone.
#[verifier::external_body]
fn decode_lz4(data: &[u8]) -> (r: Option<Vec<u8>>)
    ensures
        match r {
            Some(v) => lz4_block_decoded(data@) == Some(v@),
            None => lz4_block_decoded(data@) is None,
        },
{
    match lz4_compress::decompress(data) {
        Ok(out) => Some(out),
        Err(_) => None,
    }
}

/// The algorithm that a two-byte tag names.
pub open spec fn algorithm_of(a: u8, b: u8) -> Option<Algorithm> {
    if a == 0x5a && b == 0x4c {
        Some(Algorithm::Zlib)
    } else if a == 0x4c && b == 0x34 {
        Some(Algorithm::Lz4)
    } else {
        None
    }
}

/// The unsigned value of the three bytes of `b` at `at`, least significant
/// first.
pub open spec fn le_u24_of(b: Seq<u8>, at: int) -> int {
    b[at] as int + b[at + 1] as int * 0x100 + b[at + 2] as int * 0x1_0000
}

/// The header of the block at `at`: a format error where fewer than nine
/// bytes remain, a compression error where the tag names no known algorithm.
pub open spec fn block_header_at(b: Seq<u8>, at: int) -> Result<BlockHeader, Error> {
    if !fits(b, at, 9) {
        Err(Error::Format)
    } else {
        match algorithm_of(b[at], b[at + 1]) {
            Some(algorithm) => Ok(
                BlockHeader {
                    algorithm,
                    compressed: le_u24_of(b, at + 3) as u32,
                    uncompressed: le_u24_of(b, at + 6) as u32,
                },
            ),
            None => Err(Error::Compression),
        }
    }
}

/// What the compressed data of one block decode to under an algorithm.
pub open spec fn block_decoded(algorithm: Algorithm, data: Seq<u8>) -> Option<Seq<u8>> {
    match algorithm {
        Algorithm::Zlib => zlib_stream_decoded(data),
        Algorithm::Lz4 => if data.len() >= 8 {
            lz4_block_decoded(data.skip(8))
        } else {
            None
        },
    }
}

/// The decoder's output where it is as long as the block declares, a
/// compression error where it is not or where there is none.
pub open spec fn checked(declared: u32, out: Option<Seq<u8>>) -> Result<Seq<u8>, Error> {
    match out {
        Some(v) => if v.len() == declared {
            Ok(v)
        } else {
            Err(Error::Compression)
        },
        None => Err(Error::Compression),
    }
}

/// The decompressed data of the block at `at`, with the position behind the
/// block.
pub open spec fn block_at(b: Seq<u8>, at: int) -> Result<(Seq<u8>, int), Error> {
    match block_header_at(b, at) {
        Ok(h) => if !fits(b, at + 9, h.compressed as int) {
            Err(Error::Format)
        } else {
            match checked(
                h.uncompressed,
                block_decoded(h.algorithm, b.subrange(at + 9, at + 9 + h.compressed)),
            ) {
                Ok(out) => Ok((out, at + 9 + h.compressed)),
                Err(e) => Err(e),
            }
        },
        Err(e) => Err(e),
    }
}

/// `acc` followed by the outcome `rest`, where that is a success.
pub open spec fn followed(acc: Seq<u8>, rest: Result<Seq<u8>, Error>) -> Result<Seq<u8>, Error> {
    match rest {
        Ok(r) => Ok(acc + r),
        Err(e) => Err(e),
    }
}

/// The `total` bytes that the blocks from `at` on decompress to, one block
/// behind the other until `total` bytes are reached. A block that declares no
/// bytes, or more than are still missing, is a compression error.
pub open spec fn decompressed(b: Seq<u8>, at: int, total: nat) -> Result<Seq<u8>, Error>
    decreases total,
{
    if total == 0 {
        Ok(Seq::empty())
    } else {
        match block_at(b, at) {
            Ok((out, next)) => if 0 < out.len() <= total {
                followed(out, decompressed(b, next, (total - out.len()) as nat))
            } else {
                Err(Error::Compression)
            },
            Err(e) => Err(e),
        }
    }
}

/// Law of decompression: whatever the bytes, what decompresses under a
/// declared length of `total` is exactly `total` bytes long.
pub proof fn law_decompressed_length(b: Seq<u8>, at: int, total: nat)
    ensures
        decompressed(b, at, total) matches Ok(out) ==> out.len() == total,
    decreases total,
{
    if total > 0 {
        if let Ok((out, next)) = block_at(b, at) {
            if 0 < out.len() <= total {
                law_decompressed_length(b, next, (total - out.len()) as nat);
            }
        }
    }
}

/// Reads the header of the block at `at`.
pub fn block_header(input: &[u8], at: usize) -> (r: Result<BlockHeader, Error>)
    ensures
        r == block_header_at(input@, at as int),
{
    if at > input.len() || input.len() - at < BLOCK_HEADER_LEN {
        return Err(Error::Format);
    }
    let algorithm = if input[at] == 0x5a && input[at + 1] == 0x4c {
        Algorithm::Zlib
    } else if input[at] == 0x4c && input[at + 1] == 0x34 {
        Algorithm::Lz4
    } else {
        return Err(Error::Compression);
    };
    let compressed: u32 = input[at + 3] as u32 + input[at + 4] as u32 * 0x100 + input[at + 5] as u32
        * 0x1_0000;
    let uncompressed: u32 = input[at + 6] as u32 + input[at + 7] as u32 * 0x100 + input[at
        + 8] as u32 * 0x1_0000;
    Ok(BlockHeader { algorithm, compressed, uncompressed })
}

/// Runs the decoder of `algorithm` on the compressed data of one block.
pub fn decode_block(algorithm: Algorithm, data: &[u8]) -> (r: Option<Vec<u8>>)
    ensures
        match r {
            Some(v) => block_decoded(algorithm, data@) == Some(v@),
            None => block_decoded(algorithm, data@) is None,
        },
{
    match algorithm {
        Algorithm::Zlib => inflate_zlib(data),
        Algorithm::Lz4 => {
            if data.len() >= 8 {
                match tail(data, 8) {
                    Some(rest) => decode_lz4(rest),
                    None => None,
                }
            } else {
                None
            }
        },
    }
}

/// Holds a decoder's output against the length that its block declares.
///
/// Returns the output where it has exactly the declared length, and a
/// compression error where it has another length or the decoder failed.
pub fn checked_output(declared: u32, out: Option<Vec<u8>>) -> (r: Result<Vec<u8>, Error>)
    ensures
        match r {
            Ok(v) => out == Some(v) && v@.len() == declared,
            Err(e) => e == Error::Compression && !(out matches Some(v) && v@.len() == declared),
        },
{
    match out {
        Some(v) => {
            if v.len() == declared as usize {
                Ok(v)
            } else {
                Err(Error::Compression)
            }
        },
        None => Err(Error::Compression),
    }
}

/// Decompresses the blocks that stand one behind the other at the start of
/// `input`, until `total` bytes have come out.
///
/// The result is exactly `total` bytes long. Fails with a format error where
/// the input ends within a block, and with a compression error where a block
/// names an unknown algorithm, cannot be decoded, does not decode to the
/// length it declares, or declares a length that `total` does not leave room
/// for.
pub fn decompress(input: &[u8], total: usize) -> (r: Result<Vec<u8>, Error>)
    ensures
        match r {
            Ok(v) => decompressed(input@, 0, total as nat) == Ok::<Seq<u8>, Error>(v@) && v@.len()
                == total,
            Err(e) => decompressed(input@, 0, total as nat) == Err::<Seq<u8>, Error>(e),
        },
{
    let mut out: Vec<u8> = Vec::new();
    let mut pos: usize = 0;
    let mut remaining: usize = total;
    proof {
        if let Ok(s) = decompressed(input@, 0, total as nat) {
            assert(out@ + s =~= s);
        }
    }
    while remaining > 0
        invariant
            pos <= input@.len(),
            out@.len() + remaining == total,
            decompressed(input@, 0, total as nat) == followed(
                out@,
                decompressed(input@, pos as int, remaining as nat),
            ),
        decreases remaining,
    {
        let header = match block_header(input, pos) {
            Ok(h) => h,
            Err(e) => {
                return Err(e);
            },
        };
        let len: usize = input.len();
        let start: usize = pos + BLOCK_HEADER_LEN;
        if header.compressed as usize > len - start {
            return Err(Error::Format);
        }
        let end: usize = start + header.compressed as usize;
        let data = slice_subrange(input, start, end);
        let mut block = match checked_output(header.uncompressed, decode_block(header.algorithm, data)) {
            Ok(v) => v,
            Err(e) => {
                return Err(e);
            },
        };
        if block.len() == 0 || block.len() > remaining {
            return Err(Error::Compression);
        }
        let ghost before = out@;
        let ghost piece = block@;
        proof {
            if let Ok(rest) = decompressed(input@, end as int, (remaining - piece.len()) as nat) {
                assert(before + (piece + rest) =~= (before + piece) + rest);
            }
        }
        remaining = remaining - block.len();
        out.append(&mut block);
        pos = end;
    }
    proof {
        assert(out@ + Seq::<u8>::empty() =~= out@);
    }
    Ok(out)
}

} // verus!
