//! Big-endian fixed-width integers.
//!
//! Every parser here reads at a position of a byte slice, consumes exactly the
//! width of its type, and fails only when fewer bytes remain.

use vstd::prelude::*;
use vstd::slice::slice_subrange;
use crate::error::{agrees, Error};

verus! {

/// Whether `n` bytes can be read from `b` at position `at`.
pub open spec fn fits(b: Seq<u8>, at: int, n: int) -> bool {
    0 <= at && at + n <= b.len()
}

/// The unsigned value of the two bytes of `b` at `at`, most significant first.
pub open spec fn u16_of(b: Seq<u8>, at: int) -> int {
    b[at] as int * 0x100 + b[at + 1] as int
}

/// The unsigned value of the four bytes of `b` at `at`, most significant first.
pub open spec fn u32_of(b: Seq<u8>, at: int) -> int {
    u16_of(b, at) * 0x1_0000 + u16_of(b, at + 2)
}

/// The unsigned value of the eight bytes of `b` at `at`, most significant first.
pub open spec fn u64_of(b: Seq<u8>, at: int) -> int {
    u32_of(b, at) * 0x1_0000_0000 + u32_of(b, at + 4)
}

/// The two's complement reading of an unsigned value, `half` being the
/// weight of its top bit.
pub open spec fn signed(v: int, half: int) -> int {
    if v >= half {
        v - 2 * half
    } else {
        v
    }
}

/// The signed value of the two bytes of `b` at `at`.
pub open spec fn i16_of(b: Seq<u8>, at: int) -> i16 {
    signed(u16_of(b, at), 0x8000) as i16
}

/// The signed value of the four bytes of `b` at `at`.
pub open spec fn i32_of(b: Seq<u8>, at: int) -> i32 {
    signed(u32_of(b, at), 0x8000_0000) as i32
}

/// The byte at `at`, with the position behind it.
pub open spec fn be_u8_at(b: Seq<u8>, at: int) -> Option<(u8, int)> {
    if fits(b, at, 1) {
        Some((b[at], at + 1))
    } else {
        None
    }
}

/// The unsigned 16-bit integer at `at`, with the position behind it.
pub open spec fn be_u16_at(b: Seq<u8>, at: int) -> Option<(u16, int)> {
    if fits(b, at, 2) {
        Some((u16_of(b, at) as u16, at + 2))
    } else {
        None
    }
}

/// The unsigned 32-bit integer at `at`, with the position behind it.
pub open spec fn be_u32_at(b: Seq<u8>, at: int) -> Option<(u32, int)> {
    if fits(b, at, 4) {
        Some((u32_of(b, at) as u32, at + 4))
    } else {
        None
    }
}

/// The unsigned 64-bit integer at `at`, with the position behind it.
pub open spec fn be_u64_at(b: Seq<u8>, at: int) -> Option<(u64, int)> {
    if fits(b, at, 8) {
        Some((u64_of(b, at) as u64, at + 8))
    } else {
        None
    }
}

/// The signed byte at `at`, with the position behind it.
pub open spec fn be_i8_at(b: Seq<u8>, at: int) -> Option<(i8, int)> {
    if fits(b, at, 1) {
        Some((signed(b[at] as int, 0x80) as i8, at + 1))
    } else {
        None
    }
}

/// The signed 16-bit integer at `at`, with the position behind it.
pub open spec fn be_i16_at(b: Seq<u8>, at: int) -> Option<(i16, int)> {
    if fits(b, at, 2) {
        Some((signed(u16_of(b, at), 0x8000) as i16, at + 2))
    } else {
        None
    }
}

/// The signed 32-bit integer at `at`, with the position behind it.
pub open spec fn be_i32_at(b: Seq<u8>, at: int) -> Option<(i32, int)> {
    if fits(b, at, 4) {
        Some((signed(u32_of(b, at), 0x8000_0000) as i32, at + 4))
    } else {
        None
    }
}

/// The signed 64-bit integer at `at`, with the position behind it.
pub open spec fn be_i64_at(b: Seq<u8>, at: int) -> Option<(i64, int)> {
    if fits(b, at, 8) {
        Some((signed(u64_of(b, at), 0x8000_0000_0000_0000) as i64, at + 8))
    } else {
        None
    }
}

/// Calls `nom::number::complete::be_u8`, which fails on an empty input and
/// otherwise returns the first byte.
#[verifier::external_body]
fn nom_be_u8(input: &[u8]) -> (r: Option<u8>)
    ensures
        r == (if input@.len() >= 1 { Some(input@[0]) } else { None }),
{
    match nom::number::complete::be_u8::<(&[u8], nom::error::ErrorKind)>(input) {
        Ok((_, v)) => Some(v),
        Err(_) => None,
    }
}

/// Calls `nom::number::complete::be_u16`, which fails on fewer than two bytes
/// and otherwise returns the first two read most significant byte first.
#[verifier::external_body]
fn nom_be_u16(input: &[u8]) -> (r: Option<u16>)
    ensures
        r == (if input@.len() >= 2 { Some(u16_of(input@, 0) as u16) } else { None }),
{
    match nom::number::complete::be_u16::<(&[u8], nom::error::ErrorKind)>(input) {
        Ok((_, v)) => Some(v),
        Err(_) => None,
    }
}

/// Calls `nom::number::complete::be_u32`, which fails on fewer than four bytes
/// and otherwise returns the first four read most significant byte first.
#[verifier::external_body]
fn nom_be_u32(input: &[u8]) -> (r: Option<u32>)
    ensures
        r == (if input@.len() >= 4 { Some(u32_of(input@, 0) as u32) } else { None }),
{
    match nom::number::complete::be_u32::<(&[u8], nom::error::ErrorKind)>(input) {
        Ok((_, v)) => Some(v),
        Err(_) => None,
    }
}

/// Calls `nom::number::complete::be_u64`, which fails on fewer than eight
/// bytes and otherwise returns the first eight read most significant byte
/// first.
#[verifier::external_body]
fn nom_be_u64(input: &[u8]) -> (r: Option<u64>)
    ensures
        r == (if input@.len() >= 8 { Some(u64_of(input@, 0) as u64) } else { None }),
{
    match nom::number::complete::be_u64::<(&[u8], nom::error::ErrorKind)>(input) {
        Ok((_, v)) => Some(v),
        Err(_) => None,
    }
}

/// Calls `nom::number::complete::be_i8`, which reads one byte as `be_u8` does
/// and reinterprets it in two's complement.
#[verifier::external_body]
fn nom_be_i8(input: &[u8]) -> (r: Option<i8>)
    ensures
        r == (if input@.len() >= 1 { Some(signed(input@[0] as int, 0x80) as i8) } else { None }),
{
    match nom::number::complete::be_i8::<(&[u8], nom::error::ErrorKind)>(input) {
        Ok((_, v)) => Some(v),
        Err(_) => None,
    }
}

/// Calls `nom::number::complete::be_i16`, which reads two bytes as `be_u16`
/// does and reinterprets them in two's complement.
#[verifier::external_body]
fn nom_be_i16(input: &[u8]) -> (r: Option<i16>)
    ensures
        r == (if input@.len() >= 2 { Some(signed(u16_of(input@, 0), 0x8000) as i16) } else { None }),
{
    match nom::number::complete::be_i16::<(&[u8], nom::error::ErrorKind)>(input) {
        Ok((_, v)) => Some(v),
        Err(_) => None,
    }
}

/// Calls `nom::number::complete::be_i32`, which reads four bytes as `be_u32`
/// does and reinterprets them in two's complement.
#[verifier::external_body]
fn nom_be_i32(input: &[u8]) -> (r: Option<i32>)
    ensures
        r == (if input@.len() >= 4 { Some(signed(u32_of(input@, 0), 0x8000_0000) as i32) } else { None }),
{
    match nom::number::complete::be_i32::<(&[u8], nom::error::ErrorKind)>(input) {
        Ok((_, v)) => Some(v),
        Err(_) => None,
    }
}

/// Calls `nom::number::complete::be_i64`, which reads eight bytes as `be_u64`
/// does and reinterprets them in two's complement.
#[verifier::external_body]
fn nom_be_i64(input: &[u8]) -> (r: Option<i64>)
    ensures
        r == (if input@.len() >= 8 {
            Some(signed(u64_of(input@, 0), 0x8000_0000_0000_0000) as i64)
        } else {
            None
        }),
{
    match nom::number::complete::be_i64::<(&[u8], nom::error::ErrorKind)>(input) {
        Ok((_, v)) => Some(v),
        Err(_) => None,
    }
}

/// The part of `input` from `at` on, when `at` lies within it.
pub fn tail(input: &[u8], at: usize) -> (r: Option<&[u8]>)
    ensures
        input@.len() <= usize::MAX,
        match r {
            Some(rest) => at <= input@.len() && rest@ == input@.skip(at as int) && rest@.len()
                == input@.len() - at,
            None => at > input@.len(),
        },
{
    if at <= input.len() {
        Some(slice_subrange(input, at, input.len()))
    } else {
        None
    }
}

/// One byte at `at`.
pub fn be_u8(input: &[u8], at: usize) -> (r: Result<(u8, usize), Error>)
    ensures
        agrees(r, be_u8_at(input@, at as int)),
{
    match tail(input, at) {
        Some(rest) => match nom_be_u8(rest) {
            Some(v) => Ok((v, at + 1)),
            None => Err(Error::Format),
        },
        None => Err(Error::Format),
    }
}

/// Two bytes at `at` as an unsigned integer.
pub fn be_u16(input: &[u8], at: usize) -> (r: Result<(u16, usize), Error>)
    ensures
        agrees(r, be_u16_at(input@, at as int)),
{
    match tail(input, at) {
        Some(rest) => match nom_be_u16(rest) {
            Some(v) => Ok((v, at + 2)),
            None => Err(Error::Format),
        },
        None => Err(Error::Format),
    }
}

/// Four bytes at `at` as an unsigned integer.
pub fn be_u32(input: &[u8], at: usize) -> (r: Result<(u32, usize), Error>)
    ensures
        agrees(r, be_u32_at(input@, at as int)),
{
    match tail(input, at) {
        Some(rest) => match nom_be_u32(rest) {
            Some(v) => Ok((v, at + 4)),
            None => Err(Error::Format),
        },
        None => Err(Error::Format),
    }
}

/// Eight bytes at `at` as an unsigned integer.
pub fn be_u64(input: &[u8], at: usize) -> (r: Result<(u64, usize), Error>)
    ensures
        agrees(r, be_u64_at(input@, at as int)),
{
    match tail(input, at) {
        Some(rest) => match nom_be_u64(rest) {
            Some(v) => Ok((v, at + 8)),
            None => Err(Error::Format),
        },
        None => Err(Error::Format),
    }
}

/// One byte at `at` as a signed integer.
pub fn be_i8(input: &[u8], at: usize) -> (r: Result<(i8, usize), Error>)
    ensures
        agrees(r, be_i8_at(input@, at as int)),
{
    match tail(input, at) {
        Some(rest) => match nom_be_i8(rest) {
            Some(v) => Ok((v, at + 1)),
            None => Err(Error::Format),
        },
        None => Err(Error::Format),
    }
}

/// Two bytes at `at` as a signed integer.
pub fn be_i16(input: &[u8], at: usize) -> (r: Result<(i16, usize), Error>)
    ensures
        agrees(r, be_i16_at(input@, at as int)),
{
    match tail(input, at) {
        Some(rest) => match nom_be_i16(rest) {
            Some(v) => Ok((v, at + 2)),
            None => Err(Error::Format),
        },
        None => Err(Error::Format),
    }
}

/// Four bytes at `at` as a signed integer.
pub fn be_i32(input: &[u8], at: usize) -> (r: Result<(i32, usize), Error>)
    ensures
        agrees(r, be_i32_at(input@, at as int)),
{
    match tail(input, at) {
        Some(rest) => match nom_be_i32(rest) {
            Some(v) => Ok((v, at + 4)),
            None => Err(Error::Format),
        },
        None => Err(Error::Format),
    }
}

/// Eight bytes at `at` as a signed integer.
pub fn be_i64(input: &[u8], at: usize) -> (r: Result<(i64, usize), Error>)
    ensures
        agrees(r, be_i64_at(input@, at as int)),
{
    match tail(input, at) {
        Some(rest) => match nom_be_i64(rest) {
            Some(v) => Ok((v, at + 8)),
            None => Err(Error::Format),
        },
        None => Err(Error::Format),
    }
}

} // verus!
