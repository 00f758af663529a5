//! Lists of names, stored as an array of named objects.
//!
//! The array is framed by a byte count. In the frame stand a version (two
//! bytes), an object header, the name of the array (a string), the number of
//! elements and the lower bound (four bytes each), and the elements. An
//! element begins with a word that says what follows: nothing, where the word
//! is zero (the element is empty); or the class of the object, as a new name
//! or as a reference to one met before, and then the object in a frame of its
//! own: a version, an object header, and two strings, name and title.

use vstd::prelude::*;
use vstd::slice::slice_subrange;
use crate::codec::{decode_row, decodes, row_parsed, Decoder};
use crate::error::Error;
use crate::number::{be_i32, be_i32_at, be_u16, be_u32, be_u32_at, fits, u32_of};
use crate::parsers::{frame, frame_at, string, string_at, BYTE_COUNT_MASK};

verus! {

/// The bit of an object's status word that says that a reference number
/// follows the header.
pub const IS_REFERENCED: u32 = 0x10;

/// The tag that announces the name of a class not met before.
pub const NEW_CLASS_TAG: u32 = 0xffff_ffff;

/// The bit that marks a tag as a reference to a class met before.
pub const CLASS_MASK: u32 = 0x8000_0000;

/// The position behind the object header at `at`: a version (two bytes), an
/// identifier and a status word (four bytes each), and two more bytes where
/// the status word has the reference bit.
pub open spec fn object_header_at(b: Seq<u8>, at: int) -> Option<int> {
    if !fits(b, at, 10) {
        None
    } else if (u32_of(b, at + 6) as u32) & IS_REFERENCED != 0 {
        if fits(b, at + 10, 2) {
            Some(at + 12)
        } else {
            None
        }
    } else {
        Some(at + 10)
    }
}

/// The name of the named object at `at`: behind a version and an object
/// header stand its name and its title.
pub open spec fn named_at(b: Seq<u8>, at: int) -> Option<(Seq<u8>, int)> {
    if !fits(b, at, 2) {
        None
    } else {
        match object_header_at(b, at + 2) {
            Some(p1) => match string_at(b, p1) {
                Some((name, p2)) => match string_at(b, p2) {
                    Some((_, next)) => Some((name, next)),
                    None => None,
                },
                None => None,
            },
            None => None,
        }
    }
}

/// The position behind the first zero byte from `at` on.
pub open spec fn c_string_end(b: Seq<u8>, at: int) -> Option<int>
    decreases b.len() - at,
{
    if !fits(b, at, 1) {
        None
    } else if b[at] == 0 {
        Some(at + 1)
    } else {
        c_string_end(b, at + 1)
    }
}

/// The name of the named object that the frame at `at` holds, with the
/// position behind the frame.
pub open spec fn framed_name_at(b: Seq<u8>, at: int) -> Option<(Seq<u8>, int)> {
    match frame_at(b, at) {
        Some((start, end)) => match named_at(b.subrange(start, end), 0) {
            Some((name, _)) => Some((name, end)),
            None => None,
        },
        None => None,
    }
}

/// The tag of the element at `at` and the position behind it. Where the
/// first word is a byte count, the tag is the word behind it.
pub open spec fn tag_at(b: Seq<u8>, at: int) -> Option<(u32, int)> {
    match be_u32_at(b, at) {
        Some((word, p)) => if word & BYTE_COUNT_MASK != 0 && word != NEW_CLASS_TAG {
            be_u32_at(b, p)
        } else {
            Some((word, p))
        },
        None => None,
    }
}

/// The name that the element at `at` holds: none for the tag zero, which
/// stands for no object; else that of the named object that follows the
/// class. A tag that refers to another object has no name.
pub open spec fn element_at(b: Seq<u8>, at: int) -> Option<(Seq<u8>, int)> {
    match tag_at(b, at) {
        Some((tag, p)) => if tag == NEW_CLASS_TAG {
            match c_string_end(b, p) {
                Some(q) => framed_name_at(b, q),
                None => None,
            }
        } else if tag & CLASS_MASK != 0 {
            framed_name_at(b, p)
        } else if tag == 0 {
            Some((Seq::empty(), p))
        } else {
            None
        },
        None => None,
    }
}

/// The names of the elements of the array that fills `b`.
pub open spec fn names_in(b: Seq<u8>) -> Option<Seq<Seq<u8>>> {
    if !fits(b, 0, 2) {
        None
    } else {
        match object_header_at(b, 2) {
            Some(p1) => match string_at(b, p1) {
                Some((_, p2)) => match be_i32_at(b, p2) {
                    Some((n, p3)) => match be_i32_at(b, p3) {
                        Some((_, p4)) => if n < 0 {
                            None
                        } else {
                            match row_parsed(Elements, b, p4, n as nat) {
                                Some((names, _)) => Some(names),
                                None => None,
                            }
                        },
                        None => None,
                    },
                    None => None,
                },
                None => None,
            },
            None => None,
        }
    }
}

/// The names of the array of named objects that the frame at `at` holds,
/// with the position behind the frame.
pub open spec fn name_list_at(b: Seq<u8>, at: int) -> Option<(Seq<Seq<u8>>, int)> {
    match frame_at(b, at) {
        Some((start, end)) => match names_in(b.subrange(start, end)) {
            Some(names) => Some((names, end)),
            None => None,
        },
        None => None,
    }
}

/// Skips the object header at `at`.
pub fn object_header(input: &[u8], at: usize) -> (r: Result<usize, Error>)
    ensures
        match r {
            Ok(next) => object_header_at(input@, at as int) == Some(next as int),
            Err(e) => e == Error::Format && object_header_at(input@, at as int) is None,
        },
{
    let (_version, p) = be_u16(input, at)?;
    let (_id, p) = be_u32(input, p)?;
    let (bits, p) = be_u32(input, p)?;
    if bits & IS_REFERENCED != 0 {
        let (_reference, p) = be_u16(input, p)?;
        Ok(p)
    } else {
        Ok(p)
    }
}

/// Reads the named object at `at` and returns its name.
pub fn named(input: &[u8], at: usize) -> (r: Result<(Vec<u8>, usize), Error>)
    ensures
        decodes(r, named_at(input@, at as int)),
{
    let (_version, p) = be_u16(input, at)?;
    let p = object_header(input, p)?;
    let (name, p) = string(input, p)?;
    let (_title, p) = string(input, p)?;
    proof {
        assert(name.deep_view() =~= name@);
    }
    Ok((name, p))
}

/// Finds the end of the zero-terminated string at `at`.
pub fn c_string(input: &[u8], at: usize) -> (r: Result<usize, Error>)
    ensures
        match r {
            Ok(next) => c_string_end(input@, at as int) == Some(next as int) && at < next
                <= input@.len(),
            Err(e) => e == Error::Format && c_string_end(input@, at as int) is None,
        },
{
    let mut pos: usize = at;
    while pos < input.len()
        invariant
            at <= pos,
            c_string_end(input@, at as int) == c_string_end(input@, pos as int),
        decreases input@.len() - pos,
    {
        if input[pos] == 0 {
            return Ok(pos + 1);
        }
        pos = pos + 1;
    }
    Err(Error::Format)
}

/// Reads the named object in the frame at `at` and returns its name.
pub fn framed_name(input: &[u8], at: usize) -> (r: Result<(Vec<u8>, usize), Error>)
    ensures
        decodes(r, framed_name_at(input@, at as int)),
        r matches Ok((_, next)) ==> at < next <= input@.len(),
{
    let (start, end) = frame(input, at)?;
    let inner = slice_subrange(input, start, end);
    let (name, _) = named(inner, 0)?;
    Ok((name, end))
}

/// Decoder of the elements of an array of named objects.
pub struct Elements;

/// Decoder of a list of names.
pub struct NameList;

impl Decoder for Elements {
    type Item = Vec<u8>;

    open spec fn parsed(&self, bytes: Seq<u8>, at: int) -> Option<(Seq<u8>, int)> {
        element_at(bytes, at)
    }

    proof fn parsed_advances(&self, bytes: Seq<u8>, at: int) {
        if let Some((tag, p)) = tag_at(bytes, at) {
            if tag == NEW_CLASS_TAG {
                lemma_c_string_advances(bytes, p);
            }
        }
    }

    fn parse(&self, input: &[u8], at: usize) -> (r: Result<(Vec<u8>, usize), Error>) {
        let (word, p) = be_u32(input, at)?;
        let (tag, p) = if word & BYTE_COUNT_MASK != 0 && word != NEW_CLASS_TAG {
            be_u32(input, p)?
        } else {
            (word, p)
        };
        if tag == NEW_CLASS_TAG {
            let q = c_string(input, p)?;
            framed_name(input, q)
        } else if tag & CLASS_MASK != 0 {
            framed_name(input, p)
        } else if tag == 0 {
            let nothing: Vec<u8> = Vec::new();
            proof {
                assert(nothing.deep_view() =~= Seq::empty());
            }
            Ok((nothing, p))
        } else {
            Err(Error::Format)
        }
    }
}

/// The end of a zero-terminated string lies behind its start.
pub proof fn lemma_c_string_advances(b: Seq<u8>, at: int)
    ensures
        c_string_end(b, at) matches Some(next) ==> at < next <= b.len(),
    decreases b.len() - at,
{
    if fits(b, at, 1) && b[at] != 0 {
        lemma_c_string_advances(b, at + 1);
    }
}

/// Reads the names of the array that fills `input`.
pub fn names(input: &[u8]) -> (r: Result<Vec<Vec<u8>>, Error>)
    ensures
        match r {
            Ok(v) => names_in(input@) == Some(v.deep_view()),
            Err(e) => e == Error::Format && names_in(input@) is None,
        },
{
    let (_version, p) = be_u16(input, 0)?;
    let p = object_header(input, p)?;
    let (_name, p) = string(input, p)?;
    let (n, p) = be_i32(input, p)?;
    let (_low, p) = be_i32(input, p)?;
    if n < 0 {
        return Err(Error::Format);
    }
    let (names, _) = decode_row(&Elements, input, p, n as u32)?;
    Ok(names)
}

/// Reads at `at` a framed array of named objects and returns the names of
/// its elements, the empty name for an element that holds no object.
///
/// Fails with a format error where the frame, the array or an element does
/// not have its layout, and where an element refers to another object.
pub fn parse_tobjarray_of_tnameds(input: &[u8], at: usize) -> (r: Result<
    (Vec<Vec<u8>>, usize),
    Error,
>)
    ensures
        decodes(r, name_list_at(input@, at as int)),
{
    let (start, end) = frame(input, at)?;
    let inner = slice_subrange(input, start, end);
    let list = names(inner)?;
    Ok((list, end))
}

impl Decoder for NameList {
    type Item = Vec<Vec<u8>>;

    open spec fn parsed(&self, bytes: Seq<u8>, at: int) -> Option<(Seq<Seq<u8>>, int)> {
        name_list_at(bytes, at)
    }

    proof fn parsed_advances(&self, bytes: Seq<u8>, at: int) {
    }

    fn parse(&self, input: &[u8], at: usize) -> (r: Result<(Vec<Vec<u8>>, usize), Error>) {
        parse_tobjarray_of_tnameds(input, at)
    }
}

} // verus!
