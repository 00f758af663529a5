//! The header that every record of a container begins with.

use vstd::prelude::*;
use vstd::slice::slice_to_vec;
use crate::codec::Decoder;
use crate::error::{agrees, Error};
use crate::number::{
    be_i16, be_u16, be_u32, be_u32_at, be_u64, be_u64_at, fits, signed, u16_of, u32_of,
};
use crate::parsers::{string, string_at};

verus! {

/// The header of a record: what it holds, where it lies and how long it is.
#[derive(Debug)]
pub struct RecordHeader {
    /// The length of the record on disk, header and payload.
    pub total_size: u32,
    /// The version of the header layout; above 1000, positions take eight
    /// bytes instead of four.
    pub version: u16,
    /// The length of the payload once decompressed.
    pub uncomp_len: u32,
    /// When the record was written, in the packed form of the format.
    pub datime: u32,
    /// The length of the header on disk.
    pub key_len: i16,
    /// The cycle number of the object.
    pub cycle: i16,
    /// The position of the record in the container.
    pub seek_key: u64,
    /// The position of the directory that lists the record.
    pub seek_pdir: u64,
    /// The class of the object.
    pub class_name: Vec<u8>,
    /// The name of the object.
    pub obj_name: Vec<u8>,
    /// The title of the object.
    pub obj_title: Vec<u8>,
}

/// A record header as a mathematical value.
pub struct RecordHeaderView {
    pub total_size: u32,
    pub version: u16,
    pub uncomp_len: u32,
    pub datime: u32,
    pub key_len: i16,
    pub cycle: i16,
    pub seek_key: u64,
    pub seek_pdir: u64,
    pub class_name: Seq<u8>,
    pub obj_name: Seq<u8>,
    pub obj_title: Seq<u8>,
}

impl RecordHeaderView {
    /// The header is no longer than the record.
    pub open spec fn wf(self) -> bool {
        0 <= self.key_len <= self.total_size
    }

    /// Whether the payload is stored compressed.
    pub open spec fn compressed(self) -> bool {
        self.total_size < self.uncomp_len
    }
}

impl View for RecordHeader {
    type V = RecordHeaderView;

    open spec fn view(&self) -> RecordHeaderView {
        RecordHeaderView {
            total_size: self.total_size,
            version: self.version,
            uncomp_len: self.uncomp_len,
            datime: self.datime,
            key_len: self.key_len,
            cycle: self.cycle,
            seek_key: self.seek_key,
            seek_pdir: self.seek_pdir,
            class_name: self.class_name@,
            obj_name: self.obj_name@,
            obj_title: self.obj_title@,
        }
    }
}

impl DeepView for RecordHeader {
    type V = RecordHeaderView;

    open spec fn deep_view(&self) -> RecordHeaderView {
        self@
    }
}

/// A position in the container: eight bytes where `wide`, else four.
pub open spec fn seek_at(b: Seq<u8>, at: int, wide: bool) -> Option<(u64, int)> {
    if wide {
        be_u64_at(b, at)
    } else {
        match be_u32_at(b, at) {
            Some((v, next)) => Some((v as u64, next)),
            None => None,
        }
    }
}

/// The record header at `at`: sizes, version and times in eighteen bytes, two
/// positions, and three strings for class, name and title. There is none
/// where the bytes end early or the header is longer than its record.
pub open spec fn record_header_at(b: Seq<u8>, at: int) -> Option<(RecordHeaderView, int)> {
    if !fits(b, at, 18) {
        None
    } else {
        let wide = u16_of(b, at + 4) > 1000;
        match seek_at(b, at + 18, wide) {
            Some((seek_key, p1)) => match seek_at(b, p1, wide) {
                Some((seek_pdir, p2)) => match string_at(b, p2) {
                    Some((class_name, p3)) => match string_at(b, p3) {
                        Some((obj_name, p4)) => match string_at(b, p4) {
                            Some((obj_title, next)) => {
                                let h = RecordHeaderView {
                                    total_size: u32_of(b, at) as u32,
                                    version: u16_of(b, at + 4) as u16,
                                    uncomp_len: u32_of(b, at + 6) as u32,
                                    datime: u32_of(b, at + 10) as u32,
                                    key_len: signed(u16_of(b, at + 14), 0x8000) as i16,
                                    cycle: signed(u16_of(b, at + 16), 0x8000) as i16,
                                    seek_key,
                                    seek_pdir,
                                    class_name,
                                    obj_name,
                                    obj_title,
                                };
                                if h.wf() {
                                    Some((h, next))
                                } else {
                                    None
                                }
                            },
                            None => None,
                        },
                        None => None,
                    },
                    None => None,
                },
                None => None,
            },
            None => None,
        }
    }
}

/// Reads a position at `at`.
pub fn seek_point(input: &[u8], at: usize, wide: bool) -> (r: Result<(u64, usize), Error>)
    ensures
        agrees(r, seek_at(input@, at as int, wide)),
{
    if wide {
        be_u64(input, at)
    } else {
        match be_u32(input, at) {
            Ok((v, next)) => Ok((v as u64, next)),
            Err(e) => Err(e),
        }
    }
}

/// Reads the record header at `at`.
pub fn record_header(input: &[u8], at: usize) -> (r: Result<(RecordHeader, usize), Error>)
    ensures
        agrees(r, record_header_at(input@, at as int)),
        r matches Ok((h, _)) ==> h@.wf(),
{
    let (total_size, p) = be_u32(input, at)?;
    let (version, p) = be_u16(input, p)?;
    let (uncomp_len, p) = be_u32(input, p)?;
    let (datime, p) = be_u32(input, p)?;
    let (key_len, p) = be_i16(input, p)?;
    let (cycle, p) = be_i16(input, p)?;
    let wide = version > 1000;
    let (seek_key, p) = seek_point(input, p, wide)?;
    let (seek_pdir, p) = seek_point(input, p, wide)?;
    let (class_name, p) = string(input, p)?;
    let (obj_name, p) = string(input, p)?;
    let (obj_title, p) = string(input, p)?;
    if key_len < 0 || key_len as u32 > total_size {
        return Err(Error::Format);
    }
    Ok(
        (
            RecordHeader {
                total_size,
                version,
                uncomp_len,
                datime,
                key_len,
                cycle,
                seek_key,
                seek_pdir,
                class_name,
                obj_name,
                obj_title,
            },
            p,
        ),
    )
}

/// Decoder of record headers that stand one behind the other.
pub struct RecordHeaders;

impl Decoder for RecordHeaders {
    type Item = RecordHeader;

    open spec fn parsed(&self, bytes: Seq<u8>, at: int) -> Option<(RecordHeaderView, int)> {
        record_header_at(bytes, at)
    }

    proof fn parsed_advances(&self, bytes: Seq<u8>, at: int) {
    }

    fn parse(&self, input: &[u8], at: usize) -> (r: Result<(RecordHeader, usize), Error>) {
        record_header(input, at)
    }
}

impl RecordHeader {
    /// A copy of the header.
    pub fn duplicate(&self) -> (r: RecordHeader)
        ensures
            r@ == self@,
    {
        RecordHeader {
            total_size: self.total_size,
            version: self.version,
            uncomp_len: self.uncomp_len,
            datime: self.datime,
            key_len: self.key_len,
            cycle: self.cycle,
            seek_key: self.seek_key,
            seek_pdir: self.seek_pdir,
            class_name: slice_to_vec(self.class_name.as_slice()),
            obj_name: slice_to_vec(self.obj_name.as_slice()),
            obj_title: slice_to_vec(self.obj_title.as_slice()),
        }
    }
}

} // verus!
