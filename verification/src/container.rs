//! The container as a whole: its header, its directory and its key index.
//!
//! A container begins with the four bytes `root`, the format version and the
//! position of the first record. Positions in the header take eight bytes
//! where the version is above 1 000 000, else four. The directory stands
//! behind the name block of the first record and gives the position of the
//! key index: a record whose payload is a count and that many record headers,
//! one for each top-level record.

use vstd::prelude::*;
use crate::codec::{decode_row, lemma_row_shape, row_parsed};
use crate::error::Error;
use crate::file_item::{payload_of, FileItem};
use crate::number::{be_i16, be_i32, be_i32_at, be_u32, be_u8, fits, i16_of, i32_of, u32_of, u64_of};
use crate::record::{record_header, record_header_at, seek_point, RecordHeader, RecordHeaderView,
    RecordHeaders};
use crate::source::Source;
use crate::catalogue::{catalogue_in, CatalogueParser};
use crate::streamer::{Registry, StreamerInfo, StreamerInfoView};

verus! {

/// The header of a container.
#[derive(Debug, Clone, Copy, PartialEq, Eq, Structural)]
pub struct FileHeader {
    /// The format version.
    pub version: i32,
    /// The position of the first record.
    pub begin: i32,
    /// The position behind the last record.
    pub end: u64,
    /// The position of the list of free segments.
    pub seek_free: u64,
    /// The length of that list.
    pub nbytes_free: i32,
    /// The number of free segments.
    pub n_entries_free: i32,
    /// The length of the name block of the first record.
    pub n_bytes_name: i32,
    /// The width of positions in the records, in bytes.
    pub pointer_size: u8,
    /// The compression setting that the container was written with.
    pub compression: i32,
    /// The position of the record that holds the schema catalogue.
    pub seek_info: u64,
    /// The length of that record.
    pub nbytes_info: i32,
    /// The position of the directory.
    pub seek_dir: u64,
}

/// The directory of a container.
#[derive(Debug, Clone, Copy, PartialEq, Eq, Structural)]
pub struct Directory {
    /// The version of the directory layout; above 1000, positions take eight
    /// bytes instead of four.
    pub version: i16,
    /// When the directory was created.
    pub c_time: u32,
    /// When it was last changed.
    pub m_time: u32,
    /// The length of the key index.
    pub n_bytes_keys: i32,
    /// The length of the directory's name block.
    pub n_bytes_name: i32,
    /// The position of the directory itself.
    pub seek_dir: u64,
    /// The position of the directory above it.
    pub seek_parent: u64,
    /// The position of the key index.
    pub seek_keys: u64,
}

/// The position stored at `at`: eight bytes where `wide`, else four.
pub open spec fn seek_of(b: Seq<u8>, at: int, wide: bool) -> u64 {
    if wide {
        u64_of(b, at) as u64
    } else {
        u32_of(b, at) as u64
    }
}

/// Whether `b` begins with the signature of a container.
pub open spec fn has_magic(b: Seq<u8>) -> bool {
    fits(b, 0, 4) && b[0] == 0x72 && b[1] == 0x6f && b[2] == 0x6f && b[3] == 0x74
}

/// The header at the start of `b`. There is none where the signature is
/// missing, where the bytes end within the header, and where the position of
/// the first record or the length of its name block is negative.
pub open spec fn file_header_of(b: Seq<u8>) -> Option<FileHeader> {
    if !has_magic(b) || !fits(b, 0, 8) {
        None
    } else {
        let wide = i32_of(b, 4) > 1_000_000;
        let w: int = if wide {
            8
        } else {
            4
        };
        if !fits(b, 0, 51 + 3 * w) || i32_of(b, 8) < 0 || i32_of(b, 20 + 2 * w) < 0 {
            None
        } else {
            Some(
                FileHeader {
                    version: i32_of(b, 4),
                    begin: i32_of(b, 8),
                    end: seek_of(b, 12, wide),
                    seek_free: seek_of(b, 12 + w, wide),
                    nbytes_free: i32_of(b, 12 + 2 * w),
                    n_entries_free: i32_of(b, 16 + 2 * w),
                    n_bytes_name: i32_of(b, 20 + 2 * w),
                    pointer_size: b[24 + 2 * w],
                    compression: i32_of(b, 25 + 2 * w),
                    seek_info: seek_of(b, 29 + 2 * w, wide),
                    nbytes_info: i32_of(b, 29 + 3 * w),
                    seek_dir: (i32_of(b, 8) + i32_of(b, 20 + 2 * w)) as u64,
                },
            )
        }
    }
}

/// The directory at `at`.
pub open spec fn directory_at(b: Seq<u8>, at: int) -> Option<Directory> {
    if !fits(b, at, 18) {
        None
    } else {
        let wide = i16_of(b, at) > 1000;
        let w: int = if wide {
            8
        } else {
            4
        };
        if !fits(b, at, 18 + 3 * w) {
            None
        } else {
            Some(
                Directory {
                    version: i16_of(b, at),
                    c_time: u32_of(b, at + 2) as u32,
                    m_time: u32_of(b, at + 6) as u32,
                    n_bytes_keys: i32_of(b, at + 10),
                    n_bytes_name: i32_of(b, at + 14),
                    seek_dir: seek_of(b, at + 18, wide),
                    seek_parent: seek_of(b, at + 18 + w, wide),
                    seek_keys: seek_of(b, at + 18 + 2 * w, wide),
                },
            )
        }
    }
}

/// The number of record headers that the key index at `at` declares.
pub open spec fn key_count_at(b: Seq<u8>, at: int) -> Option<int> {
    match record_header_at(b, at) {
        Some((_, p)) => match be_i32_at(b, p) {
            Some((n, _)) => if n >= 0 {
                Some(n as int)
            } else {
                None
            },
            None => None,
        },
        None => None,
    }
}

/// The record headers of the key index at `at`: behind the index's own record
/// header stands their number, then the headers one behind the other.
pub open spec fn key_index_at(b: Seq<u8>, at: int) -> Option<Seq<RecordHeaderView>> {
    match record_header_at(b, at) {
        Some((_, p)) => match be_i32_at(b, p) {
            Some((n, start)) => if n >= 0 {
                match row_parsed(RecordHeaders, b, start, n as nat) {
                    Some((headers, _)) => Some(headers),
                    None => None,
                }
            } else {
                None
            },
            None => None,
        },
        None => None,
    }
}

/// What the bytes of a container say of its records: the header, the
/// directory that the header points to, and the record headers of the key
/// index that the directory points to.
pub open spec fn index_of(b: Seq<u8>) -> Option<(FileHeader, Directory, Seq<RecordHeaderView>)> {
    match file_header_of(b) {
        Some(header) => match directory_at(b, header.seek_dir as int) {
            Some(directory) => match key_index_at(b, directory.seek_keys as int) {
                Some(keys) => Some((header, directory, keys)),
                None => None,
            },
            None => None,
        },
        None => None,
    }
}

/// The classes of the schema catalogue of a container: the catalogue is the
/// object of the record at the position that the header gives for it.
pub open spec fn streamers_of(b: Seq<u8>, header: FileHeader) -> Result<
    Seq<StreamerInfoView>,
    Error,
> {
    match record_header_at(b, header.seek_info as int) {
        Some((h, _)) => match payload_of(h, b) {
            Ok(p) => catalogue_in(p),
            Err(e) => Err(e),
        },
        None => Err(Error::Format),
    }
}

/// Law of the key index: whatever the bytes, a key index that can be read
/// holds exactly as many record headers as it declares.
pub proof fn law_key_index_length(b: Seq<u8>, at: int)
    ensures
        key_index_at(b, at) matches Some(keys) ==> key_count_at(b, at) == Some(keys.len() as int),
{
    if let Some((_, p)) = record_header_at(b, at) {
        if let Some((n, start)) = be_i32_at(b, p) {
            if n >= 0 {
                lemma_row_shape(RecordHeaders, b, start, n as nat);
            }
        }
    }
}

/// Reads the header at the start of `input`.
pub fn file_header(input: &[u8]) -> (r: Result<FileHeader, Error>)
    ensures
        match r {
            Ok(h) => file_header_of(input@) == Some(h),
            Err(e) => e == Error::Format && file_header_of(input@) is None,
        },
{
    if input.len() < 4 || input[0] != 0x72 || input[1] != 0x6f || input[2] != 0x6f || input[3]
        != 0x74 {
        return Err(Error::Format);
    }
    let (version, p) = be_i32(input, 4)?;
    let wide = version > 1_000_000;
    let (begin, p) = be_i32(input, p)?;
    let (end, p) = seek_point(input, p, wide)?;
    let (seek_free, p) = seek_point(input, p, wide)?;
    let (nbytes_free, p) = be_i32(input, p)?;
    let (n_entries_free, p) = be_i32(input, p)?;
    let (n_bytes_name, p) = be_i32(input, p)?;
    let (pointer_size, p) = be_u8(input, p)?;
    let (compression, p) = be_i32(input, p)?;
    let (seek_info, p) = seek_point(input, p, wide)?;
    let (nbytes_info, p) = be_i32(input, p)?;
    if input.len() - p < 18 || begin < 0 || n_bytes_name < 0 {
        return Err(Error::Format);
    }
    Ok(
        FileHeader {
            version,
            begin,
            end,
            seek_free,
            nbytes_free,
            n_entries_free,
            n_bytes_name,
            pointer_size,
            compression,
            seek_info,
            nbytes_info,
            seek_dir: begin as u64 + n_bytes_name as u64,
        },
    )
}

/// Reads the directory at `at`.
pub fn directory(input: &[u8], at: usize) -> (r: Result<Directory, Error>)
    ensures
        match r {
            Ok(d) => directory_at(input@, at as int) == Some(d),
            Err(e) => e == Error::Format && directory_at(input@, at as int) is None,
        },
{
    let (version, p) = be_i16(input, at)?;
    let wide = version > 1000;
    let (c_time, p) = be_u32(input, p)?;
    let (m_time, p) = be_u32(input, p)?;
    let (n_bytes_keys, p) = be_i32(input, p)?;
    let (n_bytes_name, p) = be_i32(input, p)?;
    let (seek_dir, p) = seek_point(input, p, wide)?;
    let (seek_parent, p) = seek_point(input, p, wide)?;
    let (seek_keys, _) = seek_point(input, p, wide)?;
    Ok(
        Directory {
            version,
            c_time,
            m_time,
            n_bytes_keys,
            n_bytes_name,
            seek_dir,
            seek_parent,
            seek_keys,
        },
    )
}

/// Reads the record headers of the key index at `at`.
pub fn key_index(input: &[u8], at: usize) -> (r: Result<Vec<RecordHeader>, Error>)
    ensures
        match r {
            Ok(keys) => key_index_at(input@, at as int) == Some(keys.deep_view())
                && key_count_at(input@, at as int) == Some(keys@.len() as int),
            Err(e) => e == Error::Format && key_index_at(input@, at as int) is None,
        },
{
    let (_own, p) = record_header(input, at)?;
    let (n, start) = be_i32(input, p)?;
    if n < 0 {
        return Err(Error::Format);
    }
    let (keys, _) = decode_row(&RecordHeaders, input, start, n as u32)?;
    Ok(keys)
}

/// An opened container: its header, its directory and its items.
#[derive(Debug)]
pub struct Container {
    source: Source,
    header: FileHeader,
    directory: Directory,
    items: Vec<FileItem>,
}

impl Container {
    /// The bytes of the container.
    pub closed spec fn bytes(&self) -> Seq<u8> {
        self.source@
    }

    /// The header as it was read.
    pub closed spec fn header_view(&self) -> FileHeader {
        self.header
    }

    /// The directory as it was read.
    pub closed spec fn directory_view(&self) -> Directory {
        self.directory
    }

    /// The record headers of the items, in the order of the key index.
    pub closed spec fn index(&self) -> Seq<RecordHeaderView> {
        Seq::new(self.items@.len(), |i: int| self.items@[i].header())
    }

    /// Every item lies in this container, and the items are the records that
    /// the key index of the container lists.
    pub closed spec fn wf(&self) -> bool {
        &&& index_of(self.source@) == Some((self.header, self.directory, self.index()))
        &&& forall|i: int| 0 <= i < self.items@.len() ==> (#[trigger] self.items@[i]).container()
            == self.source@
    }

    /// Reads the header, the directory and the key index of the container
    /// that `source` holds. The payload of the records is not read.
    ///
    /// Fails with a format error where the signature is missing, where the
    /// header, the directory or the key index end early or point behind the
    /// end of the bytes, and where a record header is longer than its record.
    pub fn open(source: Source) -> (r: Result<Container, Error>)
        ensures
            match r {
                Ok(c) => c.wf() && c.bytes() == source@ && index_of(source@) == Some(
                    (c.header_view(), c.directory_view(), c.index()),
                ),
                Err(e) => e == Error::Format && index_of(source@) is None,
            },
    {
        let all = source.bytes();
        let header = file_header(all)?;
        if header.seek_dir > all.len() as u64 {
            return Err(Error::Format);
        }
        let directory = directory(all, header.seek_dir as usize)?;
        if directory.seek_keys > all.len() as u64 {
            return Err(Error::Format);
        }
        let keys = key_index(all, directory.seek_keys as usize)?;
        let mut items: Vec<FileItem> = Vec::new();
        let mut i: usize = 0;
        while i < keys.len()
            invariant
                i <= keys@.len(),
                items@.len() == i,
                forall|j: int| 0 <= j < i ==> (#[trigger] items@[j]).header() == keys@[j]@,
                forall|j: int| 0 <= j < i ==> (#[trigger] items@[j]).container() == source@,
            decreases keys@.len() - i,
        {
            let item = FileItem::new(&keys[i], source.handle());
            items.push(item);
            i = i + 1;
        }
        let c = Container { source, header, directory, items };
        proof {
            assert(c.index() =~= keys.deep_view());
        }
        Ok(c)
    }

    /// The header of the container.
    pub fn header(&self) -> (r: FileHeader)
        ensures
            r == self.header_view(),
    {
        self.header
    }

    /// Reads the schema catalogue of the container.
    ///
    /// Fails with a format error where the header of the catalogue's record
    /// does not have its layout, as [`FileItem::parse_with`] does where the
    /// record cannot be read, and as [`crate::catalogue::read_catalogue`]
    /// does.
    pub fn streamers(&self) -> (r: Result<Vec<StreamerInfo>, Error>)
        ensures
            match r {
                Ok(v) => streamers_of(self.bytes(), self.header_view()) == Ok::<_, Error>(
                    v.deep_view(),
                ),
                Err(e) => streamers_of(self.bytes(), self.header_view()) == Err::<
                    Seq<StreamerInfoView>,
                    Error,
                >(e),
            },
    {
        let all = self.source.bytes();
        if self.header.seek_info > all.len() as u64 {
            return Err(Error::Format);
        }
        let (h, _) = record_header(all, self.header.seek_info as usize)?;
        let item = FileItem::new(&h, self.source.handle());
        item.parse_with(&CatalogueParser)
    }

    /// Reads the schema catalogue of the container into a registry, in
    /// which a layout is found by class name and version.
    pub fn registry(&self) -> (r: Result<Registry, Error>)
        ensures
            match r {
                Ok(reg) => streamers_of(self.bytes(), self.header_view()) == Ok::<_, Error>(
                    reg.deep_view(),
                ),
                Err(e) => streamers_of(self.bytes(), self.header_view()) == Err::<
                    Seq<StreamerInfoView>,
                    Error,
                >(e),
            },
    {
        let infos = self.streamers()?;
        Ok(Registry::new(infos))
    }

    /// The top-level records of the container, in the order of the key
    /// index. There are as many as the key index lists, and each has the
    /// record header that the index gives it.
    pub fn items(&self) -> (r: &[FileItem])
        ensures
            r@.len() == self.index().len(),
            forall|i: int| 0 <= i < r@.len() ==> (#[trigger] r@[i]).header() == self.index()[i],
            self.wf() ==> forall|i: int|
                0 <= i < r@.len() ==> (#[trigger] r@[i]).container() == self.bytes(),
    {
        self.items.as_slice()
    }
}

/// Law of the items: in a container as [`Container::open`] returns it, the
/// items are as many as the key index declares record headers, and the
/// record header of each is the one at its place in the index.
pub proof fn law_items_mirror_index(c: Container)
    requires
        c.wf(),
    ensures
        index_of(c.bytes()) matches Some((_, directory, keys)) && keys == c.index() && key_count_at(
            c.bytes(),
            directory.seek_keys as int,
        ) == Some(c.index().len() as int),
{
    let directory = index_of(c.bytes()).unwrap().1;
    law_key_index_length(c.bytes(), directory.seek_keys as int);
}

} // verus!
