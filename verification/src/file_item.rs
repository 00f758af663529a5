//! One record of a container, and the reading of its payload.

use vstd::prelude::*;
use vstd::slice::slice_subrange;
use vstd::string::StringSliceAdditionalSpecFns;
use crate::decompress::{decompress, decompressed};
use crate::error::Error;
use crate::parsers::{frame, frame_at};
use crate::record::{RecordHeader, RecordHeaderView};
use crate::number::be_u16_at;
use crate::object::{law_unknown_class_in, object_in, LayoutParser, Value, ValueView, MAX_DEPTH};
use crate::source::Source;
use crate::streamer::{Registry, StreamerInfoView};
use crate::text::{decimal, put, put_bytes, put_decimal, put_signed, signed_decimal};
use crate::tree::{tree_at, Tree, TreeParser, TreeView};

verus! {

/// What a parser of a record's object is given besides the object's bytes.
pub struct Context<'s> {
    /// The container that the record lies in.
    pub source: Source,
    /// The position that references within the payload count from.
    pub offset: u64,
    /// The whole payload, decompressed.
    pub s: &'s [u8],
}

/// A parse context as a mathematical value.
pub struct ContextView {
    pub source: Seq<u8>,
    pub offset: u64,
    pub s: Seq<u8>,
}

impl<'s> View for Context<'s> {
    type V = ContextView;

    open spec fn view(&self) -> ContextView {
        ContextView { source: self.source@, offset: self.offset, s: self.s@ }
    }
}

/// A parser of the object that a record holds.
pub trait ObjectParser {
    /// The parsed object.
    type Output;

    /// Whether `out` is what the parser makes of `bytes` in `context`: the
    /// object, or the error that says why the bytes hold no such object.
    spec fn parses(
        &self,
        bytes: Seq<u8>,
        context: ContextView,
        out: Result<Self::Output, Error>,
    ) -> bool;

    /// Parses the object that fills `input`.
    fn parse(&self, input: &[u8], context: &Context) -> (r: Result<Self::Output, Error>)
        ensures
            self.parses(input@, context@, r),
    ;
}

/// Describes a single item within a container, such as a tree.
#[derive(Debug)]
pub struct FileItem {
    source: Source,
    tkey_hdr: RecordHeader,
}

/// How far behind the header references within a payload begin to count.
pub const MAP_OFFSET: u64 = 2;

/// The text that names an item: its name and its class, each between
/// backticks.
pub open spec fn name_of(h: RecordHeaderView) -> Seq<u8> {
    "`".spec_bytes() + h.obj_name + "` of type `".spec_bytes() + h.class_name + "`".spec_bytes()
}

/// What can be said of an item in words: one line for each of its name, its
/// class, its title, its position, the length of its header, its length on
/// disk, the length of its payload once decompressed, its version and its
/// cycle.
pub open spec fn info_of(h: RecordHeaderView) -> Seq<u8> {
    "name: ".spec_bytes() + h.obj_name + "\nclass: ".spec_bytes() + h.class_name
        + "\ntitle: ".spec_bytes() + h.obj_title + "\nposition: ".spec_bytes() + decimal(
        h.seek_key as nat,
    ) + "\nheader length: ".spec_bytes() + signed_decimal(h.key_len as int)
        + "\nlength on disk: ".spec_bytes() + decimal(h.total_size as nat)
        + "\nlength unpacked: ".spec_bytes() + decimal(h.uncomp_len as nat)
        + "\nversion: ".spec_bytes() + decimal(h.version as nat) + "\ncycle: ".spec_bytes()
        + signed_decimal(h.cycle as int) + "\n".spec_bytes()
}

/// The payload of the record with header `h` in a container of bytes
/// `source`: the bytes behind the header up to the record's length,
/// decompressed to the declared length where the record is stored compressed.
pub open spec fn payload_of(h: RecordHeaderView, source: Seq<u8>) -> Result<Seq<u8>, Error> {
    if !h.wf() {
        Err(Error::Format)
    } else {
        let start = h.seek_key + h.key_len;
        let len = h.total_size - h.key_len;
        if start + len > source.len() {
            Err(Error::Source)
        } else if h.compressed() {
            decompressed(source.subrange(start, start + len), 0, h.uncomp_len as nat)
        } else {
            Ok(source.subrange(start, start + len))
        }
    }
}

/// The bytes of the object that a payload holds: those that the byte count at
/// its start frames.
pub open spec fn framed_object(payload: Seq<u8>) -> Option<Seq<u8>> {
    match frame_at(payload, 0) {
        Some((start, end)) => Some(payload.subrange(start, end)),
        None => None,
    }
}

/// The context in which the object of a record with header `h` is parsed.
pub open spec fn context_of(h: RecordHeaderView, source: Seq<u8>, payload: Seq<u8>) -> ContextView {
    ContextView { source, offset: (h.key_len + MAP_OFFSET) as u64, s: payload }
}

/// The tree that the record with header `h` holds.
pub open spec fn tree_of(h: RecordHeaderView, source: Seq<u8>) -> Result<TreeView, Error> {
    match payload_of(h, source) {
        Ok(p) => match framed_object(p) {
            Some(inner) => match tree_at(inner, 0, source) {
                Some((t, _)) => Ok(t),
                None => Err(Error::Format),
            },
            None => Err(Error::Format),
        },
        Err(e) => Err(e),
    }
}

/// The values of the object that the record with header `h` holds, decoded
/// by the layout that the registry `reg` holds for the class of the record in
/// the version that the object names.
pub open spec fn object_of(h: RecordHeaderView, source: Seq<u8>, reg: Seq<StreamerInfoView>) -> Result<
    Seq<ValueView>,
    Error,
> {
    match payload_of(h, source) {
        Ok(p) => match framed_object(p) {
            Some(inner) => object_in(reg, h.class_name, inner, MAX_DEPTH as nat),
            None => Err(Error::Format),
        },
        Err(e) => Err(e),
    }
}

/// Law of the items: an item whose object names a version of its class for
/// which the registry holds no layout is not decoded; the outcome is an
/// unknown-class error.
pub proof fn law_item_of_unknown_class(
    h: RecordHeaderView,
    source: Seq<u8>,
    reg: Seq<StreamerInfoView>,
)
    requires
        payload_of(h, source) matches Ok(p) && framed_object(p) matches Some(inner) && be_u16_at(
            inner,
            0,
        ) matches Some((version, _)) && forall|i: int|
            0 <= i < reg.len() ==> !(#[trigger] reg[i].class_name == h.class_name && reg[i].version
                == version),
    ensures
        object_of(h, source, reg) == Err::<Seq<ValueView>, Error>(Error::UnknownClass),
{
    let inner = framed_object(payload_of(h, source)->Ok_0).unwrap();
    law_unknown_class_in(reg, h.class_name, inner, MAX_DEPTH as nat);
}

impl FileItem {
    /// The header of the item's record.
    pub closed spec fn header(&self) -> RecordHeaderView {
        self.tkey_hdr@
    }

    /// The bytes of the container that the item lies in.
    pub closed spec fn container(&self) -> Seq<u8> {
        self.source@
    }

    /// New file item from the information in a record header and the
    /// associated container.
    pub fn new(tkey_hdr: &RecordHeader, source: Source) -> (r: FileItem)
        ensures
            r.header() == tkey_hdr@,
            r.container() == source@,
    {
        FileItem { source, tkey_hdr: tkey_hdr.duplicate() }
    }

    /// The header of the item's record.
    pub fn record(&self) -> (r: &RecordHeader)
        ensures
            r@ == self.header(),
    {
        &self.tkey_hdr
    }

    /// Information about this file item in human readable form.
    pub fn verbose_info(&self) -> (r: Vec<u8>)
        ensures
            r@ == info_of(self.header()),
    {
        let h = &self.tkey_hdr;
        let mut out: Vec<u8> = Vec::new();
        proof {
            assert(Seq::<u8>::empty() + "name: ".spec_bytes() =~= "name: ".spec_bytes());
        }
        put(&mut out, "name: ");
        put_bytes(&mut out, h.obj_name.as_slice());
        put(&mut out, "\nclass: ");
        put_bytes(&mut out, h.class_name.as_slice());
        put(&mut out, "\ntitle: ");
        put_bytes(&mut out, h.obj_title.as_slice());
        put(&mut out, "\nposition: ");
        put_decimal(&mut out, h.seek_key);
        put(&mut out, "\nheader length: ");
        put_signed(&mut out, h.key_len as i64);
        put(&mut out, "\nlength on disk: ");
        put_decimal(&mut out, h.total_size as u64);
        put(&mut out, "\nlength unpacked: ");
        put_decimal(&mut out, h.uncomp_len as u64);
        put(&mut out, "\nversion: ");
        put_decimal(&mut out, h.version as u64);
        put(&mut out, "\ncycle: ");
        put_signed(&mut out, h.cycle as i64);
        put(&mut out, "\n");
        out
    }

    /// The name of the item and its class.
    pub fn name(&self) -> (r: Vec<u8>)
        ensures
            r@ == name_of(self.header()),
    {
        let mut out: Vec<u8> = Vec::new();
        proof {
            assert(Seq::<u8>::empty() + "`".spec_bytes() =~= "`".spec_bytes());
        }
        put(&mut out, "`");
        put_bytes(&mut out, self.tkey_hdr.obj_name.as_slice());
        put(&mut out, "` of type `");
        put_bytes(&mut out, self.tkey_hdr.class_name.as_slice());
        put(&mut out, "`");
        out
    }

    /// Parse this item as a tree.
    ///
    /// Fails as [`FileItem::parse_with`] does, with a format error where the
    /// object is no description of a tree.
    pub fn as_tree(&self) -> (r: Result<Tree, Error>)
        ensures
            match r {
                Ok(t) => tree_of(self.header(), self.container()) == Ok::<TreeView, Error>(t@),
                Err(e) => tree_of(self.header(), self.container()) == Err::<TreeView, Error>(e),
            },
    {
        self.parse_with(&TreeParser)
    }

    /// Decodes the object of this item by the layout that `registry` holds
    /// for the class of the item, in the version that the object names, and
    /// returns its values in the order in which they are stored.
    ///
    /// Fails as [`FileItem::parse_with`] does, and as [`Registry::decode`]
    /// does: with an unknown-class error where the registry holds no layout
    /// for the class and version of the object or of an object embedded in
    /// it.
    pub fn as_object(&self, registry: &Registry) -> (r: Result<Vec<Value>, Error>)
        ensures
            match r {
                Ok(values) => object_of(self.header(), self.container(), registry.deep_view())
                    == Ok::<_, Error>(values.deep_view()),
                Err(e) => object_of(self.header(), self.container(), registry.deep_view()) == Err::<
                    Seq<ValueView>,
                    Error,
                >(e),
            },
    {
        let parser = LayoutParser { registry, class: self.tkey_hdr.class_name.as_slice() };
        self.parse_with(&parser)
    }

    /// Reads the payload of the record, and decompresses it where it is
    /// stored compressed.
    ///
    /// Fails with a format error where the header is longer than its record,
    /// with a source error where the record does not lie within the
    /// container, and as [`decompress`] does on a compressed payload.
    pub fn payload(&self) -> (r: Result<Vec<u8>, Error>)
        ensures
            match r {
                Ok(v) => payload_of(self.header(), self.container()) == Ok::<Seq<u8>, Error>(v@),
                Err(e) => payload_of(self.header(), self.container()) == Err::<Seq<u8>, Error>(e),
            },
    {
        let h = &self.tkey_hdr;
        if h.key_len < 0 || h.key_len as u32 > h.total_size {
            return Err(Error::Format);
        }
        let size: usize = self.source.size();
        let len: u64 = (h.total_size - h.key_len as u32) as u64;
        let start: u64 = match h.seek_key.checked_add(h.key_len as u64) {
            Some(s) => s,
            None => {
                return Err(Error::Source);
            },
        };
        if start > size as u64 {
            return Err(Error::Source);
        }
        let stored = self.source.fetch(start, len)?;
        if h.total_size < h.uncomp_len {
            decompress(stored.as_slice(), h.uncomp_len as usize)
        } else {
            Ok(stored)
        }
    }

    /// Reads the payload of the record and parses the object in it with
    /// `parser`, which is given exactly the bytes that the object's byte
    /// count frames.
    ///
    /// Fails as [`FileItem::payload`] does, with a format error where the
    /// payload does not begin with a byte count that it can hold, and with
    /// the error of the parser where the parser fails: what the parser
    /// answers is handed on as it is.
    pub fn parse_with<P: ObjectParser>(&self, parser: &P) -> (r: Result<P::Output, Error>)
        ensures
            match payload_of(self.header(), self.container()) {
                Ok(p) => match framed_object(p) {
                    Some(inner) => parser.parses(
                        inner,
                        context_of(self.header(), self.container(), p),
                        r,
                    ),
                    None => r == Err::<P::Output, Error>(Error::Format),
                },
                Err(e) => r == Err::<P::Output, Error>(e),
            },
    {
        let buf = self.payload()?;
        let s = buf.as_slice();
        if self.tkey_hdr.key_len < 0 {
            return Err(Error::Format);
        }
        let context = Context {
            source: self.source.handle(),
            offset: self.tkey_hdr.key_len as u64 + MAP_OFFSET,
            s,
        };
        let (start, end) = frame(s, 0)?;
        let inner = slice_subrange(s, start, end);
        parser.parse(inner, &context)
    }
}

} // verus!
