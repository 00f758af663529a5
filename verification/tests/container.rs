use root_io::container::{directory, file_header, key_index, Container};
use root_io::error::Error;
use root_io::event::event_stream_from_tree;
use root_io::file_item::FileItem;
use root_io::names::parse_tobjarray_of_tnameds;
use root_io::record::{record_header, RecordHeader};
use root_io::source::Source;
use root_io::codec::{BeF32, BeI32, BeU32};
use root_io::tree::{Basket, Branch, ElementCount, Tree};
use std::io::Write;

fn string(s: &[u8]) -> Vec<u8> {
    let mut out = Vec::new();
    if s.len() < 255 {
        out.push(s.len() as u8);
    } else {
        out.push(255);
        out.extend_from_slice(&(s.len() as u32).to_be_bytes());
    }
    out.extend_from_slice(s);
    out
}

fn framed(payload: &[u8]) -> Vec<u8> {
    let mut out = (0x4000_0000u32 | payload.len() as u32).to_be_bytes().to_vec();
    out.extend_from_slice(payload);
    out
}

fn seek(at: u64, wide: bool) -> Vec<u8> {
    if wide {
        at.to_be_bytes().to_vec()
    } else {
        (at as u32).to_be_bytes().to_vec()
    }
}

fn header_bytes(total: u32, uncomp: u32, key_len: i16, at: u64, class: &[u8], name: &[u8], wide: bool) -> Vec<u8> {
    let mut out = total.to_be_bytes().to_vec();
    out.extend_from_slice(&(if wide { 1004u16 } else { 4u16 }).to_be_bytes());
    out.extend_from_slice(&uncomp.to_be_bytes());
    out.extend_from_slice(&0x1234_5678u32.to_be_bytes());
    out.extend_from_slice(&key_len.to_be_bytes());
    out.extend_from_slice(&1i16.to_be_bytes());
    out.extend_from_slice(&seek(at, wide));
    out.extend_from_slice(&seek(100, wide));
    out.extend_from_slice(&string(class));
    out.extend_from_slice(&string(name));
    out.extend_from_slice(&string(b"a title"));
    out
}

/// A record at `at`: its header and its payload; `uncomp` is the length that
/// the header declares for the decompressed payload.
fn record(at: u64, class: &[u8], name: &[u8], payload: &[u8], uncomp: u32, wide: bool) -> Vec<u8> {
    let key_len = header_bytes(0, 0, 0, at, class, name, wide).len() as i16;
    let total = key_len as u32 + payload.len() as u32;
    let mut out = header_bytes(total, uncomp, key_len, at, class, name, wide);
    out.extend_from_slice(payload);
    out
}

fn file_header_bytes(version: i32, begin: i32, name_len: i32, info: u64) -> Vec<u8> {
    let wide = version > 1_000_000;
    let mut out = b"root".to_vec();
    out.extend_from_slice(&version.to_be_bytes());
    out.extend_from_slice(&begin.to_be_bytes());
    out.extend_from_slice(&seek(9999, wide));
    out.extend_from_slice(&seek(8888, wide));
    out.extend_from_slice(&77i32.to_be_bytes());
    out.extend_from_slice(&1i32.to_be_bytes());
    out.extend_from_slice(&name_len.to_be_bytes());
    out.push(4);
    out.extend_from_slice(&101i32.to_be_bytes());
    out.extend_from_slice(&seek(info, wide));
    out.extend_from_slice(&55i32.to_be_bytes());
    out.extend_from_slice(&[0u8; 18]);
    out
}

fn directory_bytes(keys: u64, wide: bool) -> Vec<u8> {
    let mut out = (if wide { 1005i16 } else { 5i16 }).to_be_bytes().to_vec();
    out.extend_from_slice(&11u32.to_be_bytes());
    out.extend_from_slice(&22u32.to_be_bytes());
    out.extend_from_slice(&33i32.to_be_bytes());
    out.extend_from_slice(&44i32.to_be_bytes());
    out.extend_from_slice(&seek(100, wide));
    out.extend_from_slice(&seek(0, wide));
    out.extend_from_slice(&seek(keys, wide));
    out
}

fn zlib_block(data: &[u8]) -> Vec<u8> {
    let mut enc = flate2::write::ZlibEncoder::new(Vec::new(), flate2::Compression::default());
    enc.write_all(data).unwrap();
    let packed = enc.finish().unwrap();
    let mut out = vec![b'Z', b'L', 1];
    out.extend_from_slice(&(packed.len() as u32).to_le_bytes()[..3]);
    out.extend_from_slice(&(data.len() as u32).to_le_bytes()[..3]);
    out.extend_from_slice(&packed);
    out
}

fn object_header() -> Vec<u8> {
    let mut out = 1u16.to_be_bytes().to_vec();
    out.extend_from_slice(&0u32.to_be_bytes());
    out.extend_from_slice(&0x0300_0000u32.to_be_bytes());
    out
}

fn named(name: &[u8]) -> Vec<u8> {
    let mut out = 1u16.to_be_bytes().to_vec();
    out.extend_from_slice(&object_header());
    out.extend_from_slice(&string(name));
    out.extend_from_slice(&string(b"title"));
    framed(&out)
}

fn name_list(names: &[&[u8]]) -> Vec<u8> {
    let mut out = 3u16.to_be_bytes().to_vec();
    out.extend_from_slice(&object_header());
    out.extend_from_slice(&string(b""));
    out.extend_from_slice(&(names.len() as i32).to_be_bytes());
    out.extend_from_slice(&0i32.to_be_bytes());
    for (i, name) in names.iter().enumerate() {
        if name.is_empty() {
            out.extend_from_slice(&0u32.to_be_bytes());
        } else if i == 0 {
            out.extend_from_slice(&0x4000_0040u32.to_be_bytes());
            out.extend_from_slice(&0xffff_ffffu32.to_be_bytes());
            out.extend_from_slice(b"TNamed\0");
            out.extend_from_slice(&named(name));
        } else {
            out.extend_from_slice(&0x8000_0042u32.to_be_bytes());
            out.extend_from_slice(&named(name));
        }
    }
    framed(&out)
}

struct Column {
    name: &'static str,
    rule: Option<&'static str>,
    baskets: Vec<Vec<u8>>,
}

fn floats(values: &[f32]) -> Vec<u8> {
    values.iter().flat_map(|v| v.to_bits().to_be_bytes()).collect()
}

fn event_columns() -> Vec<Column> {
    let classes: Vec<u8> = [
        name_list(&[b"CMBAC-B-NOPF-ALL", b"", b"C0SMH-B-NOPF-ALL"]),
        name_list(&[]),
        name_list(&[b"C0SMH-B-NOPF-ALL"]),
    ]
    .concat();
    let counted = Some("Tracks");
    vec![
        Column { name: "Tracks", rule: None, baskets: vec![[0u32, 2, 1].iter().flat_map(|v| v.to_be_bytes()).collect()] },
        Column {
            name: "AliESDRun.fRunNumber",
            rule: None,
            baskets: vec![1i32.to_be_bytes().to_vec(), [1i32.to_be_bytes(), 1i32.to_be_bytes()].concat()],
        },
        Column { name: "AliESDRun.fTriggerClasses", rule: None, baskets: vec![classes] },
        Column {
            name: "AliESDHeader.fTriggerMask",
            rule: None,
            baskets: vec![[0b101u64, 0, 1].iter().flat_map(|v| v.to_be_bytes()).collect()],
        },
        Column {
            name: "PrimaryVertex.AliVertex.fPosition[3]",
            rule: None,
            baskets: vec![floats(&[0.1, 0.2, 0.3, 1.1, 1.2, 1.3, 2.1, 2.2, 2.3])],
        },
        Column {
            name: "PrimaryVertex.AliVertex.fNContributors",
            rule: None,
            baskets: vec![[0i32, 5, 1].iter().flat_map(|v| v.to_be_bytes()).collect()],
        },
        Column { name: "Tracks.fX", rule: counted, baskets: vec![floats(&[1.0, 2.0]), floats(&[3.0])] },
        Column {
            name: "Tracks.fP[5]",
            rule: counted,
            baskets: vec![floats(&(0..15).map(|i| i as f32).collect::<Vec<f32>>())],
        },
        Column { name: "Tracks.fAlpha", rule: counted, baskets: vec![floats(&[0.5, 0.25, 0.125])] },
        Column {
            name: "Tracks.fFlags",
            rule: counted,
            baskets: vec![[7u64, 8, 9].iter().flat_map(|v| v.to_be_bytes()).collect()],
        },
        Column { name: "Tracks.fITSchi2", rule: counted, baskets: vec![vec![127, 0, 0, 128, 0, 0, 129, 0, 0x40]] },
        Column { name: "Tracks.fITSncls", rule: counted, baskets: vec![vec![4, 5, 0xff]] },
        Column { name: "Tracks.fITSClusterMap", rule: counted, baskets: vec![vec![1, 2, 3]] },
        Column {
            name: "Tracks.fTPCncls",
            rule: counted,
            baskets: vec![[100u16, 110, 120].iter().flat_map(|v| v.to_be_bytes()).collect()],
        },
        Column { name: "Tracks.fTPCchi2", rule: counted, baskets: vec![vec![126, 0, 0, 127, 0, 0x80, 130, 0, 0]] },
    ]
}

/// Lays the baskets of the columns out from `at` on and returns the bytes of
/// the baskets and the description of the tree. The basket of the column
/// `packed` is stored compressed.
fn tree_bytes(at: u64, rows: u64, columns: &[Column], packed: &str) -> (Vec<u8>, Vec<u8>) {
    let mut data = Vec::new();
    let mut desc = 20u16.to_be_bytes().to_vec();
    desc.extend_from_slice(&string(b"esdTree"));
    desc.extend_from_slice(&string(b"Tree with events"));
    desc.extend_from_slice(&rows.to_be_bytes());
    desc.extend_from_slice(&(columns.len() as u32).to_be_bytes());
    for c in columns {
        desc.extend_from_slice(&string(c.name.as_bytes()));
        match c.rule {
            None => {
                desc.push(0);
                desc.extend_from_slice(&1u32.to_be_bytes());
            }
            Some(counter) => {
                desc.push(1);
                desc.extend_from_slice(&string(counter.as_bytes()));
            }
        }
        desc.extend_from_slice(&(c.baskets.len() as u32).to_be_bytes());
        for b in &c.baskets {
            let stored = if c.name == packed { zlib_block(b) } else { b.clone() };
            assert!(c.name != packed || stored.len() < b.len());
            desc.extend_from_slice(&(at + data.len() as u64).to_be_bytes());
            desc.extend_from_slice(&(stored.len() as u32).to_be_bytes());
            desc.extend_from_slice(&(b.len() as u32).to_be_bytes());
            data.extend_from_slice(&stored);
        }
    }
    (data, desc)
}

fn object(body: &[u8]) -> Vec<u8> {
    let mut out = 1u16.to_be_bytes().to_vec();
    out.extend_from_slice(body);
    framed(&out)
}

fn catalogue_bytes() -> Vec<u8> {
    let mut field = string(b"x");
    field.extend_from_slice(&5i32.to_be_bytes());
    field.extend_from_slice(&string(b""));
    field.extend_from_slice(&1u32.to_be_bytes());
    field.extend_from_slice(&string(b""));
    let mut class = string(b"Point");
    class.extend_from_slice(&1u16.to_be_bytes());
    class.extend_from_slice(&1i32.to_be_bytes());
    class.extend_from_slice(&object(&field));
    let mut catalogue = 1i32.to_be_bytes().to_vec();
    catalogue.extend_from_slice(&object(&class));
    object(&catalogue)
}

/// A container with a tree of three events, a second record, and a schema
/// catalogue. With `wide`, every position takes eight bytes.
fn container_bytes(wide: bool) -> Vec<u8> {
    let columns = event_columns();
    let mut file = vec![0u8; 200];
    let (data, desc) = tree_bytes(200, 3, &columns, "AliESDRun.fTriggerClasses");
    file.extend_from_slice(&data);
    let tree_at = file.len() as u64;
    let tree_payload = framed(&desc);
    let tree_record = record(tree_at, b"TTree", b"esdTree", &tree_payload, tree_payload.len() as u32, wide);
    file.extend_from_slice(&tree_record);
    let other_at = file.len() as u64;
    let other_payload = framed(b"not a tree");
    let other_packed = zlib_block(&other_payload);
    let other_record = record(other_at, b"TNamed", b"HLTesdTree", &other_packed, 1000, wide);
    file.extend_from_slice(&other_record);
    let info_at = file.len() as u64;
    let info_payload = catalogue_bytes();
    file.extend_from_slice(&record(info_at, b"TList", b"StreamerInfo", &info_payload, info_payload.len() as u32, wide));
    let keys_at = file.len() as u64;
    let key_len = |r: &[u8]| i16::from_be_bytes([r[14], r[15]]) as usize;
    let mut keys = 2i32.to_be_bytes().to_vec();
    keys.extend_from_slice(&tree_record[..key_len(&tree_record)]);
    keys.extend_from_slice(&other_record[..key_len(&other_record)]);
    file.extend_from_slice(&record(keys_at, b"TFile", b"keys", &keys, keys.len() as u32, wide));
    let version = if wide { 1_061_000 } else { 61_000 };
    let header = file_header_bytes(version, 90, 10, info_at);
    file[..header.len()].copy_from_slice(&header);
    let dir = directory_bytes(keys_at, wide);
    file[100..100 + dir.len()].copy_from_slice(&dir);
    file
}

#[test]
fn open_lists_the_records_of_the_key_index() {
    for wide in [false, true] {
        let f = Container::open(Source::new(container_bytes(wide))).expect("Failed to open file");
        assert_eq!(f.items().len(), 2);
        assert_eq!(f.items()[0].record().obj_name, b"esdTree");
        assert_eq!(f.items()[1].record().obj_name, b"HLTesdTree");
        assert_eq!(f.items()[0].record().class_name, b"TTree");
        assert_eq!(f.items()[0].name(), b"`esdTree` of type `TTree`");
        assert_eq!(f.items()[1].name(), b"`HLTesdTree` of type `TNamed`");
        assert_eq!(f.header().seek_dir, 100);
        assert_eq!(f.header().begin, 90);
        assert_eq!(f.header().compression, 101);
        assert_eq!(f.header().version, if wide { 1_061_000 } else { 61_000 });
        let info = String::from_utf8(f.items()[0].verbose_info()).unwrap();
        let lines: Vec<&str> = info.lines().collect();
        assert_eq!(lines[0], "name: esdTree");
        assert_eq!(lines[1], "class: TTree");
        assert_eq!(lines[2], "title: a title");
        assert_eq!(lines[3], format!("position: {}", f.items()[0].record().seek_key));
        assert_eq!(lines[4], format!("header length: {}", f.items()[0].record().key_len));
        assert_eq!(lines[5], format!("length on disk: {}", f.items()[0].record().total_size));
        assert_eq!(lines[6], format!("length unpacked: {}", f.items()[0].record().uncomp_len));
        assert_eq!(lines[7], if wide { "version: 1004" } else { "version: 4" });
        assert_eq!(lines[8], "cycle: 1");
        assert_eq!(lines.len(), 9);
        assert!(info.ends_with('\n'));
    }
}

#[test]
fn open_wants_the_signature() {
    let mut bytes = container_bytes(false);
    bytes[0] = b'R';
    assert_eq!(Container::open(Source::new(bytes)).err(), Some(Error::Format));
    assert_eq!(Container::open(Source::new(vec![])).err(), Some(Error::Format));
    assert_eq!(Container::open(Source::new(b"root".to_vec())).err(), Some(Error::Format));
    assert_eq!(file_header(b"roo"), Err(Error::Format));
    assert_eq!(file_header(&container_bytes(false)[..62]), Err(Error::Format));
    assert!(file_header(&container_bytes(false)[..63]).is_ok());
    assert_eq!(file_header(&container_bytes(true)[..74]), Err(Error::Format));
    assert!(file_header(&container_bytes(true)[..75]).is_ok());
}

#[test]
fn open_wants_the_key_index_within_the_bytes() {
    let whole = container_bytes(false);
    let len = whole.len() as u64;
    let mut bytes = whole.clone();
    let dir = directory_bytes(len + 1, false);
    bytes[100..100 + dir.len()].copy_from_slice(&dir);
    assert_eq!(Container::open(Source::new(bytes)).err(), Some(Error::Format));
    // the directory itself lies behind the end
    let mut bytes = whole.clone();
    let header = file_header_bytes(61_000, 0x7fff_0000, 10, 0);
    bytes[..header.len()].copy_from_slice(&header);
    assert_eq!(Container::open(Source::new(bytes)).err(), Some(Error::Format));
    // a negative position of the first record
    let mut bytes = whole.clone();
    let header = file_header_bytes(61_000, -1, 10, 0);
    bytes[..header.len()].copy_from_slice(&header);
    assert_eq!(Container::open(Source::new(bytes)).err(), Some(Error::Format));
    // the last record header of the index is cut off
    let bytes = whole[..whole.len() - 1].to_vec();
    assert_eq!(Container::open(Source::new(bytes)).err(), Some(Error::Format));
    assert_eq!(directory(&whole, whole.len() - 10), Err(Error::Format));
    assert_eq!(directory(&whole, 100).unwrap().seek_keys + 1, len - key_index_len(&whole) + 1);
}

fn key_index_len(whole: &[u8]) -> u64 {
    let at = directory(whole, 100).unwrap().seek_keys as usize;
    (whole.len() - at) as u64
}

#[test]
fn key_index_counts_its_headers() {
    let whole = container_bytes(false);
    let at = directory(&whole, 100).unwrap().seek_keys as usize;
    let keys = key_index(&whole, at).unwrap();
    assert_eq!(keys.len(), 2);
    assert_eq!(keys[1].obj_name, b"HLTesdTree");
    assert_eq!(keys[1].uncomp_len, 1000);
    let (own, next) = record_header(&whole, at).unwrap();
    assert_eq!(own.class_name, b"TFile");
    assert_eq!(own.seek_key, at as u64);
    assert_eq!(own.key_len as usize, next - at);
    assert_eq!(own.datime, 0x1234_5678);
    assert_eq!(own.cycle, 1);
    // a negative count
    let mut bytes = whole.clone();
    bytes[next] = 0xff;
    assert_eq!(key_index(&bytes, at).err(), Some(Error::Format));
}

#[test]
fn record_header_is_no_longer_than_its_record() {
    let mut bytes = header_bytes(10, 0, 11, 0, b"C", b"n", false);
    assert_eq!(record_header(&bytes, 0).err(), Some(Error::Format));
    bytes[3] = 11;
    assert!(record_header(&bytes, 0).is_ok());
    let bytes = header_bytes(10, 0, -1, 0, b"C", b"n", false);
    assert_eq!(record_header(&bytes, 0).err(), Some(Error::Format));
    let bytes = header_bytes(100, 0, 50, 0x1_0000_0001, b"C", b"n", true);
    let h = record_header(&bytes, 0).unwrap().0;
    assert_eq!(h.seek_key, 0x1_0000_0001);
    assert_eq!(h.version, 1004);
    assert_eq!(record_header(&bytes[..bytes.len() - 1], 0).err(), Some(Error::Format));
}

#[test]
fn payload_is_decompressed_on_demand() {
    let f = Container::open(Source::new(container_bytes(false))).unwrap();
    // stored as it is
    let tree = f.items()[0].payload().unwrap();
    assert_eq!(&tree[..4], &(0x4000_0000u32 | (tree.len() as u32 - 4)).to_be_bytes());
    // stored compressed, but declared longer than its blocks are
    assert_eq!(f.items()[1].payload(), Err(Error::Format));
    assert_eq!(f.items()[1].as_tree().err(), Some(Error::Format));
}

#[test]
fn item_outside_the_container_is_a_source_error() {
    let source = Source::new(vec![0u8; 100]);
    let h = |seek_key: u64, total_size: u32, key_len: i16, uncomp_len: u32| RecordHeader {
        total_size,
        version: 4,
        uncomp_len,
        datime: 0,
        key_len,
        cycle: 1,
        seek_key,
        seek_pdir: 0,
        class_name: b"C".to_vec(),
        obj_name: b"o".to_vec(),
        obj_title: vec![],
    };
    assert_eq!(FileItem::new(&h(60, 41, 10, 0), source.handle()).payload(), Err(Error::Source));
    assert_eq!(FileItem::new(&h(60, 40, 10, 0), source.handle()).payload(), Ok(vec![0u8; 30]));
    assert_eq!(FileItem::new(&h(u64::MAX, 40, 10, 0), source.handle()).payload(), Err(Error::Source));
    assert_eq!(FileItem::new(&h(0, 5, 10, 0), source.handle()).payload(), Err(Error::Format));
    assert_eq!(FileItem::new(&h(0, 50, -1, 0), source.handle()).payload(), Err(Error::Format));
    // no byte count at the start of the payload
    assert_eq!(FileItem::new(&h(60, 40, 10, 0), source.handle()).as_tree().err(), Some(Error::Format));
    assert_eq!(source.fetch(90, 10), Ok(vec![0u8; 10]));
    assert_eq!(source.fetch(90, 11), Err(Error::Source));
    assert_eq!(source.fetch(u64::MAX, 2), Err(Error::Source));
    assert_eq!(source.size(), 100);
}

#[test]
fn tree_has_rows_and_branches() {
    let f = Container::open(Source::new(container_bytes(true))).unwrap();
    let t = f.items()[0].as_tree().unwrap();
    assert_eq!(t.name(), b"esdTree");
    assert_eq!(t.entries(), 3);
    assert_eq!(t.branches().len(), 15);
    assert_eq!(t.branches()[6].name, b"Tracks.fX");
    assert!(matches!(&t.branches()[6].count, ElementCount::VariableByCounter(n) if n == b"Tracks"));
    assert!(matches!(&t.branches()[0].count, ElementCount::Fixed(1)));
    assert_eq!(t.branches()[1].baskets.len(), 2);
    assert_eq!(t.branches()[1].baskets[0], Basket { seek: 212, compressed: 4, uncompressed: 4 });
    assert_eq!(t.branch_by_name(b"Tracks.fY").err(), Some(Error::Format));
    assert_eq!(t.branch_by_name(b"Tracks.fX").unwrap().entries, 3);
}

#[test]
fn fixed_branch_has_one_value_for_each_row() {
    let f = Container::open(Source::new(container_bytes(false))).unwrap();
    let t = f.items()[0].as_tree().unwrap();
    let runs = t.branch_by_name(b"AliESDRun.fRunNumber").unwrap().decode_fixed(&BeI32).unwrap();
    assert_eq!(runs, vec![1, 1, 1]);
    assert_eq!(runs.len() as u64, t.entries());
    assert_eq!(t.fixed(b"Tracks", &BeU32), Ok(vec![0, 2, 1]));
    // three floats are not three rows of positions' worth
    assert_eq!(t.fixed(b"Tracks.fX", &BeI32).map(|v| v.len()), Ok(3));
    assert_eq!(t.fixed(b"PrimaryVertex.AliVertex.fPosition[3]", &BeF32).err(), Some(Error::Format));
    assert_eq!(t.fixed(b"Tracks.fITSncls", &BeU32).err(), Some(Error::Format));
}

#[test]
fn variable_branch_follows_the_counter() {
    let f = Container::open(Source::new(container_bytes(false))).unwrap();
    let t = f.items()[0].as_tree().unwrap();
    let counts = t.fixed(b"Tracks", &BeU32).unwrap();
    let rows = t.branch_by_name(b"Tracks.fX").unwrap().decode_variable(&BeF32, &counts).unwrap();
    let lens: Vec<u32> = rows.iter().map(|r| r.len() as u32).collect();
    assert_eq!(lens, counts);
    assert_eq!(rows.iter().map(|r| r.len() as u32).sum::<u32>(), counts.iter().sum::<u32>());
    let alpha = t.variable(b"Tracks.fAlpha", &BeF32, &counts).unwrap();
    assert_eq!(f32::from_bits(alpha[2][0].bits), 0.125);
    // a compressed basket
    let classes = t.fixed(b"AliESDRun.fTriggerClasses", &root_io::names::NameList).unwrap();
    assert_eq!(classes[0], vec![b"CMBAC-B-NOPF-ALL".to_vec(), vec![], b"C0SMH-B-NOPF-ALL".to_vec()]);
    assert_eq!(classes[1], Vec::<Vec<u8>>::new());
    let basket = t.branches()[2].baskets[0];
    assert!(basket.compressed < basket.uncompressed);
    // counters that ask for more, for less, or for another number of rows
    assert_eq!(t.variable(b"Tracks.fX", &BeF32, &[0, 2, 2]).err(), Some(Error::Format));
    assert_eq!(t.variable(b"Tracks.fX", &BeF32, &[0, 2, 0]).err(), Some(Error::Format));
    assert_eq!(t.variable(b"Tracks.fX", &BeF32, &[1, 2]).err(), Some(Error::Format));
    assert_eq!(t.variable(b"Tracks.fX", &BeF32, &[0, 1, 1, 1]).err(), Some(Error::Format));
    assert_eq!(t.variable(b"Tracks.fZ", &BeF32, &counts).err(), Some(Error::Format));
}

#[test]
fn basket_outside_the_container_is_a_source_error() {
    let source = Source::new(floats(&[1.0, 2.0]));
    let branch = |seek: u64, compressed: u32, uncompressed: u32| Branch {
        name: b"x".to_vec(),
        count: ElementCount::Fixed(1),
        baskets: vec![Basket { seek, compressed, uncompressed }],
    };
    let tree = |b: Branch, rows: u64| Tree::new(b"t".to_vec(), rows, vec![b], source.handle());
    assert_eq!(tree(branch(0, 8, 8), 2).fixed(b"x", &BeF32).map(|v| v.len()), Ok(2));
    assert_eq!(tree(branch(4, 4, 4), 1).fixed(b"x", &BeF32).map(|v| v[0].bits), Ok(2.0f32.to_bits()));
    assert_eq!(tree(branch(4, 8, 8), 2).fixed(b"x", &BeF32).err(), Some(Error::Source));
    // stored longer than declared
    assert_eq!(tree(branch(0, 8, 4), 1).fixed(b"x", &BeF32).err(), Some(Error::Format));
    // declared compressed, but the bytes are no block
    assert_eq!(tree(branch(0, 8, 9), 1).fixed(b"x", &BeF32).err(), Some(Error::Format));
    // the rows of the tree and the values of the branch differ
    assert_eq!(tree(branch(0, 8, 8), 3).fixed(b"x", &BeF32).err(), Some(Error::Format));
    assert_eq!(tree(branch(0, 8, 8), 1).fixed(b"x", &BeF32).err(), Some(Error::Format));
}

#[test]
fn events_are_assembled_from_the_tree() {
    for wide in [false, true] {
        let f = Container::open(Source::new(container_bytes(wide))).unwrap();
        let t = f.items()[0].as_tree().unwrap();
        let events = event_stream_from_tree(&t).unwrap();
        assert_eq!(events.len(), 3);
        let xs: Vec<Vec<f32>> = events
            .iter()
            .map(|e| e.tracks().iter().map(|t| f32::from_bits(t.x.bits)).collect())
            .collect();
        assert_eq!(xs, vec![vec![], vec![1.0, 2.0], vec![3.0]]);
        assert_eq!(events.iter().map(|e| e.run_number()).collect::<Vec<i32>>(), vec![1, 1, 1]);
        assert_eq!(events.iter().map(|e| e.multiplicity()).collect::<Vec<usize>>(), vec![0, 2, 1]);
        assert_eq!(events[0].primary_vertex(), None);
        let v = events[1].primary_vertex().unwrap();
        assert_eq!((f32::from_bits(v.x.bits), f32::from_bits(v.y.bits), f32::from_bits(v.z.bits)), (1.1, 1.2, 1.3));
        assert_eq!(v.n_contrib, 5);
        let second = events[1].tracks()[1];
        assert_eq!(f32::from_bits(second.parameters.loc_y.bits), 5.0);
        assert_eq!(f32::from_bits(second.parameters.one_over_pt.bits), 9.0);
        assert_eq!(f32::from_bits(second.alpha.bits), 0.25);
        assert_eq!(second.flags.bits, 8);
        assert_eq!(f32::from_bits(second.its_chi2.bits), 2.0);
        assert_eq!(second.its_ncls, 5);
        assert_eq!(second.its_clustermap.bits, 2);
        assert_eq!(second.tpc_ncls, 110);
        assert_eq!(f32::from_bits(second.tpc_chi2.bits), 1.5);
        let third = events[2].tracks()[0];
        assert_eq!(third.its_ncls, -1);
        assert_eq!(f32::from_bits(third.its_chi2.bits), 5.0);
        assert_eq!(f32::from_bits(third.tpc_chi2.bits), 8.0);
    }
}

#[test]
fn events_need_every_branch() {
    let mut columns = event_columns();
    columns.remove(9);
    let (data, desc) = tree_bytes(0, 3, &columns, "");
    let t = root_io::tree::tree(&desc, 0, Source::new(data)).unwrap().0;
    assert_eq!(event_stream_from_tree(&t).err(), Some(Error::Format));
    // one row more than the branches hold
    let (data, desc) = tree_bytes(0, 4, &event_columns(), "");
    let t = root_io::tree::tree(&desc, 0, Source::new(data)).unwrap().0;
    assert_eq!(event_stream_from_tree(&t).err(), Some(Error::Format));
    // a description that ends early
    let (data, desc) = tree_bytes(0, 3, &event_columns(), "");
    assert_eq!(root_io::tree::tree(&desc[..desc.len() - 1], 0, Source::new(data)).err(), Some(Error::Format));
}

#[test]
fn name_list_gives_the_names_of_its_elements() {
    let bytes = name_list(&[b"A", b"", b"C"]);
    assert_eq!(
        parse_tobjarray_of_tnameds(&bytes, 0),
        Ok((vec![b"A".to_vec(), vec![], b"C".to_vec()], bytes.len()))
    );
    let empty = name_list(&[]);
    assert_eq!(parse_tobjarray_of_tnameds(&empty, 0), Ok((vec![], empty.len())));
    assert_eq!(parse_tobjarray_of_tnameds(&bytes[..bytes.len() - 1], 0), Err(Error::Format));
    assert_eq!(parse_tobjarray_of_tnameds(&bytes[4..], 0), Err(Error::Format));
    // a reference to the class behind a byte count
    let mut counted = 3u16.to_be_bytes().to_vec();
    counted.extend_from_slice(&object_header());
    counted.extend_from_slice(&string(b"list"));
    counted.extend_from_slice(&1i32.to_be_bytes());
    counted.extend_from_slice(&0i32.to_be_bytes());
    counted.extend_from_slice(&0x4000_0020u32.to_be_bytes());
    counted.extend_from_slice(&0x8000_0042u32.to_be_bytes());
    counted.extend_from_slice(&named(b"behind a count"));
    let bytes = framed(&counted);
    assert_eq!(parse_tobjarray_of_tnameds(&bytes, 0), Ok((vec![b"behind a count".to_vec()], bytes.len())));
    // an object header with a reference number
    let mut referenced = 1u16.to_be_bytes().to_vec();
    referenced.extend_from_slice(&1u16.to_be_bytes());
    referenced.extend_from_slice(&0u32.to_be_bytes());
    referenced.extend_from_slice(&0x0300_0010u32.to_be_bytes());
    referenced.extend_from_slice(&9u16.to_be_bytes());
    referenced.extend_from_slice(&string(b"ref"));
    referenced.extend_from_slice(&string(b""));
    assert_eq!(root_io::names::named(&referenced, 0), Ok((b"ref".to_vec(), referenced.len())));
    // an element that refers to another object
    let mut refers = 3u16.to_be_bytes().to_vec();
    refers.extend_from_slice(&object_header());
    refers.extend_from_slice(&string(b""));
    refers.extend_from_slice(&1i32.to_be_bytes());
    refers.extend_from_slice(&0i32.to_be_bytes());
    refers.extend_from_slice(&0x0000_0042u32.to_be_bytes());
    assert_eq!(parse_tobjarray_of_tnameds(&framed(&refers), 0), Err(Error::Format));
}

#[test]
fn catalogue_is_read_from_its_record() {
    let f = Container::open(Source::new(container_bytes(false))).unwrap();
    let infos = f.streamers().unwrap();
    assert_eq!(infos.len(), 1);
    assert_eq!(infos[0].class_name, b"Point");
    assert_eq!(infos[0].fields[0].name, b"x");
    assert!(matches!(&infos[0].fields[0].count, ElementCount::Fixed(1)));
    let reg = f.registry().unwrap();
    assert_eq!(reg.len(), 1);
    assert!(reg.lookup(b"Point", 1).is_ok());
    assert_eq!(reg.lookup(b"Point", 2).err(), Some(Error::UnknownClass));
    // an object of the class, decoded by the layout that the container gives
    let point = object(&1.5f32.to_bits().to_be_bytes());
    let values = reg.decode(b"Point", &point, 0).unwrap().0;
    assert_eq!(values.len(), 1);
    // the record of the catalogue lies behind the end
    let mut bytes = container_bytes(false);
    let header = file_header_bytes(61_000, 90, 10, bytes.len() as u64 + 1);
    bytes[..header.len()].copy_from_slice(&header);
    let f = Container::open(Source::new(bytes)).unwrap();
    assert_eq!(f.streamers().err(), Some(Error::Format));
}
