use root_io::codec::{BeF32, BeI32, BeU32, BeU8, FloatBits};
use root_io::cursor::{FixedCursor, RowCursor};
use root_io::error::Error;
use root_io::event::{event_stream_from_tree, Event};
use root_io::source::Source;
use root_io::stream::EventStream;
use root_io::tree::{concatenated, Basket, Branch, ElementCount, Tree};
use root_io::zip::{Cursor, Zip};

fn floats(values: &[f32]) -> Vec<u8> {
    values.iter().flat_map(|v| v.to_bits().to_be_bytes()).collect()
}

fn words(values: &[u32]) -> Vec<u8> {
    values.iter().flat_map(|v| v.to_be_bytes()).collect()
}

fn drain<C: Cursor>(c: &mut C) -> (Vec<C::Item>, Result<(), Error>) {
    let mut out = Vec::new();
    loop {
        match c.advance() {
            Ok(Some(v)) => out.push(v),
            Ok(None) => return (out, Ok(())),
            Err(e) => return (out, Err(e)),
        }
    }
}

#[test]
fn cursor_hands_out_the_values_of_every_payload() {
    let payloads = vec![words(&[1, 2]), vec![], words(&[3])];
    let mut c = FixedCursor::new(BeU32, payloads, 3);
    assert_eq!(c.next(), Ok(Some(1)));
    assert_eq!(c.next(), Ok(Some(2)));
    assert_eq!(c.next(), Ok(Some(3)));
    assert_eq!(c.next(), Ok(None));
    assert_eq!(c.next(), Ok(None));
    let mut c = FixedCursor::new(BeU32, vec![], 0);
    assert_eq!(c.next(), Ok(None));
}

#[test]
fn cursor_keeps_what_it_handed_out_before_a_failure() {
    // the second payload ends within a value
    let mut c = FixedCursor::new(BeU32, vec![words(&[1, 2]), vec![0, 0, 0]], 3);
    assert_eq!(c.next(), Ok(Some(1)));
    assert_eq!(c.next(), Ok(Some(2)));
    assert_eq!(c.next(), Err(Error::Format));
    assert_eq!(c.next(), Err(Error::Format));
    // more values than rows
    let mut c = FixedCursor::new(BeU32, vec![words(&[1, 2, 3])], 2);
    assert_eq!(drain(&mut c), (vec![1, 2], Err(Error::Format)));
    // fewer values than rows
    let mut c = FixedCursor::new(BeU32, vec![words(&[1, 2, 3])], 4);
    assert_eq!(drain(&mut c), (vec![1, 2, 3], Err(Error::Format)));
    assert_eq!(c.next(), Err(Error::Format));
    let mut c = FixedCursor::new(BeU32, vec![], 1);
    assert_eq!(c.next(), Err(Error::Format));
}

#[test]
fn row_cursor_takes_as_many_values_as_the_counter_says() {
    let mut c = RowCursor::new(BeF32, floats(&[1.0, 2.0, 3.0]), vec![0, 2, 1]);
    assert_eq!(c.next(), Ok(Some(vec![])));
    assert_eq!(c.next().unwrap().unwrap().len(), 2);
    assert_eq!(c.next(), Ok(Some(vec![FloatBits { bits: 3.0f32.to_bits() }])));
    assert_eq!(c.next(), Ok(None));
    assert_eq!(c.next(), Ok(None));
    // the bytes end within the last row
    let mut c = RowCursor::new(BeF32, floats(&[1.0, 2.0, 3.0]), vec![1, 1, 2]);
    let (rows, end) = drain(&mut c);
    assert_eq!(rows.len(), 2);
    assert_eq!(end, Err(Error::Format));
    assert_eq!(c.next(), Err(Error::Format));
    // bytes are left behind the last row
    let mut c = RowCursor::new(BeF32, floats(&[1.0, 2.0, 3.0]), vec![1, 1]);
    let (rows, end) = drain(&mut c);
    assert_eq!(rows.len(), 2);
    assert_eq!(end, Err(Error::Format));
    let mut c = RowCursor::new(BeF32, vec![], vec![]);
    assert_eq!(c.next(), Ok(None));
    assert_eq!(concatenated(&vec![vec![1, 2], vec![], vec![3]]), vec![1, 2, 3]);
    assert_eq!(concatenated(&vec![]), Vec::<u8>::new());
}

#[test]
fn zipped_cursors_advance_together() {
    let a = FixedCursor::new(BeU32, vec![words(&[1, 2, 3])], 3);
    let b = FixedCursor::new(BeU8, vec![vec![7, 8, 9]], 3);
    let mut z = Zip::new(a, b);
    assert_eq!(z.advance(), Ok(Some((1, 7))));
    assert_eq!(z.advance(), Ok(Some((2, 8))));
    assert_eq!(z.advance(), Ok(Some((3, 9))));
    assert_eq!(z.advance(), Ok(None));
    assert_eq!(z.advance(), Ok(None));
}

#[test]
fn zipped_cursors_end_with_the_first_failure() {
    // the second cursor fails behind one value, the first behind two
    let a = FixedCursor::new(BeU32, vec![words(&[1, 2])], 3);
    let b = FixedCursor::new(BeU8, vec![vec![7]], 3);
    let mut z = Zip::new(a, b);
    assert_eq!(drain(&mut z), (vec![(1, 7)], Err(Error::Format)));
    assert_eq!(z.advance(), Err(Error::Format));
    // one cursor ends, the other has values left: the pairs end
    let a = FixedCursor::new(BeU32, vec![words(&[1])], 1);
    let b = FixedCursor::new(BeU8, vec![vec![7, 8]], 2);
    let mut z = Zip::new(a, b);
    assert_eq!(drain(&mut z), (vec![(1, 7)], Ok(())));
    assert_eq!(z.advance(), Ok(None));
}

struct Layout {
    data: Vec<u8>,
    branches: Vec<Branch>,
}

impl Layout {
    fn new() -> Layout {
        Layout { data: Vec::new(), branches: Vec::new() }
    }

    fn add(&mut self, name: &str, count: ElementCount, baskets: &[Vec<u8>]) {
        let mut list = Vec::new();
        for b in baskets {
            list.push(Basket {
                seek: self.data.len() as u64,
                compressed: b.len() as u32,
                uncompressed: b.len() as u32,
            });
            self.data.extend_from_slice(b);
        }
        self.branches.push(Branch { name: name.as_bytes().to_vec(), count, baskets: list });
    }

    fn tree(self, rows: u64) -> Tree {
        Tree::new(b"esdTree".to_vec(), rows, self.branches, Source::new(self.data))
    }
}

fn empty_name_list() -> Vec<u8> {
    let mut inner = 3u16.to_be_bytes().to_vec();
    inner.extend_from_slice(&[0, 1, 0, 0, 0, 0, 0, 0, 0, 0]);
    inner.push(0);
    inner.extend_from_slice(&0i32.to_be_bytes());
    inner.extend_from_slice(&0i32.to_be_bytes());
    let mut out = (0x4000_0000u32 | inner.len() as u32).to_be_bytes().to_vec();
    out.extend_from_slice(&inner);
    out
}

/// A tree of three events with 0, 2 and 1 tracks; `alpha` is stored as the
/// values of the branch `Tracks.fAlpha`.
fn tree(alpha: Vec<u8>) -> Tree {
    let one = || ElementCount::Fixed(1);
    let counted = || ElementCount::VariableByCounter(b"Tracks".to_vec());
    let mut l = Layout::new();
    l.add("Tracks", one(), &[words(&[0, 2, 1])]);
    l.add("AliESDRun.fRunNumber", one(), &[words(&[1]), words(&[1, 1])]);
    l.add("AliESDRun.fTriggerClasses", one(), &[[empty_name_list(), empty_name_list(), empty_name_list()].concat()]);
    l.add("AliESDHeader.fTriggerMask", one(), &[[0u64.to_be_bytes(); 3].concat()]);
    l.add("PrimaryVertex.AliVertex.fPosition[3]", ElementCount::Fixed(3), &[floats(&[0.0; 9])]);
    l.add("PrimaryVertex.AliVertex.fNContributors", one(), &[words(&[0, 1, 2])]);
    l.add("Tracks.fX", counted(), &[floats(&[1.0, 2.0]), floats(&[3.0])]);
    l.add("Tracks.fP[5]", counted(), &[floats(&[0.0; 15])]);
    l.add("Tracks.fAlpha", counted(), &[alpha]);
    l.add("Tracks.fFlags", counted(), &[[0u64.to_be_bytes(); 3].concat()]);
    l.add("Tracks.fITSchi2", counted(), &[vec![0; 9]]);
    l.add("Tracks.fITSncls", counted(), &[vec![0; 3]]);
    l.add("Tracks.fITSClusterMap", counted(), &[vec![0; 3]]);
    l.add("Tracks.fTPCncls", counted(), &[vec![0; 6]]);
    l.add("Tracks.fTPCchi2", counted(), &[vec![0; 9]]);
    l.tree(3)
}

fn xs(e: &Event) -> Vec<f32> {
    e.tracks().iter().map(|t| f32::from_bits(t.x.bits)).collect()
}

#[test]
fn stream_hands_out_the_events_one_by_one() {
    let t = tree(floats(&[0.1, 0.2, 0.3]));
    let mut s = EventStream::open(&t).unwrap();
    let first = s.next().unwrap().unwrap();
    assert_eq!(xs(&first), Vec::<f32>::new());
    assert_eq!(first.primary_vertex(), None);
    let second = s.next().unwrap().unwrap();
    assert_eq!(xs(&second), vec![1.0, 2.0]);
    assert_eq!(second.primary_vertex().unwrap().n_contrib, 1);
    let third = s.next().unwrap().unwrap();
    assert_eq!(xs(&third), vec![3.0]);
    assert_eq!(s.next(), Ok(None));
    assert_eq!(s.next(), Ok(None));
}

#[test]
fn stream_and_whole_decoding_agree() {
    let t = tree(floats(&[0.1, 0.2, 0.3]));
    let whole = event_stream_from_tree(&t).unwrap();
    let mut s = EventStream::open(&t).unwrap();
    let mut one_by_one = Vec::new();
    while let Some(e) = s.next().unwrap() {
        one_by_one.push(e);
    }
    assert_eq!(one_by_one, whole);
    assert_eq!(whole.len(), 3);
}

#[test]
fn events_before_a_failure_stay_valid() {
    // the last value of one column is cut short: the third event cannot be
    // made, the first two can
    let mut alpha = floats(&[0.1, 0.2, 0.3]);
    alpha.pop();
    let t = tree(alpha);
    assert_eq!(event_stream_from_tree(&t).err(), Some(Error::Format));
    let mut s = EventStream::open(&t).unwrap();
    let first = s.next().unwrap().unwrap();
    let second = s.next().unwrap().unwrap();
    assert_eq!(s.next(), Err(Error::Format));
    assert_eq!(s.next(), Err(Error::Format));
    assert_eq!(xs(&first), Vec::<f32>::new());
    assert_eq!(xs(&second), vec![1.0, 2.0]);
    assert_eq!(second.multiplicity(), 2);
}

#[test]
fn bytes_behind_the_last_row_end_the_stream_with_an_error() {
    let t = tree(floats(&[0.1, 0.2, 0.3, 0.4]));
    let mut s = EventStream::open(&t).unwrap();
    assert!(s.next().unwrap().is_some());
    assert!(s.next().unwrap().is_some());
    assert!(s.next().unwrap().is_some());
    assert_eq!(s.next(), Err(Error::Format));
    assert_eq!(s.next(), Err(Error::Format));
}

#[test]
fn stream_needs_every_branch_and_basket() {
    let one = || ElementCount::Fixed(1);
    let mut l = Layout::new();
    l.add("Tracks", one(), &[words(&[0])]);
    assert_eq!(EventStream::open(&l.tree(1)).err(), Some(Error::Format));
    let mut l = Layout::new();
    l.add("Tracks", one(), &[words(&[0])]);
    l.add("AliESDRun.fRunNumber", one(), &[words(&[1])]);
    l.branches[1].baskets[0].seek = 1000;
    assert_eq!(EventStream::open(&l.tree(1)).err(), Some(Error::Source));
    let t = tree(floats(&[0.1, 0.2, 0.3]));
    let run = t.fixed_cursor(b"AliESDRun.fRunNumber", BeI32);
    assert_eq!(run.unwrap().next(), Ok(Some(1)));
    assert_eq!(t.fixed_cursor(b"none", BeI32).err(), Some(Error::Format));
    assert_eq!(t.row_cursor(b"Tracks.fX", BeF32, vec![0, 2]).err(), Some(Error::Format));
    let mut rows = t.row_cursor(b"Tracks.fX", BeF32, vec![0, 2, 1]).unwrap();
    assert_eq!(rows.next(), Ok(Some(vec![])));
}

#[test]
fn column_is_read_by_the_rule_of_its_branch() {
    let t = tree(floats(&[0.1, 0.2, 0.3]));
    // three values in every row
    let positions = t.column(b"PrimaryVertex.AliVertex.fPosition[3]", &BeF32).unwrap();
    assert_eq!(positions.len(), 3);
    assert!(positions.iter().all(|row| row.len() == 3));
    // one value in every row
    assert_eq!(t.column(b"Tracks", &BeU32), Ok(vec![vec![0], vec![2], vec![1]]));
    // as many values as the counter branch says
    let x = t.column(b"Tracks.fX", &BeF32).unwrap();
    assert_eq!(x.iter().map(|row| row.len()).collect::<Vec<usize>>(), vec![0, 2, 1]);
    assert_eq!(f32::from_bits(x[2][0].bits), 3.0);
    assert_eq!(t.column(b"Tracks.fY", &BeF32).err(), Some(Error::Format));
    // the values do not fill the rows
    assert_eq!(t.column(b"PrimaryVertex.AliVertex.fPosition[3]", &BeU8).err(), Some(Error::Format));
}

#[test]
fn column_needs_a_sound_rule() {
    let mut l = Layout::new();
    l.add("nothing", ElementCount::Fixed(0), &[]);
    l.add("orphan", ElementCount::VariableByCounter(b"gone".to_vec()), &[words(&[1])]);
    l.add("pairs", ElementCount::Fixed(2), &[words(&[1, 2, 3, 4])]);
    let t = l.tree(2);
    assert_eq!(t.column(b"nothing", &BeU32).err(), Some(Error::Format));
    assert_eq!(t.column(b"orphan", &BeU32).err(), Some(Error::Format));
    assert_eq!(t.column(b"pairs", &BeU32), Ok(vec![vec![1, 2], vec![3, 4]]));
    assert_eq!(root_io::tree::decode_constant_rows(&BeU32, &words(&[1, 2, 3]), 1, 3), Ok(vec![vec![1], vec![2], vec![3]]));
    assert_eq!(root_io::tree::decode_constant_rows(&BeU32, &words(&[1, 2, 3]), 2, 2).err(), Some(Error::Format));
    assert_eq!(root_io::tree::decode_constant_rows(&BeU32, &words(&[1, 2, 3]), 1, 2).err(), Some(Error::Format));
    assert_eq!(root_io::tree::decode_constant_rows(&BeU32, &[], 0, 2), Ok(vec![vec![], vec![]]));
}
