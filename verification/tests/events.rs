use root_io::codec::FloatBits;
use root_io::error::Error;
use root_io::event::{assemble, Columns, Event};
use root_io::primary_vertex::PrimaryVertex;
use root_io::track::{Flags, ItsClusters, Track, TrackParameters};
use root_io::trigger_mask::{string_to_mask, TriggerMask, TriggerTable, HIGH_MULT, MINIMUM_BIAS};

fn f(x: f32) -> FloatBits {
    FloatBits { bits: x.to_bits() }
}

fn params(x: f32) -> TrackParameters {
    TrackParameters::new(&(f(x), f(x + 1.0), f(x + 2.0), f(x + 3.0), f(x + 4.0)))
}

fn names(list: &[&str]) -> Vec<Vec<u8>> {
    list.iter().map(|s| s.as_bytes().to_vec()).collect()
}

fn event(contributors: i32, run: i32, classes: &[&str], word: u64, n_tracks: usize) -> Event {
    Event::new(
        (f(0.5), f(-0.25), f(7.0)),
        contributors,
        run,
        names(classes),
        word,
        (0..n_tracks).map(|i| f(i as f32)).collect(),
        (0..n_tracks).map(|i| params(i as f32)).collect(),
        (0..n_tracks).map(|i| f(0.1 * i as f32)).collect(),
        (0..n_tracks).map(|i| Flags::from_bits(i as u64)).collect(),
        (0..n_tracks).map(|i| f(2.0 * i as f32)).collect(),
        (0..n_tracks).map(|i| i as i8).collect(),
        (0..n_tracks).map(|i| ItsClusters::from_bits(i as u8)).collect(),
        (0..n_tracks).map(|i| f(3.0 * i as f32)).collect(),
        (0..n_tracks).map(|i| 100 + i as u16).collect(),
    )
}

#[test]
fn primary_vertex_needs_a_contributor() {
    assert_eq!(event(0, 1, &[], 0, 0).primary_vertex(), None);
    assert_eq!(event(-3, 1, &[], 0, 0).primary_vertex(), None);
    assert_eq!(
        event(1, 1, &[], 0, 0).primary_vertex(),
        Some(PrimaryVertex { x: f(0.5), y: f(-0.25), z: f(7.0), n_contrib: 1 })
    );
    let v = event(42, 1, &[], 0, 0).primary_vertex().unwrap();
    assert_eq!(f32::from_bits(v.z.bits), 7.0);
    assert_eq!(v.n_contrib, 42);
}

#[test]
fn tracks_take_one_value_of_each_column() {
    let e = event(1, 1, &[], 0, 3);
    let tracks = e.tracks();
    assert_eq!(tracks.len(), 3);
    assert_eq!(
        tracks[2],
        Track {
            x: f(2.0),
            parameters: params(2.0),
            alpha: f(0.1 * 2.0),
            flags: Flags::from_bits(2),
            its_chi2: f(4.0),
            its_ncls: 2,
            its_clustermap: ItsClusters::from_bits(2),
            tpc_chi2: f(6.0),
            tpc_ncls: 102,
        }
    );
    assert_eq!(f32::from_bits(tracks[1].parameters.one_over_pt.bits), 5.0);
    assert_eq!(event(1, 1, &[], 0, 0).tracks(), vec![]);
}

#[test]
fn tracks_stop_at_the_shortest_column() {
    let e = Event::new(
        (f(0.0), f(0.0), f(0.0)),
        0,
        0,
        vec![],
        0,
        vec![f(1.0), f(2.0), f(3.0)],
        vec![params(0.0), params(1.0)],
        vec![f(0.0); 3],
        vec![Flags::from_bits(0); 3],
        vec![f(0.0); 3],
        vec![0; 3],
        vec![ItsClusters::from_bits(0); 3],
        vec![f(0.0); 3],
        vec![0; 3],
    );
    assert_eq!(e.tracks().len(), 2);
    assert_eq!(e.multiplicity(), 3);
}

#[test]
fn multiplicity_is_the_number_of_stored_tracks() {
    assert_eq!(event(1, 1, &[], 0, 0).multiplicity(), 0);
    assert_eq!(event(1, 1, &[], 0, 5).multiplicity(), 5);
}

#[test]
fn builtin_lookup_knows_the_classes_of_its_period() {
    for name in [
        "CMBAC-B-NOPF-ALL",
        "CMBS2A-B-NOPF-ALL",
        "CMBS2C-B-NOPF-ALL",
        "CMBACS2-B-NOPF-ALL",
        "CMBACS2-B-NOPF-ALLNOTRD",
    ] {
        assert_eq!(string_to_mask(name.as_bytes(), 137_000).bits, MINIMUM_BIAS);
        assert_eq!(string_to_mask(name.as_bytes(), 136_850), TriggerMask::empty());
        assert_eq!(string_to_mask(name.as_bytes(), 139_518), TriggerMask::empty());
    }
    for name in ["C0SMH-B-NOPF-ALL", "C0SMH-B-NOPF-ALLNOTRD"] {
        assert_eq!(string_to_mask(name.as_bytes(), 136_851).bits, HIGH_MULT);
        assert_eq!(string_to_mask(name.as_bytes(), 139_517).bits, HIGH_MULT);
        assert_eq!(string_to_mask(name.as_bytes(), 0).bits, 0);
    }
    assert_eq!(string_to_mask(b"CMBAC-B-NOPF-AL", 137_000).bits, 0);
    assert_eq!(string_to_mask(b"CMBAC-B-NOPF-ALL ", 137_000).bits, 0);
    assert_eq!(string_to_mask(b"", 137_000).bits, 0);
}

#[test]
fn trigger_mask_uses_the_builtin_lookup() {
    let classes = ["CMBAC-B-NOPF-ALL", "OTHER", "C0SMH-B-NOPF-ALL"];
    let e = event(1, 137_000, &classes, 0b101, 0);
    let mask = e.trigger_mask();
    assert!(mask.contains(TriggerMask::minimum_bias()));
    assert!(mask.contains(TriggerMask::high_mult()));
    assert_eq!(mask.bits, 0b11);
    assert_eq!(event(1, 137_000, &classes, 0b001, 0).trigger_mask().bits, MINIMUM_BIAS);
    assert_eq!(event(1, 137_000, &classes, 0b100, 0).trigger_mask().bits, HIGH_MULT);
    assert_eq!(event(1, 137_000, &classes, 0b010, 0).trigger_mask().bits, 0);
    assert_eq!(event(1, 137_000, &classes, 0, 0).trigger_mask().bits, 0);
    // another period: no class is known
    assert!(event(1, 1, &classes, 0b101, 0).trigger_mask().is_empty());
    // bits without a class are ignored
    assert_eq!(event(1, 137_000, &classes, 0b1101, 0).trigger_mask().bits, 0b11);
}

#[test]
fn trigger_mask_decodes_against_a_table() {
    let mut table = TriggerTable::new();
    table.add(i32::MIN, i32::MAX, b"A".to_vec(), TriggerMask::minimum_bias());
    table.add(i32::MIN, i32::MAX, b"C".to_vec(), TriggerMask::high_mult());
    let e = event(1, 7, &["A", "B", "C"], 0b101, 0);
    let mask = e.trigger_mask_with(&table);
    assert!(mask.contains(TriggerMask::minimum_bias()));
    assert!(mask.contains(TriggerMask::high_mult()));
    assert_eq!(mask.bits, MINIMUM_BIAS | HIGH_MULT);
    // a name that the table does not list sets no bit
    assert_eq!(event(1, 7, &["A", "B", "C"], 0b010, 0).trigger_mask_with(&table).bits, 0);
    assert_eq!(event(1, 7, &["A", "B", "C"], 0b110, 0).trigger_mask_with(&table).bits, HIGH_MULT);
}

#[test]
fn trigger_word_uses_all_its_bits() {
    let mut table = TriggerTable::new();
    table.add(0, 10, b"top".to_vec(), TriggerMask::minimum_bias());
    table.add(0, 10, b"beyond".to_vec(), TriggerMask::high_mult());
    let mut classes = vec!["x"; 63];
    classes.push("top");
    classes.push("beyond");
    let e = event(1, 5, &classes, (1u64 << 49) | (1u64 << 50), 0);
    assert_eq!(e.trigger_mask_with(&table).bits, 0);
    // bit 63 is the last of the word; a sixty-fifth class has no bit
    assert_eq!(event(1, 5, &classes, 1u64 << 63, 0).trigger_mask_with(&table).bits, MINIMUM_BIAS);
    assert_eq!(event(1, 5, &classes, u64::MAX, 0).trigger_mask_with(&table).bits, MINIMUM_BIAS);
    let mut places = vec!["x"; 49];
    places.push("top");
    places.push("beyond");
    let e = event(1, 5, &places, (1u64 << 49) | (1u64 << 50), 0);
    assert_eq!(e.trigger_mask_with(&table).bits, MINIMUM_BIAS | HIGH_MULT);
    assert_eq!(event(1, 5, &places, 1u64 << 50, 0).trigger_mask_with(&table).bits, HIGH_MULT);
    // the built-in lookup, with a class of its period behind fifty others
    let mut classes = vec!["x"; 50];
    classes.push("CMBAC-B-NOPF-ALL");
    assert_eq!(event(1, 137_000, &classes, 1u64 << 50, 0).trigger_mask().bits, MINIMUM_BIAS);
    assert_eq!(event(1, 137_000, &classes, 1u64 << 49, 0).trigger_mask().bits, 0);
}

#[test]
fn table_lookup_takes_the_first_rule_that_fits() {
    let mut table = TriggerTable::new();
    assert_eq!(table.lookup(b"A", 5).bits, 0);
    table.add(10, 20, b"A".to_vec(), TriggerMask::high_mult());
    table.add(0, 100, b"A".to_vec(), TriggerMask::minimum_bias());
    assert_eq!(table.lookup(b"A", 15).bits, HIGH_MULT);
    assert_eq!(table.lookup(b"A", 10).bits, HIGH_MULT);
    assert_eq!(table.lookup(b"A", 20).bits, HIGH_MULT);
    assert_eq!(table.lookup(b"A", 21).bits, MINIMUM_BIAS);
    assert_eq!(table.lookup(b"A", 101).bits, 0);
    assert_eq!(table.lookup(b"B", 15).bits, 0);
}

#[test]
fn masks_combine() {
    let both = TriggerMask::minimum_bias().union(TriggerMask::high_mult());
    assert_eq!(both.bits, 3);
    assert!(both.contains(TriggerMask::high_mult()));
    assert!(!TriggerMask::minimum_bias().contains(both));
    assert!(TriggerMask::empty().is_empty());
    assert!(both.contains(TriggerMask::empty()));
    assert!(Flags::from_bits(0b1010).contains(Flags::from_bits(0b1000)));
    assert!(!Flags::from_bits(0b1010).contains(Flags::from_bits(0b0100)));
    assert!(ItsClusters::from_bits(0b11).contains(ItsClusters::from_bits(0b01)));
}

fn columns(rows: usize) -> Columns {
    Columns {
        run_numbers: vec![1; rows],
        trigger_classes: vec![names(&["A"]); rows],
        trigger_masks: (0..rows as u64).collect(),
        positions: vec![(f(1.0), f(2.0), f(3.0)); rows],
        contributors: (0..rows as i32).collect(),
        fx: (0..rows).map(|i| vec![f(i as f32); i]).collect(),
        fp: (0..rows).map(|i| vec![params(i as f32); i]).collect(),
        falpha: (0..rows).map(|i| vec![f(0.0); i]).collect(),
        fflags: (0..rows).map(|i| vec![Flags::from_bits(1); i]).collect(),
        fitschi2: (0..rows).map(|i| vec![f(0.0); i]).collect(),
        fitsncls: (0..rows).map(|i| vec![3; i]).collect(),
        fitsclustermap: (0..rows).map(|i| vec![ItsClusters::from_bits(1); i]).collect(),
        ftpcncls: (0..rows).map(|i| vec![9; i]).collect(),
        ftpcchi2: (0..rows).map(|i| vec![f(0.0); i]).collect(),
    }
}

#[test]
fn events_take_one_row_of_each_column() {
    let events = assemble(3, &columns(3)).unwrap();
    assert_eq!(events.len(), 3);
    assert_eq!(events[0].primary_vertex(), None);
    assert_eq!(events[2].primary_vertex().unwrap().n_contrib, 2);
    assert_eq!(events[2].multiplicity(), 2);
    assert_eq!(events[2].tracks()[1].x, f(2.0));
    assert_eq!(events[1].run_number(), 1);
    assert_eq!(assemble(0, &columns(3)), Ok(vec![]));
    // more rows than are asked for are left aside
    assert_eq!(assemble(2, &columns(3)).unwrap().len(), 2);
}

#[test]
fn a_short_column_ends_the_assembly() {
    let mut c = columns(3);
    c.ftpcchi2.pop();
    assert_eq!(assemble(3, &c), Err(Error::Format));
    assert_eq!(assemble(2, &c).unwrap().len(), 2);
    let mut c = columns(3);
    c.run_numbers.clear();
    assert_eq!(assemble(1, &c), Err(Error::Format));
    assert_eq!(assemble(4, &columns(3)), Err(Error::Format));
}
