//! Structs related to a given event, and the assembly of events from the
//! columns of a tree.

use vstd::prelude::*;
use vstd::slice::slice_to_vec;
use vstd::string::StringSliceAdditionalSpecFns;
use crate::codec::{BeF32, BeI32, BeI8, BeU16, BeU32, BeU64, FloatBits};
use crate::names::NameList;
use crate::parsers::CustomMantissa;
use crate::tree::{fixed_branch, variable_branch, Tree, TreeView};
use crate::error::Error;
use crate::primary_vertex::PrimaryVertex;
use crate::track::{ClusterMap, Flags, ItsClusters, Parameters, Position, StatusFlags, Track,
    TrackParameters};
use crate::trigger_mask::{builtin_mask, string_to_mask, table_mask, TriggerMask, TriggerRuleView,
    TriggerTable};

verus! {

/// A model for a subset of an event as stored in the published data.
#[derive(Debug, PartialEq)]
pub struct Event {
    primaryvertex_alivertex_fposition: (FloatBits, FloatBits, FloatBits),
    primaryvertex_alivertex_fncontributors: i32,
    aliesdrun_frunnumber: i32,
    aliesdrun_ftriggerclasses: Vec<Vec<u8>>,
    aliesdheader_ftriggermask: u64,
    tracks_fx: Vec<FloatBits>,
    tracks_fp: Vec<TrackParameters>,
    tracks_falpha: Vec<FloatBits>,
    tracks_fflags: Vec<Flags>,
    tracks_fitschi2: Vec<FloatBits>,
    tracks_fitsncls: Vec<i8>,
    tracks_fitsclustermap: Vec<ItsClusters>,
    tracks_ftpcchi2: Vec<FloatBits>,
    tracks_ftpcncls: Vec<u16>,
}

/// An event as a mathematical value.
pub struct EventView {
    pub primaryvertex_alivertex_fposition: (FloatBits, FloatBits, FloatBits),
    pub primaryvertex_alivertex_fncontributors: i32,
    pub aliesdrun_frunnumber: i32,
    pub aliesdrun_ftriggerclasses: Seq<Seq<u8>>,
    pub aliesdheader_ftriggermask: u64,
    pub tracks_fx: Seq<FloatBits>,
    pub tracks_fp: Seq<TrackParameters>,
    pub tracks_falpha: Seq<FloatBits>,
    pub tracks_fflags: Seq<Flags>,
    pub tracks_fitschi2: Seq<FloatBits>,
    pub tracks_fitsncls: Seq<i8>,
    pub tracks_fitsclustermap: Seq<ItsClusters>,
    pub tracks_ftpcchi2: Seq<FloatBits>,
    pub tracks_ftpcncls: Seq<u16>,
}

impl DeepView for Event {
    type V = EventView;

    closed spec fn deep_view(&self) -> EventView {
        EventView {
            primaryvertex_alivertex_fposition: self.primaryvertex_alivertex_fposition,
            primaryvertex_alivertex_fncontributors: self.primaryvertex_alivertex_fncontributors,
            aliesdrun_frunnumber: self.aliesdrun_frunnumber,
            aliesdrun_ftriggerclasses: self.aliesdrun_ftriggerclasses.deep_view(),
            aliesdheader_ftriggermask: self.aliesdheader_ftriggermask,
            tracks_fx: self.tracks_fx.deep_view(),
            tracks_fp: self.tracks_fp.deep_view(),
            tracks_falpha: self.tracks_falpha.deep_view(),
            tracks_fflags: self.tracks_fflags.deep_view(),
            tracks_fitschi2: self.tracks_fitschi2.deep_view(),
            tracks_fitsncls: self.tracks_fitsncls.deep_view(),
            tracks_fitsclustermap: self.tracks_fitsclustermap.deep_view(),
            tracks_ftpcchi2: self.tracks_ftpcchi2.deep_view(),
            tracks_ftpcncls: self.tracks_ftpcncls.deep_view(),
        }
    }
}

/// The smaller of two lengths.
pub open spec fn shorter(a: nat, b: nat) -> nat {
    if a <= b {
        a
    } else {
        b
    }
}

/// The number of tracks of an event: as many as every one of the nine track
/// columns has values for.
pub open spec fn track_count(e: EventView) -> nat {
    shorter(
        e.tracks_fx.len(),
        shorter(
            e.tracks_fp.len(),
            shorter(
                e.tracks_falpha.len(),
                shorter(
                    e.tracks_fflags.len(),
                    shorter(
                        e.tracks_fitschi2.len(),
                        shorter(
                            e.tracks_fitsncls.len(),
                            shorter(
                                e.tracks_fitsclustermap.len(),
                                shorter(e.tracks_ftpcchi2.len(), e.tracks_ftpcncls.len()),
                            ),
                        ),
                    ),
                ),
            ),
        ),
    )
}

/// Track `i` of an event: value `i` of each of the nine track columns.
pub open spec fn track_at(e: EventView, i: int) -> Track {
    Track {
        x: e.tracks_fx[i],
        parameters: e.tracks_fp[i],
        alpha: e.tracks_falpha[i],
        flags: e.tracks_fflags[i],
        its_chi2: e.tracks_fitschi2[i],
        its_ncls: e.tracks_fitsncls[i],
        its_clustermap: e.tracks_fitsclustermap[i],
        tpc_chi2: e.tracks_ftpcchi2[i],
        tpc_ncls: e.tracks_ftpcncls[i],
    }
}

/// The primary vertex of an event: none where no track contributes to it.
pub open spec fn vertex_of(e: EventView) -> Option<PrimaryVertex> {
    if e.primaryvertex_alivertex_fncontributors > 0 {
        Some(
            PrimaryVertex {
                x: e.primaryvertex_alivertex_fposition.0,
                y: e.primaryvertex_alivertex_fposition.1,
                z: e.primaryvertex_alivertex_fposition.2,
                n_contrib: e.primaryvertex_alivertex_fncontributors,
            },
        )
    } else {
        None
    }
}

/// Law of the primary vertex: an event without contributors has none, and an
/// event with at least one contributor has the vertex at the stored position.
pub proof fn law_vertex_presence(e: EventView)
    ensures
        e.primaryvertex_alivertex_fncontributors == 0 ==> vertex_of(e) is None,
        e.primaryvertex_alivertex_fncontributors >= 1 ==> vertex_of(e) == Some(
            PrimaryVertex {
                x: e.primaryvertex_alivertex_fposition.0,
                y: e.primaryvertex_alivertex_fposition.1,
                z: e.primaryvertex_alivertex_fposition.2,
                n_contrib: e.primaryvertex_alivertex_fncontributors,
            },
        ),
{
}

/// The number of bits of the trigger word, one for each trigger class.
pub const TRIGGER_BITS: usize = 64;

/// The mask that a lookup gives a trigger class in a run: the lookup of the
/// table `rules` where there is one, else the built-in lookup.
pub open spec fn lookup_mask(rules: Option<Seq<TriggerRuleView>>, name: Seq<u8>, run_number: i32) -> u64 {
    match rules {
        Some(r) => table_mask(r, name, run_number, 0),
        None => builtin_mask(name, run_number),
    }
}

/// The masks of the first `n` trigger classes whose bit is set in the
/// trigger word, taken together.
pub open spec fn fired_mask(
    word: u64,
    classes: Seq<Seq<u8>>,
    run_number: i32,
    rules: Option<Seq<TriggerRuleView>>,
    n: nat,
) -> u64
    decreases n,
{
    if n == 0 {
        0
    } else {
        let rest = fired_mask(word, classes, run_number, rules, (n - 1) as nat);
        if word & (1u64 << ((n - 1) as u64)) != 0 {
            rest | lookup_mask(rules, classes[n - 1], run_number)
        } else {
            rest
        }
    }
}

/// The trigger mask of an event under a lookup: of the trigger classes of
/// its run, those whose place in the list is a bit of the trigger word, and
/// whose bit is set in it, give their masks.
pub open spec fn trigger_bits(e: EventView, rules: Option<Seq<TriggerRuleView>>) -> u64 {
    fired_mask(
        e.aliesdheader_ftriggermask,
        e.aliesdrun_ftriggerclasses,
        e.aliesdrun_frunnumber,
        rules,
        shorter(TRIGGER_BITS as nat, e.aliesdrun_ftriggerclasses.len()),
    )
}

/// Whether the trigger class at place `j` fires a trigger of the mask `m`:
/// its bit is set in the trigger word, and the lookup gives it a mask that
/// has a bit in common with `m`.
pub open spec fn fires(
    word: u64,
    classes: Seq<Seq<u8>>,
    run_number: i32,
    rules: Option<Seq<TriggerRuleView>>,
    j: int,
    m: u64,
) -> bool {
    word & (1u64 << (j as u64)) != 0 && lookup_mask(rules, classes[j], run_number) & m != 0
}

/// Law of the trigger mask: the masks of the first `n` classes, taken
/// together, have a bit in common with `m` exactly where one of these
/// classes fires a trigger of `m`. A class whose bit is clear in the trigger
/// word, and a class to which the lookup gives no mask, sets no bit.
pub proof fn law_fired_mask_is_union(
    word: u64,
    classes: Seq<Seq<u8>>,
    run_number: i32,
    rules: Option<Seq<TriggerRuleView>>,
    n: nat,
    m: u64,
)
    ensures
        fired_mask(word, classes, run_number, rules, n) & m != 0 <==> exists|j: int|
            0 <= j < n && #[trigger] fires(word, classes, run_number, rules, j, m),
    decreases n,
{
    if n == 0 {
        assert(0u64 & m == 0) by (bit_vector);
    } else {
        let before = (n - 1) as nat;
        law_fired_mask_is_union(word, classes, run_number, rules, before, m);
        let rest = fired_mask(word, classes, run_number, rules, before);
        let last = lookup_mask(rules, classes[n - 1], run_number);
        let whole = fired_mask(word, classes, run_number, rules, n);
        assert(((rest | last) & m != 0) == (rest & m != 0 || last & m != 0)) by (bit_vector);
        if whole & m != 0 {
            if rest & m != 0 {
                let j = choose|j: int|
                    0 <= j < before && #[trigger] fires(word, classes, run_number, rules, j, m);
                assert(0 <= j < n && fires(word, classes, run_number, rules, j, m));
            } else {
                assert(fires(word, classes, run_number, rules, n - 1, m));
            }
        }
        if exists|j: int| 0 <= j < n && #[trigger] fires(word, classes, run_number, rules, j, m) {
            let j = choose|j: int|
                0 <= j < n && #[trigger] fires(word, classes, run_number, rules, j, m);
            if j < before {
                assert(0 <= j < before && fires(word, classes, run_number, rules, j, m));
            }
        }
    }
}

/// Law of the trigger mask of an event: a trigger of the mask `m` is set
/// exactly where one of the first sixty-four trigger classes of the event
/// fires it; the event itself is not changed by asking.
pub proof fn law_trigger_mask_is_union(e: EventView, rules: Option<Seq<TriggerRuleView>>, m: u64)
    ensures
        trigger_bits(e, rules) & m != 0 <==> exists|j: int|
            0 <= j < shorter(TRIGGER_BITS as nat, e.aliesdrun_ftriggerclasses.len())
                && #[trigger] fires(
                e.aliesdheader_ftriggermask,
                e.aliesdrun_ftriggerclasses,
                e.aliesdrun_frunnumber,
                rules,
                j,
                m,
            ),
{
    law_fired_mask_is_union(
        e.aliesdheader_ftriggermask,
        e.aliesdrun_ftriggerclasses,
        e.aliesdrun_frunnumber,
        rules,
        shorter(TRIGGER_BITS as nat, e.aliesdrun_ftriggerclasses.len()),
        m,
    );
}

/// A copy of a row of plain values.
pub fn copy_row<T: Copy + DeepView>(row: &Vec<T>) -> (r: Vec<T>)
    ensures
        r@ == row@,
        r.deep_view() == row.deep_view(),
{
    let r = slice_to_vec(row.as_slice());
    proof {
        assert(r.deep_view() =~= row.deep_view());
    }
    r
}

/// A copy of a list of names.
pub fn copy_names(names: &Vec<Vec<u8>>) -> (r: Vec<Vec<u8>>)
    ensures
        r.deep_view() == names.deep_view(),
{
    let mut out: Vec<Vec<u8>> = Vec::new();
    let mut i: usize = 0;
    while i < names.len()
        invariant
            i <= names@.len(),
            out@.len() == i,
            forall|j: int| 0 <= j < i ==> (#[trigger] out@[j])@ == names@[j]@,
        decreases names@.len() - i,
    {
        out.push(slice_to_vec(names[i].as_slice()));
        i = i + 1;
    }
    proof {
        assert forall|j: int| 0 <= j < out@.len() implies (#[trigger] out@[j]).deep_view()
            == names@[j].deep_view() by {
            assert(out@[j].deep_view() =~= out@[j]@);
            assert(names@[j].deep_view() =~= names@[j]@);
        }
        assert(out.deep_view() =~= names.deep_view());
    }
    out
}

impl Event {
    /// An event with the given values.
    pub fn new(
        primaryvertex_alivertex_fposition: (FloatBits, FloatBits, FloatBits),
        primaryvertex_alivertex_fncontributors: i32,
        aliesdrun_frunnumber: i32,
        aliesdrun_ftriggerclasses: Vec<Vec<u8>>,
        aliesdheader_ftriggermask: u64,
        tracks_fx: Vec<FloatBits>,
        tracks_fp: Vec<TrackParameters>,
        tracks_falpha: Vec<FloatBits>,
        tracks_fflags: Vec<Flags>,
        tracks_fitschi2: Vec<FloatBits>,
        tracks_fitsncls: Vec<i8>,
        tracks_fitsclustermap: Vec<ItsClusters>,
        tracks_ftpcchi2: Vec<FloatBits>,
        tracks_ftpcncls: Vec<u16>,
    ) -> (r: Event)
        ensures
            r.deep_view() == (EventView {
                primaryvertex_alivertex_fposition,
                primaryvertex_alivertex_fncontributors,
                aliesdrun_frunnumber,
                aliesdrun_ftriggerclasses: aliesdrun_ftriggerclasses.deep_view(),
                aliesdheader_ftriggermask,
                tracks_fx: tracks_fx.deep_view(),
                tracks_fp: tracks_fp.deep_view(),
                tracks_falpha: tracks_falpha.deep_view(),
                tracks_fflags: tracks_fflags.deep_view(),
                tracks_fitschi2: tracks_fitschi2.deep_view(),
                tracks_fitsncls: tracks_fitsncls.deep_view(),
                tracks_fitsclustermap: tracks_fitsclustermap.deep_view(),
                tracks_ftpcchi2: tracks_ftpcchi2.deep_view(),
                tracks_ftpcncls: tracks_ftpcncls.deep_view(),
            }),
    {
        Event {
            primaryvertex_alivertex_fposition,
            primaryvertex_alivertex_fncontributors,
            aliesdrun_frunnumber,
            aliesdrun_ftriggerclasses,
            aliesdheader_ftriggermask,
            tracks_fx,
            tracks_fp,
            tracks_falpha,
            tracks_fflags,
            tracks_fitschi2,
            tracks_fitsncls,
            tracks_fitsclustermap,
            tracks_ftpcchi2,
            tracks_ftpcncls,
        }
    }

    /// **All** tracks of this event, in the order in which they are stored.
    pub fn tracks(&self) -> (r: Vec<Track>)
        ensures
            r@.len() == track_count(self.deep_view()),
            forall|i: int| 0 <= i < r@.len() ==> #[trigger] r@[i] == track_at(self.deep_view(), i),
    {
        let mut n: usize = self.tracks_fx.len();
        if self.tracks_fp.len() < n {
            n = self.tracks_fp.len();
        }
        if self.tracks_falpha.len() < n {
            n = self.tracks_falpha.len();
        }
        if self.tracks_fflags.len() < n {
            n = self.tracks_fflags.len();
        }
        if self.tracks_fitschi2.len() < n {
            n = self.tracks_fitschi2.len();
        }
        if self.tracks_fitsncls.len() < n {
            n = self.tracks_fitsncls.len();
        }
        if self.tracks_fitsclustermap.len() < n {
            n = self.tracks_fitsclustermap.len();
        }
        if self.tracks_ftpcchi2.len() < n {
            n = self.tracks_ftpcchi2.len();
        }
        if self.tracks_ftpcncls.len() < n {
            n = self.tracks_ftpcncls.len();
        }
        let mut out: Vec<Track> = Vec::new();
        let mut i: usize = 0;
        while i < n
            invariant
                i <= n,
                n == track_count(self.deep_view()),
                out@.len() == i,
                forall|j: int| 0 <= j < i ==> #[trigger] out@[j] == track_at(self.deep_view(), j),
            decreases n - i,
        {
            let track = Track {
                x: self.tracks_fx[i],
                parameters: self.tracks_fp[i],
                alpha: self.tracks_falpha[i],
                flags: self.tracks_fflags[i],
                its_chi2: self.tracks_fitschi2[i],
                its_ncls: self.tracks_fitsncls[i],
                its_clustermap: self.tracks_fitsclustermap[i],
                tpc_chi2: self.tracks_ftpcchi2[i],
                tpc_ncls: self.tracks_ftpcncls[i],
            };
            out.push(track);
            i = i + 1;
        }
        out
    }

    /// The primary vertex of this event, if it exists. Else `None`.
    ///
    /// An event without contributors has no primary vertex; with at least
    /// one, it has the vertex at the stored position.
    pub fn primary_vertex(&self) -> (r: Option<PrimaryVertex>)
        ensures
            r == vertex_of(self.deep_view()),
            self.deep_view().primaryvertex_alivertex_fncontributors <= 0 ==> r is None,
            self.deep_view().primaryvertex_alivertex_fncontributors >= 1 ==> r is Some
                && r.unwrap().x == self.deep_view().primaryvertex_alivertex_fposition.0
                && r.unwrap().y == self.deep_view().primaryvertex_alivertex_fposition.1
                && r.unwrap().z == self.deep_view().primaryvertex_alivertex_fposition.2
                && r.unwrap().n_contrib == self.deep_view().primaryvertex_alivertex_fncontributors,
    {
        // 0 contributors means that there is no primary vertex
        if self.primaryvertex_alivertex_fncontributors > 0 {
            Some(
                PrimaryVertex {
                    x: self.primaryvertex_alivertex_fposition.0,
                    y: self.primaryvertex_alivertex_fposition.1,
                    z: self.primaryvertex_alivertex_fposition.2,
                    n_contrib: self.primaryvertex_alivertex_fncontributors,
                },
            )
        } else {
            None
        }
    }

    /// The number of reconstructed tracks: the length of the first track
    /// column, whether the tracks are valid or not.
    pub fn multiplicity(&self) -> (r: usize)
        ensures
            r == self.deep_view().tracks_fx.len(),
    {
        self.tracks_fx.len()
    }

    /// The run that the event belongs to.
    pub fn run_number(&self) -> (r: i32)
        ensures
            r == self.deep_view().aliesdrun_frunnumber,
    {
        self.aliesdrun_frunnumber
    }

    /// The trigger mask under the built-in lookup or under a table.
    fn mask_under(&self, table: Option<&TriggerTable>) -> (r: TriggerMask)
        ensures
            r.bits == trigger_bits(
                self.deep_view(),
                match table {
                    Some(t) => Some(t.rules.deep_view()),
                    None => None,
                },
            ),
    {
        let ghost rules: Option<Seq<TriggerRuleView>> = match table {
            Some(t) => Some(t.rules.deep_view()),
            None => None,
        };
        let ghost classes = self.aliesdrun_ftriggerclasses.deep_view();
        let n: usize = if self.aliesdrun_ftriggerclasses.len() < TRIGGER_BITS {
            self.aliesdrun_ftriggerclasses.len()
        } else {
            TRIGGER_BITS
        };
        let mut mask = TriggerMask::empty();
        let mut i: usize = 0;
        while i < n
            invariant
                i <= n <= TRIGGER_BITS,
                n <= self.aliesdrun_ftriggerclasses@.len(),
                classes == self.aliesdrun_ftriggerclasses.deep_view(),
                rules == match table {
                    Some(t) => Some(t.rules.deep_view()),
                    None => None::<Seq<TriggerRuleView>>,
                },
                mask.bits == fired_mask(
                    self.aliesdheader_ftriggermask,
                    classes,
                    self.aliesdrun_frunnumber,
                    rules,
                    i as nat,
                ),
            decreases n - i,
        {
            let name = &self.aliesdrun_ftriggerclasses[i];
            proof {
                assert(classes[i as int] == name.deep_view());
                assert(name.deep_view() =~= name@);
            }
            if self.aliesdheader_ftriggermask & (1u64 << (i as u64)) != 0 {
                let fired = match table {
                    Some(t) => t.lookup(name.as_slice(), self.aliesdrun_frunnumber),
                    None => string_to_mask(name.as_slice(), self.aliesdrun_frunnumber),
                };
                mask = mask.union(fired);
            }
            i = i + 1;
        }
        mask
    }

    /// The `TriggerMask` of this event. Use this to select minimum bias
    /// events, for example.
    ///
    /// The trigger word holds one bit for each of the first sixty-four
    /// trigger classes of the run. The mask is made of the masks that the
    /// built-in lookup gives the classes whose bit is set.
    pub fn trigger_mask(&self) -> (r: TriggerMask)
        ensures
            r.bits == trigger_bits(self.deep_view(), None),
    {
        self.mask_under(None)
    }

    /// The trigger mask of this event under the lookup of `table`. A class
    /// that the table does not list sets no bit.
    pub fn trigger_mask_with(&self, table: &TriggerTable) -> (r: TriggerMask)
        ensures
            r.bits == trigger_bits(self.deep_view(), Some(table.rules.deep_view())),
    {
        self.mask_under(Some(table))
    }
}

/// The columns that events are assembled from, one value for each row.
#[derive(Debug)]
pub struct Columns {
    pub run_numbers: Vec<i32>,
    pub trigger_classes: Vec<Vec<Vec<u8>>>,
    pub trigger_masks: Vec<u64>,
    pub positions: Vec<(FloatBits, FloatBits, FloatBits)>,
    pub contributors: Vec<i32>,
    pub fx: Vec<Vec<FloatBits>>,
    pub fp: Vec<Vec<TrackParameters>>,
    pub falpha: Vec<Vec<FloatBits>>,
    pub fflags: Vec<Vec<Flags>>,
    pub fitschi2: Vec<Vec<FloatBits>>,
    pub fitsncls: Vec<Vec<i8>>,
    pub fitsclustermap: Vec<Vec<ItsClusters>>,
    pub ftpcncls: Vec<Vec<u16>>,
    pub ftpcchi2: Vec<Vec<FloatBits>>,
}

/// The columns as mathematical values.
pub struct ColumnsView {
    pub run_numbers: Seq<i32>,
    pub trigger_classes: Seq<Seq<Seq<u8>>>,
    pub trigger_masks: Seq<u64>,
    pub positions: Seq<(FloatBits, FloatBits, FloatBits)>,
    pub contributors: Seq<i32>,
    pub fx: Seq<Seq<FloatBits>>,
    pub fp: Seq<Seq<TrackParameters>>,
    pub falpha: Seq<Seq<FloatBits>>,
    pub fflags: Seq<Seq<Flags>>,
    pub fitschi2: Seq<Seq<FloatBits>>,
    pub fitsncls: Seq<Seq<i8>>,
    pub fitsclustermap: Seq<Seq<ItsClusters>>,
    pub ftpcncls: Seq<Seq<u16>>,
    pub ftpcchi2: Seq<Seq<FloatBits>>,
}

impl DeepView for Columns {
    type V = ColumnsView;

    open spec fn deep_view(&self) -> ColumnsView {
        ColumnsView {
            run_numbers: self.run_numbers.deep_view(),
            trigger_classes: self.trigger_classes.deep_view(),
            trigger_masks: self.trigger_masks.deep_view(),
            positions: self.positions.deep_view(),
            contributors: self.contributors.deep_view(),
            fx: self.fx.deep_view(),
            fp: self.fp.deep_view(),
            falpha: self.falpha.deep_view(),
            fflags: self.fflags.deep_view(),
            fitschi2: self.fitschi2.deep_view(),
            fitsncls: self.fitsncls.deep_view(),
            fitsclustermap: self.fitsclustermap.deep_view(),
            ftpcncls: self.ftpcncls.deep_view(),
            ftpcchi2: self.ftpcchi2.deep_view(),
        }
    }
}

/// Whether every column has a value for each of `rows` rows.
pub open spec fn covers(c: ColumnsView, rows: nat) -> bool {
    &&& rows <= c.run_numbers.len()
    &&& rows <= c.trigger_classes.len()
    &&& rows <= c.trigger_masks.len()
    &&& rows <= c.positions.len()
    &&& rows <= c.contributors.len()
    &&& rows <= c.fx.len()
    &&& rows <= c.fp.len()
    &&& rows <= c.falpha.len()
    &&& rows <= c.fflags.len()
    &&& rows <= c.fitschi2.len()
    &&& rows <= c.fitsncls.len()
    &&& rows <= c.fitsclustermap.len()
    &&& rows <= c.ftpcncls.len()
    &&& rows <= c.ftpcchi2.len()
}

/// The event of row `i`: value `i` of every column.
pub open spec fn event_at(c: ColumnsView, i: int) -> EventView {
    EventView {
        primaryvertex_alivertex_fposition: c.positions[i],
        primaryvertex_alivertex_fncontributors: c.contributors[i],
        aliesdrun_frunnumber: c.run_numbers[i],
        aliesdrun_ftriggerclasses: c.trigger_classes[i],
        aliesdheader_ftriggermask: c.trigger_masks[i],
        tracks_fx: c.fx[i],
        tracks_fp: c.fp[i],
        tracks_falpha: c.falpha[i],
        tracks_fflags: c.fflags[i],
        tracks_fitschi2: c.fitschi2[i],
        tracks_fitsncls: c.fitsncls[i],
        tracks_fitsclustermap: c.fitsclustermap[i],
        tracks_ftpcchi2: c.ftpcchi2[i],
        tracks_ftpcncls: c.ftpcncls[i],
    }
}

/// The events of `rows` rows: a format error where a column is shorter than
/// that, else row by row the values at the same place of every column.
pub open spec fn assembled(rows: nat, c: ColumnsView) -> Result<Seq<EventView>, Error> {
    if covers(c, rows) {
        Ok(Seq::new(rows, |i: int| event_at(c, i)))
    } else {
        Err(Error::Format)
    }
}

/// The columns with one value for each event.
#[derive(Debug)]
pub struct HeadColumns {
    pub run_numbers: Vec<i32>,
    pub trigger_classes: Vec<Vec<Vec<u8>>>,
    pub trigger_masks: Vec<u64>,
    pub positions: Vec<(FloatBits, FloatBits, FloatBits)>,
    pub contributors: Vec<i32>,
}

/// The columns with one value for each event, as mathematical values.
pub struct HeadView {
    pub run_numbers: Seq<i32>,
    pub trigger_classes: Seq<Seq<Seq<u8>>>,
    pub trigger_masks: Seq<u64>,
    pub positions: Seq<(FloatBits, FloatBits, FloatBits)>,
    pub contributors: Seq<i32>,
}

impl DeepView for HeadColumns {
    type V = HeadView;

    open spec fn deep_view(&self) -> HeadView {
        HeadView {
            run_numbers: self.run_numbers.deep_view(),
            trigger_classes: self.trigger_classes.deep_view(),
            trigger_masks: self.trigger_masks.deep_view(),
            positions: self.positions.deep_view(),
            contributors: self.contributors.deep_view(),
        }
    }
}

/// The columns that place the tracks of each event.
#[derive(Debug)]
pub struct KinematicsColumns {
    pub fx: Vec<Vec<FloatBits>>,
    pub fp: Vec<Vec<TrackParameters>>,
    pub falpha: Vec<Vec<FloatBits>>,
    pub fflags: Vec<Vec<Flags>>,
}

/// The columns that place the tracks, as mathematical values.
pub struct KinematicsView {
    pub fx: Seq<Seq<FloatBits>>,
    pub fp: Seq<Seq<TrackParameters>>,
    pub falpha: Seq<Seq<FloatBits>>,
    pub fflags: Seq<Seq<Flags>>,
}

impl DeepView for KinematicsColumns {
    type V = KinematicsView;

    open spec fn deep_view(&self) -> KinematicsView {
        KinematicsView {
            fx: self.fx.deep_view(),
            fp: self.fp.deep_view(),
            falpha: self.falpha.deep_view(),
            fflags: self.fflags.deep_view(),
        }
    }
}

/// The columns that qualify the tracks of each event.
#[derive(Debug)]
pub struct QualityColumns {
    pub fitschi2: Vec<Vec<FloatBits>>,
    pub fitsncls: Vec<Vec<i8>>,
    pub fitsclustermap: Vec<Vec<ItsClusters>>,
    pub ftpcncls: Vec<Vec<u16>>,
    pub ftpcchi2: Vec<Vec<FloatBits>>,
}

/// The columns that qualify the tracks, as mathematical values.
pub struct QualityView {
    pub fitschi2: Seq<Seq<FloatBits>>,
    pub fitsncls: Seq<Seq<i8>>,
    pub fitsclustermap: Seq<Seq<ItsClusters>>,
    pub ftpcncls: Seq<Seq<u16>>,
    pub ftpcchi2: Seq<Seq<FloatBits>>,
}

impl DeepView for QualityColumns {
    type V = QualityView;

    open spec fn deep_view(&self) -> QualityView {
        QualityView {
            fitschi2: self.fitschi2.deep_view(),
            fitsncls: self.fitsncls.deep_view(),
            fitsclustermap: self.fitsclustermap.deep_view(),
            ftpcncls: self.ftpcncls.deep_view(),
            ftpcchi2: self.ftpcchi2.deep_view(),
        }
    }
}

/// The three groups of columns as one.
pub open spec fn joined(h: HeadView, k: KinematicsView, q: QualityView) -> ColumnsView {
    ColumnsView {
        run_numbers: h.run_numbers,
        trigger_classes: h.trigger_classes,
        trigger_masks: h.trigger_masks,
        positions: h.positions,
        contributors: h.contributors,
        fx: k.fx,
        fp: k.fp,
        falpha: k.falpha,
        fflags: k.fflags,
        fitschi2: q.fitschi2,
        fitsncls: q.fitsncls,
        fitsclustermap: q.fitsclustermap,
        ftpcncls: q.ftpcncls,
        ftpcchi2: q.ftpcchi2,
    }
}

/// The columns of a tree with one value for each event: run number, trigger
/// classes, trigger word, position of the vertex and its contributors. The
/// error is that of the first, in this order, that cannot be decoded.
pub open spec fn head_of(t: TreeView) -> Result<HeadView, Error> {
    let run_numbers = fixed_branch(BeI32, t, "AliESDRun.fRunNumber".spec_bytes());
    let trigger_classes = fixed_branch(NameList, t, "AliESDRun.fTriggerClasses".spec_bytes());
    let trigger_masks = fixed_branch(BeU64, t, "AliESDHeader.fTriggerMask".spec_bytes());
    let positions = fixed_branch(Position, t, "PrimaryVertex.AliVertex.fPosition[3]".spec_bytes());
    let contributors = fixed_branch(
        BeI32,
        t,
        "PrimaryVertex.AliVertex.fNContributors".spec_bytes(),
    );
    if run_numbers is Err {
        Err(run_numbers->Err_0)
    } else if trigger_classes is Err {
        Err(trigger_classes->Err_0)
    } else if trigger_masks is Err {
        Err(trigger_masks->Err_0)
    } else if positions is Err {
        Err(positions->Err_0)
    } else if contributors is Err {
        Err(contributors->Err_0)
    } else {
        Ok(
            HeadView {
                run_numbers: run_numbers->Ok_0,
                trigger_classes: trigger_classes->Ok_0,
                trigger_masks: trigger_masks->Ok_0,
                positions: positions->Ok_0,
                contributors: contributors->Ok_0,
            },
        )
    }
}

/// The columns of a tree that place the tracks, row `i` holding `counts[i]`
/// tracks: position, parameters, rotation and status. The error is that of
/// the first, in this order, that cannot be decoded.
pub open spec fn kinematics_of(t: TreeView, counts: Seq<u32>) -> Result<KinematicsView, Error> {
    let fx = variable_branch(BeF32, t, "Tracks.fX".spec_bytes(), counts);
    let fp = variable_branch(Parameters, t, "Tracks.fP[5]".spec_bytes(), counts);
    let falpha = variable_branch(BeF32, t, "Tracks.fAlpha".spec_bytes(), counts);
    let fflags = variable_branch(StatusFlags, t, "Tracks.fFlags".spec_bytes(), counts);
    if fx is Err {
        Err(fx->Err_0)
    } else if fp is Err {
        Err(fp->Err_0)
    } else if falpha is Err {
        Err(falpha->Err_0)
    } else if fflags is Err {
        Err(fflags->Err_0)
    } else {
        Ok(KinematicsView { fx: fx->Ok_0, fp: fp->Ok_0, falpha: falpha->Ok_0, fflags: fflags->Ok_0 })
    }
}

/// The columns of a tree that qualify the tracks, row `i` holding
/// `counts[i]` tracks: fit quality, clusters and cluster map of the inner
/// tracker, clusters and fit quality of the time projection chamber. The
/// error is that of the first, in this order, that cannot be decoded.
pub open spec fn quality_of(t: TreeView, counts: Seq<u32>) -> Result<QualityView, Error> {
    let chi2 = CustomMantissa::of_width(8);
    let fitschi2 = variable_branch(chi2, t, "Tracks.fITSchi2".spec_bytes(), counts);
    let fitsncls = variable_branch(BeI8, t, "Tracks.fITSncls".spec_bytes(), counts);
    let fitsclustermap = variable_branch(
        ClusterMap,
        t,
        "Tracks.fITSClusterMap".spec_bytes(),
        counts,
    );
    let ftpcncls = variable_branch(BeU16, t, "Tracks.fTPCncls".spec_bytes(), counts);
    let ftpcchi2 = variable_branch(chi2, t, "Tracks.fTPCchi2".spec_bytes(), counts);
    if fitschi2 is Err {
        Err(fitschi2->Err_0)
    } else if fitsncls is Err {
        Err(fitsncls->Err_0)
    } else if fitsclustermap is Err {
        Err(fitsclustermap->Err_0)
    } else if ftpcncls is Err {
        Err(ftpcncls->Err_0)
    } else if ftpcchi2 is Err {
        Err(ftpcchi2->Err_0)
    } else {
        Ok(
            QualityView {
                fitschi2: fitschi2->Ok_0,
                fitsncls: fitsncls->Ok_0,
                fitsclustermap: fitsclustermap->Ok_0,
                ftpcncls: ftpcncls->Ok_0,
                ftpcchi2: ftpcchi2->Ok_0,
            },
        )
    }
}

/// The columns that the events of a tree are made of: the counter of the
/// tracks, then the columns with one value per event, then those that place
/// the tracks and those that qualify them. The error is that of the first
/// column, in this order, that cannot be decoded.
pub open spec fn columns_of(t: TreeView) -> Result<ColumnsView, Error> {
    match fixed_branch(BeU32, t, "Tracks".spec_bytes()) {
        Ok(counts) => match head_of(t) {
            Ok(h) => match kinematics_of(t, counts) {
                Ok(k) => match quality_of(t, counts) {
                    Ok(q) => Ok(joined(h, k, q)),
                    Err(e) => Err(e),
                },
                Err(e) => Err(e),
            },
            Err(e) => Err(e),
        },
        Err(e) => Err(e),
    }
}

/// The events of a tree: one for each of its rows, assembled from its
/// columns.
pub open spec fn events_of(t: TreeView) -> Result<Seq<EventView>, Error> {
    match columns_of(t) {
        Ok(c) => assembled(t.entries as nat, c),
        Err(e) => Err(e),
    }
}

/// Assembles the events of `rows` rows from the columns: event `i` holds
/// value `i` of every column.
///
/// Fails with a format error exactly where a column has fewer than `rows`
/// values.
pub fn assemble(rows: usize, c: &Columns) -> (r: Result<Vec<Event>, Error>)
    ensures
        match r {
            Ok(events) => assembled(rows as nat, c.deep_view()) == Ok::<_, Error>(
                events.deep_view(),
            ) && events@.len() == rows,
            Err(e) => assembled(rows as nat, c.deep_view()) == Err::<Seq<EventView>, Error>(e),
        },
{
    if c.run_numbers.len() < rows || c.trigger_classes.len() < rows || c.trigger_masks.len() < rows
        || c.positions.len() < rows || c.contributors.len() < rows || c.fx.len() < rows
        || c.fp.len() < rows || c.falpha.len() < rows || c.fflags.len() < rows
        || c.fitschi2.len() < rows || c.fitsncls.len() < rows || c.fitsclustermap.len() < rows
        || c.ftpcncls.len() < rows || c.ftpcchi2.len() < rows {
        return Err(Error::Format);
    }
    let ghost cv = c.deep_view();
    let mut events: Vec<Event> = Vec::new();
    let mut i: usize = 0;
    while i < rows
        invariant
            i <= rows,
            cv == c.deep_view(),
            covers(cv, rows as nat),
            events@.len() == i,
            forall|j: int| 0 <= j < i ==> (#[trigger] events@[j]).deep_view() == event_at(cv, j),
        decreases rows - i,
    {
        let position = c.positions[i];
        proof {
            assert(cv.positions[i as int] == position.deep_view());
            assert(position.deep_view() == position);
        }
        let event = Event::new(
            position,
            c.contributors[i],
            c.run_numbers[i],
            copy_names(&c.trigger_classes[i]),
            c.trigger_masks[i],
            copy_row(&c.fx[i]),
            copy_row(&c.fp[i]),
            copy_row(&c.falpha[i]),
            copy_row(&c.fflags[i]),
            copy_row(&c.fitschi2[i]),
            copy_row(&c.fitsncls[i]),
            copy_row(&c.fitsclustermap[i]),
            copy_row(&c.ftpcchi2[i]),
            copy_row(&c.ftpcncls[i]),
        );
        events.push(event);
        i = i + 1;
    }
    proof {
        assert(events.deep_view() =~= Seq::new(rows as nat, |i: int| event_at(cv, i)));
    }
    Ok(events)
}

/// Decodes the columns of a tree with one value for each event.
pub fn head_columns(t: &Tree) -> (r: Result<HeadColumns, Error>)
    ensures
        match r {
            Ok(h) => head_of(t@) == Ok::<_, Error>(h.deep_view()),
            Err(e) => head_of(t@) == Err::<HeadView, Error>(e),
        },
{
    let run_numbers = t.fixed("AliESDRun.fRunNumber".as_bytes(), &BeI32)?;
    let trigger_classes = t.fixed("AliESDRun.fTriggerClasses".as_bytes(), &NameList)?;
    let trigger_masks = t.fixed("AliESDHeader.fTriggerMask".as_bytes(), &BeU64)?;
    let positions = t.fixed("PrimaryVertex.AliVertex.fPosition[3]".as_bytes(), &Position)?;
    let contributors = t.fixed("PrimaryVertex.AliVertex.fNContributors".as_bytes(), &BeI32)?;
    Ok(HeadColumns { run_numbers, trigger_classes, trigger_masks, positions, contributors })
}

/// Decodes the columns of a tree that place the tracks, row `i` holding
/// `counts[i]` tracks.
pub fn kinematics_columns(t: &Tree, counts: &[u32]) -> (r: Result<KinematicsColumns, Error>)
    ensures
        match r {
            Ok(k) => kinematics_of(t@, counts@) == Ok::<_, Error>(k.deep_view()),
            Err(e) => kinematics_of(t@, counts@) == Err::<KinematicsView, Error>(e),
        },
{
    let fx = t.variable("Tracks.fX".as_bytes(), &BeF32, counts)?;
    let fp = t.variable("Tracks.fP[5]".as_bytes(), &Parameters, counts)?;
    let falpha = t.variable("Tracks.fAlpha".as_bytes(), &BeF32, counts)?;
    let fflags = t.variable("Tracks.fFlags".as_bytes(), &StatusFlags, counts)?;
    Ok(KinematicsColumns { fx, fp, falpha, fflags })
}

/// Decodes the columns of a tree that qualify the tracks, row `i` holding
/// `counts[i]` tracks.
pub fn quality_columns(t: &Tree, counts: &[u32]) -> (r: Result<QualityColumns, Error>)
    ensures
        match r {
            Ok(q) => quality_of(t@, counts@) == Ok::<_, Error>(q.deep_view()),
            Err(e) => quality_of(t@, counts@) == Err::<QualityView, Error>(e),
        },
{
    let chi2 = match CustomMantissa::new(8) {
        Some(d) => d,
        None => {
            return Err(Error::Format);
        },
    };
    let fitschi2 = t.variable("Tracks.fITSchi2".as_bytes(), &chi2, counts)?;
    let fitsncls = t.variable("Tracks.fITSncls".as_bytes(), &BeI8, counts)?;
    let fitsclustermap = t.variable("Tracks.fITSClusterMap".as_bytes(), &ClusterMap, counts)?;
    let ftpcncls = t.variable("Tracks.fTPCncls".as_bytes(), &BeU16, counts)?;
    let ftpcchi2 = t.variable("Tracks.fTPCchi2".as_bytes(), &chi2, counts)?;
    Ok(QualityColumns { fitschi2, fitsncls, fitsclustermap, ftpcncls, ftpcchi2 })
}

/// The three groups of columns as one.
pub fn join(h: HeadColumns, k: KinematicsColumns, q: QualityColumns) -> (r: Columns)
    ensures
        r.deep_view() == joined(h.deep_view(), k.deep_view(), q.deep_view()),
{
    Columns {
        run_numbers: h.run_numbers,
        trigger_classes: h.trigger_classes,
        trigger_masks: h.trigger_masks,
        positions: h.positions,
        contributors: h.contributors,
        fx: k.fx,
        fp: k.fp,
        falpha: k.falpha,
        fflags: k.fflags,
        fitschi2: q.fitschi2,
        fitsncls: q.fitsncls,
        fitsclustermap: q.fitsclustermap,
        ftpcncls: q.ftpcncls,
        ftpcchi2: q.ftpcchi2,
    }
}

/// Decodes all columns that the events of a tree are made of, with the
/// number of rows.
pub fn columns(t: &Tree) -> (r: Result<(Columns, usize), Error>)
    ensures
        match r {
            Ok((c, rows)) => columns_of(t@) == Ok::<_, Error>(c.deep_view()) && rows == t@.entries,
            Err(e) => columns_of(t@) == Err::<ColumnsView, Error>(e),
        },
{
    let track_counter = t.fixed("Tracks".as_bytes(), &BeU32)?;
    let counts = track_counter.as_slice();
    proof {
        assert(track_counter.deep_view() =~= counts@);
    }
    let h = head_columns(t)?;
    let k = kinematics_columns(t, counts)?;
    let q = quality_columns(t, counts)?;
    Ok((join(h, k, q), counts.len()))
}

/// Decodes the events of a tree: the counter of the tracks first, then every
/// column, then the events row by row.
///
/// On success there is one event for each row of the tree. Fails with the
/// error of the first column that cannot be decoded: a format error where
/// the tree lacks the branch, where its baskets do not divide into values,
/// and where its values are not as many as the rows or the counters say; a
/// source or compression error where a basket cannot be read.
pub fn event_stream_from_tree(t: &Tree) -> (r: Result<Vec<Event>, Error>)
    ensures
        match r {
            Ok(events) => events_of(t@) == Ok::<_, Error>(events.deep_view()) && events@.len()
                == t@.entries,
            Err(e) => events_of(t@) == Err::<Seq<EventView>, Error>(e),
        },
{
    let (c, rows) = columns(t)?;
    assemble(rows, &c)
}

} // verus!
