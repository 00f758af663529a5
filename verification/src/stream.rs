//! The events of a tree, handed out one by one.
//!
//! An event stream holds one cursor for each column that an event is made
//! of, and advances them together: the next event takes the next value of
//! every column. An event that was handed out stays valid when a later one
//! cannot be decoded; a stream that has failed fails again.

use vstd::prelude::*;
use vstd::string::StringSliceAdditionalSpecFns;
use crate::codec::{BeF32, BeI32, BeI8, BeU16, BeU32, BeU64, Decoder, FloatBits};
use crate::cursor::{fixed_pending, law_cursor_reads_the_column, law_cursor_reads_the_rows,
    rows_pending, stepped, FixedCursor, RowCursor};
use crate::error::Error;
use crate::event::{columns_of, copy_row, event_at, events_of, head_of, joined, kinematics_of,
    quality_of, ColumnsView, Event, EventView, HeadView, KinematicsView, QualityView};
use crate::names::NameList;
use crate::parsers::CustomMantissa;
use crate::track::{ClusterMap, Flags, ItsClusters, Parameters, Position, StatusFlags,
    TrackParameters};
use crate::tree::{find_branch, fixed_branch, law_variable_column_shape, payloads_from,
    variable_branch, Tree, TreeView};
use crate::zip::{zipped, Cursor, Zip};

verus! {

/// The cursors of the columns with one value per event.
pub type Head = Zip<
    Zip<Zip<Zip<FixedCursor<BeI32>, FixedCursor<NameList>>, FixedCursor<BeU64>>, FixedCursor<Position>>,
    FixedCursor<BeI32>,
>;

/// The cursors of the columns that place a track.
pub type Kinematics = Zip<
    Zip<Zip<RowCursor<BeF32>, RowCursor<Parameters>>, RowCursor<BeF32>>,
    RowCursor<StatusFlags>,
>;

/// The cursors of the columns that qualify a track.
pub type Quality = Zip<
    Zip<Zip<Zip<RowCursor<CustomMantissa>, RowCursor<BeI8>>, RowCursor<ClusterMap>>, RowCursor<BeU16>>,
    RowCursor<CustomMantissa>,
>;

/// The values of one row of the columns with one value per event: run
/// number, trigger classes, trigger word, position and contributors.
pub type HeadRow = ((((i32, Seq<Seq<u8>>), u64), (FloatBits, FloatBits, FloatBits)), i32);

/// The values of one row of the columns that place a track.
pub type KinematicsRow = (((Seq<FloatBits>, Seq<TrackParameters>), Seq<FloatBits>), Seq<Flags>);

/// The values of one row of the columns that qualify a track.
pub type QualityRow = ((((Seq<FloatBits>, Seq<i8>), Seq<ItsClusters>), Seq<u16>), Seq<FloatBits>);

/// A cursor's values and the error that ends them, if one does.
pub type Pending<A> = (Seq<A>, Option<Error>);

/// What the cursors of the columns with one value per event still have to
/// hand out.
pub struct HeadPending {
    pub run_numbers: Pending<i32>,
    pub trigger_classes: Pending<Seq<Seq<u8>>>,
    pub trigger_masks: Pending<u64>,
    pub positions: Pending<(FloatBits, FloatBits, FloatBits)>,
    pub contributors: Pending<i32>,
}

/// What the cursors of the columns that place a track still have to hand
/// out.
pub struct KinematicsPending {
    pub fx: Pending<Seq<FloatBits>>,
    pub fp: Pending<Seq<TrackParameters>>,
    pub falpha: Pending<Seq<FloatBits>>,
    pub fflags: Pending<Seq<Flags>>,
}

/// What the cursors of the columns that qualify a track still have to hand
/// out.
pub struct QualityPending {
    pub fitschi2: Pending<Seq<FloatBits>>,
    pub fitsncls: Pending<Seq<i8>>,
    pub fitsclustermap: Pending<Seq<ItsClusters>>,
    pub ftpcncls: Pending<Seq<u16>>,
    pub ftpcchi2: Pending<Seq<FloatBits>>,
}

/// What the cursors of a stream still have to hand out, group by group.
pub struct PendingColumns {
    pub head: HeadPending,
    pub kinematics: KinematicsPending,
    pub quality: QualityPending,
}

/// The values that the cursors of the first group still have to hand out.
pub open spec fn head_values(h: HeadPending) -> HeadView {
    HeadView {
        run_numbers: h.run_numbers.0,
        trigger_classes: h.trigger_classes.0,
        trigger_masks: h.trigger_masks.0,
        positions: h.positions.0,
        contributors: h.contributors.0,
    }
}

/// The values that the cursors of the second group still have to hand out.
pub open spec fn kinematics_values(k: KinematicsPending) -> KinematicsView {
    KinematicsView { fx: k.fx.0, fp: k.fp.0, falpha: k.falpha.0, fflags: k.fflags.0 }
}

/// The values that the cursors of the third group still have to hand out.
pub open spec fn quality_values(q: QualityPending) -> QualityView {
    QualityView {
        fitschi2: q.fitschi2.0,
        fitsncls: q.fitsncls.0,
        fitsclustermap: q.fitsclustermap.0,
        ftpcncls: q.ftpcncls.0,
        ftpcchi2: q.ftpcchi2.0,
    }
}

/// The values that the cursors still have to hand out.
pub open spec fn values_of(p: PendingColumns) -> ColumnsView {
    joined(head_values(p.head), kinematics_values(p.kinematics), quality_values(p.quality))
}

/// The rows that the cursors of the columns with one value per event hand
/// out when they are advanced together, in the order in which they are read.
pub open spec fn head_rows(h: HeadPending) -> Pending<HeadRow> {
    zipped(
        zipped(zipped(zipped(h.run_numbers, h.trigger_classes), h.trigger_masks), h.positions),
        h.contributors,
    )
}

/// The rows that the cursors of the columns that place a track hand out
/// when they are advanced together.
pub open spec fn kinematics_rows(k: KinematicsPending) -> Pending<KinematicsRow> {
    zipped(zipped(zipped(k.fx, k.fp), k.falpha), k.fflags)
}

/// The rows that the cursors of the columns that qualify a track hand out
/// when they are advanced together.
pub open spec fn quality_rows(q: QualityPending) -> Pending<QualityRow> {
    zipped(
        zipped(zipped(zipped(q.fitschi2, q.fitsncls), q.fitsclustermap), q.ftpcncls),
        q.ftpcchi2,
    )
}

/// The event that is made of one row of every column.
pub open spec fn event_of(row: ((HeadRow, KinematicsRow), QualityRow)) -> EventView {
    let head = row.0.0;
    let kinematics = row.0.1;
    let quality = row.1;
    EventView {
        primaryvertex_alivertex_fposition: head.0.1,
        primaryvertex_alivertex_fncontributors: head.1,
        aliesdrun_frunnumber: head.0.0.0.0,
        aliesdrun_ftriggerclasses: head.0.0.0.1,
        aliesdheader_ftriggermask: head.0.0.1,
        tracks_fx: kinematics.0.0.0,
        tracks_fp: kinematics.0.0.1,
        tracks_falpha: kinematics.0.1,
        tracks_fflags: kinematics.1,
        tracks_fitschi2: quality.0.0.0.0,
        tracks_fitsncls: quality.0.0.0.1,
        tracks_fitsclustermap: quality.0.0.1,
        tracks_ftpcchi2: quality.1,
        tracks_ftpcncls: quality.0.1,
    }
}

/// The events that are made of rows, with the error that ends the rows.
pub open spec fn events_from(rows: (Seq<((HeadRow, KinematicsRow), QualityRow)>, Option<Error>)) -> (
    Seq<EventView>,
    Option<Error>,
) {
    (rows.0.map_values(|row: ((HeadRow, KinematicsRow), QualityRow)| event_of(row)), rows.1)
}

/// What a stream over the cursors has to hand out: one event for each row
/// for which every cursor has a value, and behind the events the error of
/// the first cursor, in the order in which the columns are read, that fails
/// there; none where no cursor does.
pub open spec fn pending_events(p: PendingColumns) -> (Seq<EventView>, Option<Error>) {
    events_from(
        zipped(zipped(head_rows(p.head), kinematics_rows(p.kinematics)), quality_rows(p.quality)),
    )
}

/// What a cursor over the branch `name` of a tree has to hand out when the
/// branch is read with one value per row. A tree without such a branch is a
/// format error.
pub open spec fn fixed_cursor_of<D: Decoder>(d: D, t: TreeView, name: Seq<u8>) -> Result<
    (Seq<<D::Item as DeepView>::V>, Option<Error>),
    Error,
> {
    match find_branch(t.branches, name, 0) {
        Some(i) => fixed_pending(d, t.branches[i].baskets, t.source, t.entries),
        None => Err(Error::Format),
    }
}

/// What a cursor over the branch `name` of a tree has to hand out when the
/// branch is read as arrays whose lengths are `counts`. A tree without such
/// a branch is a format error.
pub open spec fn row_cursor_of<D: Decoder>(d: D, t: TreeView, name: Seq<u8>, counts: Seq<u32>) -> Result<
    (Seq<Seq<<D::Item as DeepView>::V>>, Option<Error>),
    Error,
> {
    match find_branch(t.branches, name, 0) {
        Some(i) => rows_pending(d, t.branches[i].baskets, t.source, t.entries, counts),
        None => Err(Error::Format),
    }
}

/// What the cursors of the columns with one value per event have to hand
/// out. The error is that of the first column, in the order in which they
/// are read, whose branch is missing or whose baskets cannot be read.
pub open spec fn head_pending_of(t: TreeView) -> Result<HeadPending, Error> {
    let run_numbers = fixed_cursor_of(BeI32, t, "AliESDRun.fRunNumber".spec_bytes());
    let trigger_classes = fixed_cursor_of(NameList, t, "AliESDRun.fTriggerClasses".spec_bytes());
    let trigger_masks = fixed_cursor_of(BeU64, t, "AliESDHeader.fTriggerMask".spec_bytes());
    let positions = fixed_cursor_of(
        Position,
        t,
        "PrimaryVertex.AliVertex.fPosition[3]".spec_bytes(),
    );
    let contributors = fixed_cursor_of(
        BeI32,
        t,
        "PrimaryVertex.AliVertex.fNContributors".spec_bytes(),
    );
    if run_numbers is Err {
        Err(run_numbers->Err_0)
    } else if trigger_classes is Err {
        Err(trigger_classes->Err_0)
    } else if trigger_masks is Err {
        Err(trigger_masks->Err_0)
    } else if positions is Err {
        Err(positions->Err_0)
    } else if contributors is Err {
        Err(contributors->Err_0)
    } else {
        Ok(
            HeadPending {
                run_numbers: run_numbers->Ok_0,
                trigger_classes: trigger_classes->Ok_0,
                trigger_masks: trigger_masks->Ok_0,
                positions: positions->Ok_0,
                contributors: contributors->Ok_0,
            },
        )
    }
}

/// What the cursors of the columns that place a track have to hand out,
/// row `i` holding `counts[i]` tracks.
pub open spec fn kinematics_pending_of(t: TreeView, counts: Seq<u32>) -> Result<
    KinematicsPending,
    Error,
> {
    let fx = row_cursor_of(BeF32, t, "Tracks.fX".spec_bytes(), counts);
    let fp = row_cursor_of(Parameters, t, "Tracks.fP[5]".spec_bytes(), counts);
    let falpha = row_cursor_of(BeF32, t, "Tracks.fAlpha".spec_bytes(), counts);
    let fflags = row_cursor_of(StatusFlags, t, "Tracks.fFlags".spec_bytes(), counts);
    if fx is Err {
        Err(fx->Err_0)
    } else if fp is Err {
        Err(fp->Err_0)
    } else if falpha is Err {
        Err(falpha->Err_0)
    } else if fflags is Err {
        Err(fflags->Err_0)
    } else {
        Ok(
            KinematicsPending {
                fx: fx->Ok_0,
                fp: fp->Ok_0,
                falpha: falpha->Ok_0,
                fflags: fflags->Ok_0,
            },
        )
    }
}

/// What the cursors of the columns that qualify a track have to hand out,
/// row `i` holding `counts[i]` tracks.
pub open spec fn quality_pending_of(t: TreeView, counts: Seq<u32>) -> Result<QualityPending, Error> {
    let chi2 = CustomMantissa::of_width(8);
    let fitschi2 = row_cursor_of(chi2, t, "Tracks.fITSchi2".spec_bytes(), counts);
    let fitsncls = row_cursor_of(BeI8, t, "Tracks.fITSncls".spec_bytes(), counts);
    let fitsclustermap = row_cursor_of(ClusterMap, t, "Tracks.fITSClusterMap".spec_bytes(), counts);
    let ftpcncls = row_cursor_of(BeU16, t, "Tracks.fTPCncls".spec_bytes(), counts);
    let ftpcchi2 = row_cursor_of(chi2, t, "Tracks.fTPCchi2".spec_bytes(), counts);
    if fitschi2 is Err {
        Err(fitschi2->Err_0)
    } else if fitsncls is Err {
        Err(fitsncls->Err_0)
    } else if fitsclustermap is Err {
        Err(fitsclustermap->Err_0)
    } else if ftpcncls is Err {
        Err(ftpcncls->Err_0)
    } else if ftpcchi2 is Err {
        Err(ftpcchi2->Err_0)
    } else {
        Ok(
            QualityPending {
                fitschi2: fitschi2->Ok_0,
                fitsncls: fitsncls->Ok_0,
                fitsclustermap: fitsclustermap->Ok_0,
                ftpcncls: ftpcncls->Ok_0,
                ftpcchi2: ftpcchi2->Ok_0,
            },
        )
    }
}

/// What the cursors of a stream over a tree have to hand out. The counter
/// of the tracks is decoded as a whole; every other column gets a cursor.
/// The error is that of the first column, in the order in which they are
/// read, whose branch is missing or whose baskets cannot be read.
pub open spec fn stream_of(t: TreeView) -> Result<PendingColumns, Error> {
    match fixed_branch(BeU32, t, "Tracks".spec_bytes()) {
        Ok(counts) => match head_pending_of(t) {
            Ok(head) => match kinematics_pending_of(t, counts) {
                Ok(kinematics) => match quality_pending_of(t, counts) {
                    Ok(quality) => Ok(PendingColumns { head, kinematics, quality }),
                    Err(e) => Err(e),
                },
                Err(e) => Err(e),
            },
            Err(e) => Err(e),
        },
        Err(e) => Err(e),
    }
}

impl Tree {
    /// A cursor at the start of the branch `name`, which is read with one
    /// value per row.
    ///
    /// Fails as [`Tree::branch_by_name`] and [`BranchReader::fixed_cursor`]
    /// do.
    pub fn fixed_cursor<D: Decoder>(&self, name: &[u8], d: D) -> (r: Result<FixedCursor<D>, Error>)
        ensures
            match r {
                Ok(c) => fixed_cursor_of(d, self@, name@) == Ok::<_, Error>(c.remaining()),
                Err(e) => fixed_cursor_of(d, self@, name@) == Err::<
                    (Seq<<D::Item as DeepView>::V>, Option<Error>),
                    Error,
                >(e),
            },
    {
        let reader = self.branch_by_name(name)?;
        reader.fixed_cursor(d)
    }

    /// A cursor at the start of the branch `name`, which is read as arrays,
    /// row `i` taking `counts[i]` values.
    ///
    /// Fails as [`Tree::branch_by_name`] and [`BranchReader::row_cursor`]
    /// do.
    pub fn row_cursor<D: Decoder>(&self, name: &[u8], d: D, counts: Vec<u32>) -> (r: Result<
        RowCursor<D>,
        Error,
    >)
        ensures
            match r {
                Ok(c) => row_cursor_of(d, self@, name@, counts@) == Ok::<_, Error>(c.remaining()),
                Err(e) => row_cursor_of(d, self@, name@, counts@) == Err::<
                    (Seq<Seq<<D::Item as DeepView>::V>>, Option<Error>),
                    Error,
                >(e),
            },
    {
        let reader = self.branch_by_name(name)?;
        reader.row_cursor(d, counts)
    }
}

/// Makes the cursors of the columns with one value per event.
pub fn open_head(t: &Tree) -> (r: Result<Head, Error>)
    ensures
        match r {
            Ok(z) => head_pending_of(t@) matches Ok(h) && z.pending() == head_rows(h),
            Err(e) => head_pending_of(t@) == Err::<HeadPending, Error>(e),
        },
{
    let run_numbers = t.fixed_cursor("AliESDRun.fRunNumber".as_bytes(), BeI32)?;
    let trigger_classes = t.fixed_cursor("AliESDRun.fTriggerClasses".as_bytes(), NameList)?;
    let trigger_masks = t.fixed_cursor("AliESDHeader.fTriggerMask".as_bytes(), BeU64)?;
    let positions = t.fixed_cursor("PrimaryVertex.AliVertex.fPosition[3]".as_bytes(), Position)?;
    let contributors = t.fixed_cursor("PrimaryVertex.AliVertex.fNContributors".as_bytes(), BeI32)?;
    Ok(
        Zip::new(
            Zip::new(Zip::new(Zip::new(run_numbers, trigger_classes), trigger_masks), positions),
            contributors,
        ),
    )
}

/// Makes the cursors of the columns that place a track.
pub fn open_kinematics(t: &Tree, counts: &Vec<u32>) -> (r: Result<Kinematics, Error>)
    ensures
        match r {
            Ok(z) => kinematics_pending_of(t@, counts@) matches Ok(k) && z.pending()
                == kinematics_rows(k),
            Err(e) => kinematics_pending_of(t@, counts@) == Err::<KinematicsPending, Error>(e),
        },
{
    let fx = t.row_cursor("Tracks.fX".as_bytes(), BeF32, copy_row(counts))?;
    let fp = t.row_cursor("Tracks.fP[5]".as_bytes(), Parameters, copy_row(counts))?;
    let falpha = t.row_cursor("Tracks.fAlpha".as_bytes(), BeF32, copy_row(counts))?;
    let fflags = t.row_cursor("Tracks.fFlags".as_bytes(), StatusFlags, copy_row(counts))?;
    Ok(Zip::new(Zip::new(Zip::new(fx, fp), falpha), fflags))
}

/// Makes the cursors of the columns that qualify a track.
pub fn open_quality(t: &Tree, counts: &Vec<u32>) -> (r: Result<Quality, Error>)
    ensures
        match r {
            Ok(z) => quality_pending_of(t@, counts@) matches Ok(q) && z.pending() == quality_rows(q),
            Err(e) => quality_pending_of(t@, counts@) == Err::<QualityPending, Error>(e),
        },
{
    let chi2_its = match CustomMantissa::new(8) {
        Some(d) => d,
        None => {
            return Err(Error::Format);
        },
    };
    let chi2_tpc = match CustomMantissa::new(8) {
        Some(d) => d,
        None => {
            return Err(Error::Format);
        },
    };
    let fitschi2 = t.row_cursor("Tracks.fITSchi2".as_bytes(), chi2_its, copy_row(counts))?;
    let fitsncls = t.row_cursor("Tracks.fITSncls".as_bytes(), BeI8, copy_row(counts))?;
    let fitsclustermap = t.row_cursor(
        "Tracks.fITSClusterMap".as_bytes(),
        ClusterMap,
        copy_row(counts),
    )?;
    let ftpcncls = t.row_cursor("Tracks.fTPCncls".as_bytes(), BeU16, copy_row(counts))?;
    let ftpcchi2 = t.row_cursor("Tracks.fTPCchi2".as_bytes(), chi2_tpc, copy_row(counts))?;
    Ok(
        Zip::new(
            Zip::new(Zip::new(Zip::new(fitschi2, fitsncls), fitsclustermap), ftpcncls),
            ftpcchi2,
        ),
    )
}

/// The events of a tree, handed out one by one in row order.
pub struct EventStream {
    rows: Zip<Zip<Head, Kinematics>, Quality>,
}

impl EventStream {
    /// What the stream still has to hand out: the events, and the error
    /// that ends them, if one does.
    pub closed spec fn remaining(&self) -> (Seq<EventView>, Option<Error>) {
        events_from(self.rows.pending())
    }

    /// A stream at the first event of a tree. The counter of the tracks is
    /// decoded and the baskets of the columns are read now; the events are
    /// decoded when the stream is asked for them.
    ///
    /// Fails with the error of the first column, in the order in which they
    /// are read, whose branch is missing or whose baskets cannot be read,
    /// and as [`Tree::fixed`] does for the counter of the tracks.
    pub fn open(t: &Tree) -> (r: Result<EventStream, Error>)
        ensures
            match r {
                Ok(s) => stream_of(t@) matches Ok(p) && s.remaining() == pending_events(p),
                Err(e) => stream_of(t@) == Err::<PendingColumns, Error>(e),
            },
    {
        let counts = t.fixed("Tracks".as_bytes(), &BeU32)?;
        proof {
            assert(counts.deep_view() =~= counts@);
        }
        let head = open_head(t)?;
        let kinematics = open_kinematics(t, &counts)?;
        let quality = open_quality(t, &counts)?;
        Ok(EventStream::over(head, kinematics, quality))
    }

    /// A stream over the cursors of the three groups, which are advanced
    /// together from now on.
    pub fn over(head: Head, kinematics: Kinematics, quality: Quality) -> (r: EventStream)
        ensures
            r.remaining() == events_from(
                zipped(zipped(head.pending(), kinematics.pending()), quality.pending()),
            ),
    {
        EventStream { rows: Zip::new(Zip::new(head, kinematics), quality) }
    }

    /// Hands out the next event of the tree; `None` behind the last.
    ///
    /// Every cursor is advanced by one row. Fails with the error of the
    /// first column, in the order in which they are read, that cannot hand
    /// out its value for the row. A stream that has failed fails again with
    /// the same error; the events that it handed out before stay valid.
    pub fn next(&mut self) -> (r: Result<Option<Event>, Error>)
        ensures
            stepped(old(self).remaining(), final(self).remaining(), r),
    {
        let ghost before = self.rows.pending();
        match self.rows.advance() {
            Ok(Some(row)) => {
                let ((head, kinematics), quality) = row;
                let ((((run_number, trigger_classes), trigger_mask), position), contributors) = head;
                let (((fx, fp), falpha), fflags) = kinematics;
                let ((((fitschi2, fitsncls), fitsclustermap), ftpcncls), ftpcchi2) = quality;
                proof {
                    assert(position.deep_view() == position);
                    assert(events_from(before).0.skip(1) =~= events_from(
                        (before.0.skip(1), before.1),
                    ).0);
                }
                Ok(
                    Some(
                        Event::new(
                            position,
                            contributors,
                            run_number,
                            trigger_classes,
                            trigger_mask,
                            fx,
                            fp,
                            falpha,
                            fflags,
                            fitschi2,
                            fitsncls,
                            fitsclustermap,
                            ftpcchi2,
                            ftpcncls,
                        ),
                    ),
                )
            },
            Ok(None) => Ok(None),
            Err(e) => Err(e),
        }
    }
}

/// Two cursors that each have exactly `n` values to hand out, and no error,
/// have `n` pairs to hand out together, and no error.
pub proof fn lemma_zipped_complete<X, Y>(a: (Seq<X>, Option<Error>), b: (Seq<Y>, Option<Error>), n: nat)
    requires
        a.0.len() == n && a.1 is None,
        b.0.len() == n && b.1 is None,
    ensures
        zipped(a, b).0.len() == n && zipped(a, b).1 is None,
        forall|i: int| 0 <= i < n ==> (#[trigger] zipped(a, b).0[i]) == (a.0[i], b.0[i]),
{
}

/// Whether a cursor has exactly `n` values to hand out, and no error.
pub open spec fn complete<A>(c: Pending<A>, n: nat) -> bool {
    c.0.len() == n && c.1 is None
}

/// Whether every cursor of the first group has exactly `n` values to hand
/// out, and no error.
pub open spec fn head_complete(h: HeadPending, n: nat) -> bool {
    &&& complete(h.run_numbers, n)
    &&& complete(h.trigger_classes, n)
    &&& complete(h.trigger_masks, n)
    &&& complete(h.positions, n)
    &&& complete(h.contributors, n)
}

/// Whether every cursor of the second group has exactly `n` values to hand
/// out, and no error.
pub open spec fn kinematics_complete(k: KinematicsPending, n: nat) -> bool {
    &&& complete(k.fx, n)
    &&& complete(k.fp, n)
    &&& complete(k.falpha, n)
    &&& complete(k.fflags, n)
}

/// Whether every cursor of the third group has exactly `n` values to hand
/// out, and no error.
pub open spec fn quality_complete(q: QualityPending, n: nat) -> bool {
    &&& complete(q.fitschi2, n)
    &&& complete(q.fitsncls, n)
    &&& complete(q.fitsclustermap, n)
    &&& complete(q.ftpcncls, n)
    &&& complete(q.ftpcchi2, n)
}

/// The cursors of the first group, each with `n` values and no error, hand
/// out `n` rows together, each made of the values at its place.
pub proof fn lemma_head_complete(h: HeadPending, n: nat)
    requires
        head_complete(h, n),
    ensures
        complete(head_rows(h), n),
        forall|i: int|
            0 <= i < n ==> (#[trigger] head_rows(h).0[i]) == (
                (((h.run_numbers.0[i], h.trigger_classes.0[i]), h.trigger_masks.0[i]), h.positions.0[i]),
                h.contributors.0[i],
            ),
{
    let a = zipped(h.run_numbers, h.trigger_classes);
    lemma_zipped_complete(h.run_numbers, h.trigger_classes, n);
    let b = zipped(a, h.trigger_masks);
    lemma_zipped_complete(a, h.trigger_masks, n);
    let c = zipped(b, h.positions);
    lemma_zipped_complete(b, h.positions, n);
    lemma_zipped_complete(c, h.contributors, n);
    assert forall|i: int| 0 <= i < n implies (#[trigger] head_rows(h).0[i]) == (
        (((h.run_numbers.0[i], h.trigger_classes.0[i]), h.trigger_masks.0[i]), h.positions.0[i]),
        h.contributors.0[i],
    ) by {
        assert(a.0[i] == (h.run_numbers.0[i], h.trigger_classes.0[i]));
        assert(b.0[i] == (a.0[i], h.trigger_masks.0[i]));
        assert(c.0[i] == (b.0[i], h.positions.0[i]));
    }
}

/// The cursors of the second group, each with `n` values and no error, hand
/// out `n` rows together, each made of the values at its place.
pub proof fn lemma_kinematics_complete(k: KinematicsPending, n: nat)
    requires
        kinematics_complete(k, n),
    ensures
        complete(kinematics_rows(k), n),
        forall|i: int|
            0 <= i < n ==> (#[trigger] kinematics_rows(k).0[i]) == (
                ((k.fx.0[i], k.fp.0[i]), k.falpha.0[i]),
                k.fflags.0[i],
            ),
{
    let a = zipped(k.fx, k.fp);
    lemma_zipped_complete(k.fx, k.fp, n);
    let b = zipped(a, k.falpha);
    lemma_zipped_complete(a, k.falpha, n);
    lemma_zipped_complete(b, k.fflags, n);
    assert forall|i: int| 0 <= i < n implies (#[trigger] kinematics_rows(k).0[i]) == (
        ((k.fx.0[i], k.fp.0[i]), k.falpha.0[i]),
        k.fflags.0[i],
    ) by {
        assert(a.0[i] == (k.fx.0[i], k.fp.0[i]));
        assert(b.0[i] == (a.0[i], k.falpha.0[i]));
    }
}

/// The cursors of the third group, each with `n` values and no error, hand
/// out `n` rows together, each made of the values at its place.
pub proof fn lemma_quality_complete(q: QualityPending, n: nat)
    requires
        quality_complete(q, n),
    ensures
        complete(quality_rows(q), n),
        forall|i: int|
            0 <= i < n ==> (#[trigger] quality_rows(q).0[i]) == (
                (((q.fitschi2.0[i], q.fitsncls.0[i]), q.fitsclustermap.0[i]), q.ftpcncls.0[i]),
                q.ftpcchi2.0[i],
            ),
{
    let a = zipped(q.fitschi2, q.fitsncls);
    lemma_zipped_complete(q.fitschi2, q.fitsncls, n);
    let b = zipped(a, q.fitsclustermap);
    lemma_zipped_complete(a, q.fitsclustermap, n);
    let c = zipped(b, q.ftpcncls);
    lemma_zipped_complete(b, q.ftpcncls, n);
    lemma_zipped_complete(c, q.ftpcchi2, n);
    assert forall|i: int| 0 <= i < n implies (#[trigger] quality_rows(q).0[i]) == (
        (((q.fitschi2.0[i], q.fitsncls.0[i]), q.fitsclustermap.0[i]), q.ftpcncls.0[i]),
        q.ftpcchi2.0[i],
    ) by {
        assert(a.0[i] == (q.fitschi2.0[i], q.fitsncls.0[i]));
        assert(b.0[i] == (a.0[i], q.fitsclustermap.0[i]));
        assert(c.0[i] == (b.0[i], q.ftpcncls.0[i]));
    }
}

/// Cursors that each have exactly `n` values to hand out, and no error,
/// make a stream that hands out `n` events, each made of the values at its
/// place, and ends without an error.
pub proof fn lemma_stream_complete(p: PendingColumns, n: nat)
    requires
        head_complete(p.head, n),
        kinematics_complete(p.kinematics, n),
        quality_complete(p.quality, n),
    ensures
        pending_events(p) == (Seq::new(n, |i: int| event_at(values_of(p), i)), None::<Error>),
{
    let head = head_rows(p.head);
    let kinematics = kinematics_rows(p.kinematics);
    let quality = quality_rows(p.quality);
    lemma_head_complete(p.head, n);
    lemma_kinematics_complete(p.kinematics, n);
    lemma_quality_complete(p.quality, n);
    let both = zipped(head, kinematics);
    lemma_zipped_complete(head, kinematics, n);
    let rows = zipped(both, quality);
    lemma_zipped_complete(both, quality, n);
    let events = events_from(rows).0;
    assert(events.len() == n);
    assert forall|i: int| 0 <= i < n implies events[i] == event_at(values_of(p), i) by {
        assert(rows.0[i] == (both.0[i], quality.0[i]));
        assert(both.0[i] == (head.0[i], kinematics.0[i]));
        assert(events[i] == event_of(rows.0[i]));
    }
    assert(events =~= Seq::new(n, |i: int| event_at(values_of(p), i)));
}

/// Where the columns of the first group decode as a whole, their cursors
/// have exactly these columns to hand out.
pub proof fn lemma_head_stream(t: TreeView)
    ensures
        head_of(t) matches Ok(h) ==> head_pending_of(t) matches Ok(p) && head_complete(
            p,
            t.entries as nat,
        ) && head_values(p) == h,
{
    lemma_fixed_cursor(BeI32, t, "AliESDRun.fRunNumber".spec_bytes());
    lemma_fixed_cursor(NameList, t, "AliESDRun.fTriggerClasses".spec_bytes());
    lemma_fixed_cursor(BeU64, t, "AliESDHeader.fTriggerMask".spec_bytes());
    lemma_fixed_cursor(Position, t, "PrimaryVertex.AliVertex.fPosition[3]".spec_bytes());
    lemma_fixed_cursor(BeI32, t, "PrimaryVertex.AliVertex.fNContributors".spec_bytes());
}

/// Where the columns of the second group decode as a whole, their cursors
/// have exactly these columns to hand out.
pub proof fn lemma_kinematics_stream(t: TreeView, counts: Seq<u32>)
    ensures
        kinematics_of(t, counts) matches Ok(k) ==> kinematics_pending_of(t, counts) matches Ok(p)
            && kinematics_complete(p, t.entries as nat) && kinematics_values(p) == k,
{
    lemma_row_cursor(BeF32, t, "Tracks.fX".spec_bytes(), counts);
    lemma_row_cursor(Parameters, t, "Tracks.fP[5]".spec_bytes(), counts);
    lemma_row_cursor(BeF32, t, "Tracks.fAlpha".spec_bytes(), counts);
    lemma_row_cursor(StatusFlags, t, "Tracks.fFlags".spec_bytes(), counts);
}

/// Where the columns of the third group decode as a whole, their cursors
/// have exactly these columns to hand out.
pub proof fn lemma_quality_stream(t: TreeView, counts: Seq<u32>)
    ensures
        quality_of(t, counts) matches Ok(q) ==> quality_pending_of(t, counts) matches Ok(p)
            && quality_complete(p, t.entries as nat) && quality_values(p) == q,
{
    let chi2 = CustomMantissa::of_width(8);
    lemma_row_cursor(chi2, t, "Tracks.fITSchi2".spec_bytes(), counts);
    lemma_row_cursor(BeI8, t, "Tracks.fITSncls".spec_bytes(), counts);
    lemma_row_cursor(ClusterMap, t, "Tracks.fITSClusterMap".spec_bytes(), counts);
    lemma_row_cursor(BeU16, t, "Tracks.fTPCncls".spec_bytes(), counts);
    lemma_row_cursor(chi2, t, "Tracks.fTPCchi2".spec_bytes(), counts);
}

/// Law of the stream: where the events of a tree decode as a whole, a stream
/// over the tree hands out exactly these events, in their order, and ends
/// without an error.
pub proof fn law_stream_yields_the_events(t: TreeView)
    ensures
        events_of(t) matches Ok(events) ==> stream_of(t) matches Ok(p) && pending_events(p) == (
            events,
            None::<Error>,
        ),
{
    if let Ok(events) = events_of(t) {
        let counts = fixed_branch(BeU32, t, "Tracks".spec_bytes())->Ok_0;
        lemma_head_stream(t);
        lemma_kinematics_stream(t, counts);
        lemma_quality_stream(t, counts);
        let p = stream_of(t)->Ok_0;
        lemma_stream_complete(p, t.entries as nat);
        assert(values_of(p) == columns_of(t)->Ok_0);
    }
}

/// A branch that decodes as a whole with one value per row gives its cursor
/// exactly its values to hand out, as many as the tree has rows.
pub proof fn lemma_fixed_cursor<D: Decoder>(d: D, t: TreeView, name: Seq<u8>)
    ensures
        fixed_branch(d, t, name) matches Ok(v) ==> fixed_cursor_of(d, t, name) == Ok::<_, Error>(
            (v, None::<Error>),
        ) && v.len() == t.entries,
{
    if let Some(i) = find_branch(t.branches, name, 0) {
        if let Ok(p) = payloads_from(t.branches[i].baskets, t.source, 0) {
            law_cursor_reads_the_column(d, p, t.entries);
        }
    }
}

/// A branch that decodes as a whole as arrays gives its cursor exactly its
/// rows to hand out, as many as the tree has rows.
pub proof fn lemma_row_cursor<D: Decoder>(d: D, t: TreeView, name: Seq<u8>, counts: Seq<u32>)
    ensures
        variable_branch(d, t, name, counts) matches Ok(rows) ==> row_cursor_of(d, t, name, counts)
            == Ok::<_, Error>((rows, None::<Error>)) && rows.len() == t.entries,
{
    if let Some(i) = find_branch(t.branches, name, 0) {
        if let Ok(p) = payloads_from(t.branches[i].baskets, t.source, 0) {
            law_cursor_reads_the_rows(d, p, t.entries, counts);
            law_variable_column_shape(d, p, t.entries, counts);
        }
    }
}

} // verus!
