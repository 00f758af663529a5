//! Columns read value by value.
//!
//! A cursor stands at a place in the bytes of a column and hands out the next
//! value when it is asked to. Nothing is decoded before it is asked for, and
//! what was handed out stays valid when a later value cannot be decoded. A
//! cursor only moves forward; to read a column again, a new cursor is made
//! from its baskets.

use vstd::prelude::*;
use crate::codec::{all_parsed, decode_row, row_parsed, rows_parsed, Decoder};
use crate::error::Error;
use crate::tree::{concatenated, fixed_column, payloads_from, values_from, variable_column,
    Basket, BranchReader};

verus! {

/// `first` before what is still to come.
pub open spec fn after<A>(first: A, rest: (Seq<A>, Option<Error>)) -> (Seq<A>, Option<Error>) {
    (seq![first] + rest.0, rest.1)
}

/// What a cursor over a column with one value per row still has to hand
/// out, standing at position `at` of payload `basket` with `left` rows to go:
/// the values that decode one after the other, and the error that ends them,
/// if one does. It is an error where a byte belongs to no value, where values
/// are left when the rows are used up, and where rows are left when the
/// payloads are used up.
pub open spec fn pending<D: Decoder>(
    d: D,
    payloads: Seq<Seq<u8>>,
    basket: int,
    at: int,
    left: nat,
) -> (Seq<<D::Item as DeepView>::V>, Option<Error>)
    decreases payloads.len() - basket, payloads[basket].len() - at,
{
    if basket < 0 || at < 0 {
        (Seq::empty(), Some(Error::Format))
    } else if basket >= payloads.len() {
        if left == 0 {
            (Seq::empty(), None)
        } else {
            (Seq::empty(), Some(Error::Format))
        }
    } else if at >= payloads[basket].len() {
        pending(d, payloads, basket + 1, 0, left)
    } else if left == 0 {
        (Seq::empty(), Some(Error::Format))
    } else {
        match d.parsed(payloads[basket], at) {
            Some((v, next)) => if at < next <= payloads[basket].len() {
                after(v, pending(d, payloads, basket, next, (left - 1) as nat))
            } else {
                (Seq::empty(), Some(Error::Format))
            },
            None => (Seq::empty(), Some(Error::Format)),
        }
    }
}

/// What a cursor over a column of arrays still has to hand out, standing at
/// position `at` of the bytes before row `row`: the rows that decode one
/// after the other, and the error that ends them, if one does. It is an
/// error where the bytes end within a row and where bytes are left behind the
/// last row.
pub open spec fn pending_rows<D: Decoder>(
    d: D,
    stream: Seq<u8>,
    at: int,
    counts: Seq<u32>,
    row: int,
) -> (Seq<Seq<<D::Item as DeepView>::V>>, Option<Error>)
    decreases counts.len() - row,
{
    if row < 0 || row >= counts.len() {
        if at == stream.len() {
            (Seq::empty(), None)
        } else {
            (Seq::empty(), Some(Error::Format))
        }
    } else {
        match row_parsed(d, stream, at, counts[row] as nat) {
            Some((values, next)) => after(values, pending_rows(d, stream, next, counts, row + 1)),
            None => (Seq::empty(), Some(Error::Format)),
        }
    }
}

/// Whether a cursor that had `before` to hand out, and has `now`, was right
/// to answer `r`: the first value, where there was one, and then the rest is
/// still to come; else the error that ends the column, or nothing at its
/// end, and the cursor stays where it is.
pub open spec fn stepped<T: DeepView>(
    before: (Seq<T::V>, Option<Error>),
    now: (Seq<T::V>, Option<Error>),
    r: Result<Option<T>, Error>,
) -> bool {
    if before.0.len() > 0 {
        &&& r matches Ok(Some(v))
        &&& v.deep_view() == before.0[0]
        &&& now == (before.0.skip(1), before.1)
    } else {
        &&& now == before
        &&& match before.1 {
            Some(e) => r matches Err(x) && x == e,
            None => r matches Ok(None),
        }
    }
}

/// The values that stand in the payloads from position `at` of payload
/// `basket` on, each payload decoded to its end.
pub open spec fn values_after<D: Decoder>(d: D, payloads: Seq<Seq<u8>>, basket: int, at: int) -> Option<
    Seq<<D::Item as DeepView>::V>,
> {
    if basket < 0 || basket >= payloads.len() {
        Some(Seq::empty())
    } else {
        match all_parsed(d, payloads[basket], at) {
            Some(v) => match values_from(d, payloads, basket + 1) {
                Some(rest) => Some(v + rest),
                None => None,
            },
            None => None,
        }
    }
}

/// A cursor hands out, without an error at the end, exactly the values that
/// stand in the payloads, where those are as many as the rows to go.
pub proof fn lemma_pending_is_values<D: Decoder>(
    d: D,
    payloads: Seq<Seq<u8>>,
    basket: int,
    at: int,
    left: nat,
)
    requires
        0 <= basket,
        0 <= at,
    ensures
        pending(d, payloads, basket, at, left).1 is None <==> (values_after(
            d,
            payloads,
            basket,
            at,
        ) matches Some(v) && v.len() == left),
        pending(d, payloads, basket, at, left).1 is None ==> values_after(d, payloads, basket, at)
            == Some(pending(d, payloads, basket, at, left).0),
    decreases payloads.len() - basket, payloads[basket].len() - at,
{
    if basket >= payloads.len() {
    } else if at >= payloads[basket].len() {
        lemma_pending_is_values(d, payloads, basket + 1, 0, left);
        assert(all_parsed(d, payloads[basket], at) == Some(Seq::<<D::Item as DeepView>::V>::empty()));
        if basket + 1 < payloads.len() {
            match values_after(d, payloads, basket + 1, 0) {
                Some(v) => {
                    assert(Seq::<<D::Item as DeepView>::V>::empty() + v =~= v);
                },
                None => {},
            }
        } else {
            assert(Seq::<<D::Item as DeepView>::V>::empty() + Seq::<
                <D::Item as DeepView>::V,
            >::empty() =~= Seq::<<D::Item as DeepView>::V>::empty());
        }
    } else {
        d.parsed_advances(payloads[basket], at);
        match d.parsed(payloads[basket], at) {
            Some((v, next)) => {
                if left > 0 {
                    lemma_pending_is_values(d, payloads, basket, next, (left - 1) as nat);
                }
                match all_parsed(d, payloads[basket], next) {
                    Some(tail) => match values_from(d, payloads, basket + 1) {
                        Some(rest) => {
                            assert((seq![v] + tail) + rest =~= seq![v] + (tail + rest));
                        },
                        None => {},
                    },
                    None => {},
                }
            },
            None => {},
        }
    }
}

/// Law of the cursor over a column with one value per row: the column
/// decodes as a whole exactly where the cursor hands out values to the end
/// without an error, and then the values are the same.
pub proof fn law_cursor_reads_the_column<D: Decoder>(d: D, payloads: Seq<Seq<u8>>, entries: u64)
    ensures
        fixed_column(d, payloads, entries) is Ok <==> pending(d, payloads, 0, 0, entries as nat).1
            is None,
        fixed_column(d, payloads, entries) matches Ok(v) ==> pending(
            d,
            payloads,
            0,
            0,
            entries as nat,
        ) == (v, None::<Error>),
{
    lemma_pending_is_values(d, payloads, 0, 0, entries as nat);
    if payloads.len() > 0 {
        assert(values_from(d, payloads, 0) == values_after(d, payloads, 0, 0));
    } else {
        assert(values_from(d, payloads, 0) == values_after(d, payloads, 0, 0));
    }
}

/// A cursor over rows hands out, without an error at the end, exactly the
/// rows that stand in the bytes.
pub proof fn lemma_pending_is_rows<D: Decoder>(
    d: D,
    stream: Seq<u8>,
    at: int,
    counts: Seq<u32>,
    row: int,
)
    requires
        0 <= row,
    ensures
        pending_rows(d, stream, at, counts, row).1 is None <==> rows_parsed(
            d,
            stream,
            at,
            counts,
            row,
        ) is Some,
        pending_rows(d, stream, at, counts, row).1 is None ==> rows_parsed(d, stream, at, counts, row)
            == Some(pending_rows(d, stream, at, counts, row).0),
    decreases counts.len() - row,
{
    if row < counts.len() {
        match row_parsed(d, stream, at, counts[row] as nat) {
            Some((values, next)) => {
                lemma_pending_is_rows(d, stream, next, counts, row + 1);
            },
            None => {},
        }
    }
}

/// Law of the cursor over a column of arrays: the column decodes as a whole
/// exactly where the counters are as many as the rows and the cursor hands
/// out rows to the end without an error, and then the rows are the same.
pub proof fn law_cursor_reads_the_rows<D: Decoder>(
    d: D,
    payloads: Seq<Seq<u8>>,
    entries: u64,
    counts: Seq<u32>,
)
    ensures
        variable_column(d, payloads, entries, counts) is Ok <==> (counts.len() == entries
            && pending_rows(d, payloads.flatten(), 0, counts, 0).1 is None),
        variable_column(d, payloads, entries, counts) matches Ok(rows) ==> pending_rows(
            d,
            payloads.flatten(),
            0,
            counts,
            0,
        ) == (rows, None::<Error>),
{
    lemma_pending_is_rows(d, payloads.flatten(), 0, counts, 0);
}

/// A cursor over a column with one value per row.
pub struct FixedCursor<D: Decoder> {
    decoder: D,
    payloads: Vec<Vec<u8>>,
    basket: usize,
    at: usize,
    left: u64,
}

/// A cursor over a column of arrays.
pub struct RowCursor<D: Decoder> {
    decoder: D,
    stream: Vec<u8>,
    at: usize,
    counts: Vec<u32>,
    row: usize,
}

impl<D: Decoder> FixedCursor<D> {
    /// What the cursor still has to hand out: the values, and the error that
    /// ends them, if one does.
    pub closed spec fn remaining(&self) -> (Seq<<D::Item as DeepView>::V>, Option<Error>) {
        pending(
            self.decoder,
            self.payloads.deep_view(),
            self.basket as int,
            self.at as int,
            self.left as nat,
        )
    }

    /// A cursor at the start of a column that is stored in `payloads` and
    /// has `entries` rows.
    pub fn new(decoder: D, payloads: Vec<Vec<u8>>, entries: u64) -> (r: FixedCursor<D>)
        ensures
            r.remaining() == pending(decoder, payloads.deep_view(), 0, 0, entries as nat),
    {
        FixedCursor { decoder, payloads, basket: 0, at: 0, left: entries }
    }

    /// Hands out the next value of the column; `None` at its end.
    ///
    /// Fails with a format error where the next bytes are no value, where a
    /// value is left behind the last row, and where the payloads end before
    /// the last row. A cursor that has failed fails again.
    pub fn next(&mut self) -> (r: Result<Option<D::Item>, Error>)
        ensures
            stepped(old(self).remaining(), final(self).remaining(), r),
    {
        let ghost start = self.remaining();
        while self.basket < self.payloads.len() && self.at >= self.payloads[self.basket].len()
            invariant
                self.remaining() == start,
                self.payloads.deep_view().len() == self.payloads@.len(),
            decreases self.payloads@.len() - self.basket,
        {
            proof {
                assert(self.payloads.deep_view()[self.basket as int] =~= self.payloads@[self.basket as int]@);
            }
            self.at = 0;
            self.basket = self.basket + 1;
        }
        if self.basket >= self.payloads.len() {
            if self.left == 0 {
                return Ok(None);
            } else {
                return Err(Error::Format);
            }
        }
        proof {
            assert(self.payloads.deep_view()[self.basket as int] =~= self.payloads@[self.basket as int]@);
            self.decoder.parsed_advances(self.payloads@[self.basket as int]@, self.at as int);
        }
        if self.left == 0 {
            return Err(Error::Format);
        }
        match self.decoder.parse(self.payloads[self.basket].as_slice(), self.at) {
            Ok((v, next)) => {
                let ghost rest = pending(
                    self.decoder,
                    self.payloads.deep_view(),
                    self.basket as int,
                    next as int,
                    (self.left - 1) as nat,
                );
                proof {
                    assert((seq![v.deep_view()] + rest.0).skip(1) =~= rest.0);
                }
                self.at = next;
                self.left = self.left - 1;
                Ok(Some(v))
            },
            Err(_) => Err(Error::Format),
        }
    }
}

impl<D: Decoder> RowCursor<D> {
    /// What the cursor still has to hand out: the rows, and the error that
    /// ends them, if one does.
    pub closed spec fn remaining(&self) -> (Seq<Seq<<D::Item as DeepView>::V>>, Option<Error>) {
        pending_rows(self.decoder, self.stream@, self.at as int, self.counts@, self.row as int)
    }

    /// A cursor at the start of a column of arrays that is stored in
    /// `stream`, row `i` holding `counts[i]` values.
    pub fn new(decoder: D, stream: Vec<u8>, counts: Vec<u32>) -> (r: RowCursor<D>)
        ensures
            r.remaining() == pending_rows(decoder, stream@, 0, counts@, 0),
    {
        RowCursor { decoder, stream, at: 0, counts, row: 0 }
    }

    /// Hands out the next row of the column; `None` at its end.
    ///
    /// Fails with a format error where the bytes end within the row, and
    /// where bytes are left behind the last row. A cursor that has failed
    /// fails again.
    pub fn next(&mut self) -> (r: Result<Option<Vec<D::Item>>, Error>)
        ensures
            stepped(old(self).remaining(), final(self).remaining(), r),
    {
        if self.row >= self.counts.len() {
            if self.at == self.stream.len() {
                return Ok(None);
            } else {
                return Err(Error::Format);
            }
        }
        match decode_row(&self.decoder, self.stream.as_slice(), self.at, self.counts[self.row]) {
            Ok((values, next)) => {
                let ghost rest = pending_rows(
                    self.decoder,
                    self.stream@,
                    next as int,
                    self.counts@,
                    self.row + 1,
                );
                proof {
                    assert((seq![values.deep_view()] + rest.0).skip(1) =~= rest.0);
                }
                self.at = next;
                self.row = self.row + 1;
                Ok(Some(values))
            },
            Err(_) => Err(Error::Format),
        }
    }
}

/// What a cursor over the branch has to hand out when the branch is read
/// with one value per row; the error of the first basket that cannot be read
/// where there is one.
pub open spec fn fixed_pending<D: Decoder>(
    d: D,
    baskets: Seq<Basket>,
    source: Seq<u8>,
    entries: u64,
) -> Result<(Seq<<D::Item as DeepView>::V>, Option<Error>), Error> {
    match payloads_from(baskets, source, 0) {
        Ok(p) => Ok(pending(d, p, 0, 0, entries as nat)),
        Err(e) => Err(e),
    }
}

/// What a cursor over the branch has to hand out when the branch is read as
/// arrays whose lengths are `counts`; the error of the first basket that
/// cannot be read where there is one, and a format error where the counters
/// are not as many as the rows.
pub open spec fn rows_pending<D: Decoder>(
    d: D,
    baskets: Seq<Basket>,
    source: Seq<u8>,
    entries: u64,
    counts: Seq<u32>,
) -> Result<(Seq<Seq<<D::Item as DeepView>::V>>, Option<Error>), Error> {
    match payloads_from(baskets, source, 0) {
        Ok(p) => if counts.len() == entries {
            Ok(pending_rows(d, p.flatten(), 0, counts, 0))
        } else {
            Err(Error::Format)
        },
        Err(e) => Err(e),
    }
}

impl<'t> BranchReader<'t> {
    /// A cursor at the start of the branch, which is read with one value per
    /// row. The baskets are read now, their values when the cursor is asked
    /// for them.
    ///
    /// Fails as [`BranchReader::payloads`] does.
    pub fn fixed_cursor<D: Decoder>(&self, d: D) -> (r: Result<FixedCursor<D>, Error>)
        ensures
            match r {
                Ok(c) => fixed_pending(d, self.branch@.baskets, self.source@, self.entries)
                    == Ok::<_, Error>(c.remaining()),
                Err(e) => fixed_pending(d, self.branch@.baskets, self.source@, self.entries)
                    == Err::<(Seq<<D::Item as DeepView>::V>, Option<Error>), Error>(e),
            },
    {
        let payloads = self.payloads()?;
        Ok(FixedCursor::new(d, payloads, self.entries))
    }

    /// A cursor at the start of the branch, which is read as arrays, row `i`
    /// taking `counts[i]` values. The baskets are read now, their rows when
    /// the cursor is asked for them.
    ///
    /// Fails as [`BranchReader::payloads`] does, and with a format error
    /// where the counters are not as many as the rows of the tree.
    pub fn row_cursor<D: Decoder>(&self, d: D, counts: Vec<u32>) -> (r: Result<RowCursor<D>, Error>)
        ensures
            match r {
                Ok(c) => rows_pending(d, self.branch@.baskets, self.source@, self.entries, counts@)
                    == Ok::<_, Error>(c.remaining()),
                Err(e) => rows_pending(d, self.branch@.baskets, self.source@, self.entries, counts@)
                    == Err::<(Seq<Seq<<D::Item as DeepView>::V>>, Option<Error>), Error>(e),
            },
    {
        let payloads = self.payloads()?;
        if counts.len() as u64 != self.entries {
            return Err(Error::Format);
        }
        let stream = concatenated(&payloads);
        Ok(RowCursor::new(d, stream, counts))
    }
}

} // verus!
