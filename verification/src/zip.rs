//! Cursors advanced together.

use vstd::prelude::*;
use crate::codec::Decoder;
use crate::cursor::{stepped, FixedCursor, RowCursor};
use crate::error::Error;

verus! {

/// Something that hands out values one by one, in one direction.
pub trait Cursor {
    /// The value handed out.
    type Item: DeepView;

    /// What is still to be handed out: the values, and the error that ends
    /// them, if one does.
    spec fn pending(&self) -> (Seq<<Self::Item as DeepView>::V>, Option<Error>);

    /// Hands out the next value; `None` at the end.
    fn advance(&mut self) -> (r: Result<Option<Self::Item>, Error>)
        ensures
            stepped(old(self).pending(), final(self).pending(), r),
    ;
}

impl<D: Decoder> Cursor for FixedCursor<D> {
    type Item = D::Item;

    open spec fn pending(&self) -> (Seq<<D::Item as DeepView>::V>, Option<Error>) {
        self.remaining()
    }

    fn advance(&mut self) -> (r: Result<Option<D::Item>, Error>) {
        self.next()
    }
}

impl<D: Decoder> Cursor for RowCursor<D> {
    type Item = Vec<D::Item>;

    open spec fn pending(&self) -> (Seq<Seq<<D::Item as DeepView>::V>>, Option<Error>) {
        self.remaining()
    }

    fn advance(&mut self) -> (r: Result<Option<Vec<D::Item>>, Error>) {
        self.next()
    }
}

/// The shorter of two lengths.
pub open spec fn least(a: nat, b: nat) -> nat {
    if a <= b {
        a
    } else {
        b
    }
}

/// What two cursors that are advanced together have to hand out: a pair for
/// each place at which both have a value, and behind the pairs the error of
/// the first of the two that fails there, if one does.
pub open spec fn zipped<X, Y>(a: (Seq<X>, Option<Error>), b: (Seq<Y>, Option<Error>)) -> (
    Seq<(X, Y)>,
    Option<Error>,
) {
    let k = least(a.0.len(), b.0.len());
    (
        Seq::new(k, |i: int| (a.0[i], b.0[i])),
        if a.0.len() == k && a.1 is Some {
            a.1
        } else if b.0.len() == k && b.1 is Some {
            b.1
        } else {
            None
        },
    )
}

/// Two cursors advanced together.
pub struct Zip<A: Cursor, B: Cursor> {
    first: A,
    second: B,
    ended: bool,
    failed: Option<Error>,
}

impl<A: Cursor, B: Cursor> Zip<A, B> {
    /// The two cursors at their places, to be advanced together from now
    /// on.
    pub fn new(first: A, second: B) -> (r: Zip<A, B>)
        ensures
            r.pending() == zipped(first.pending(), second.pending()),
    {
        Zip { first, second, ended: false, failed: None }
    }
}

impl<A: Cursor, B: Cursor> Cursor for Zip<A, B> {
    type Item = (A::Item, B::Item);

    closed spec fn pending(&self) -> (
        Seq<(<A::Item as DeepView>::V, <B::Item as DeepView>::V)>,
        Option<Error>,
    ) {
        if self.failed is Some {
            (Seq::empty(), self.failed)
        } else if self.ended {
            (Seq::empty(), None)
        } else {
            zipped(self.first.pending(), self.second.pending())
        }
    }

    fn advance(&mut self) -> (r: Result<Option<(A::Item, B::Item)>, Error>) {
        match self.failed {
            Some(e) => {
                return Err(e);
            },
            None => {},
        }
        if self.ended {
            return Ok(None);
        }
        let ghost a = self.first.pending();
        let ghost b = self.second.pending();
        proof {
            assert(Seq::new(0, |i: int| (a.0[i], b.0[i])) =~= Seq::empty());
        }
        let x = match self.first.advance() {
            Ok(x) => x,
            Err(e) => {
                self.failed = Some(e);
                return Err(e);
            },
        };
        let y = match self.second.advance() {
            Ok(y) => y,
            Err(e) => {
                self.failed = Some(e);
                return Err(e);
            },
        };
        match (x, y) {
            (Some(x), Some(y)) => {
                proof {
                    assert(zipped(a, b).0.skip(1) =~= zipped(
                        (a.0.skip(1), a.1),
                        (b.0.skip(1), b.1),
                    ).0);
                }
                Ok(Some((x, y)))
            },
            _ => {
                self.ended = true;
                Ok(None)
            },
        }
    }
}

} // verus!
