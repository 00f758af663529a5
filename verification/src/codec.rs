//! Element decoders, and the decoding of a column of values from bytes.
//!
//! A [`Decoder`] reads one value at a position. [`decode_all`] reads values
//! until the bytes are used up, which is how a column with one value per row
//! is stored; [`decode_rows`] reads for each row as many values as a counter
//! column says, which is how a column of arrays is stored.

use vstd::prelude::*;
use vstd::seq_lib::lemma_flatten_concat;
use crate::error::Error;
use crate::number::{
    be_i32, be_i32_at, be_i8, be_i8_at, be_u16, be_u16_at, be_u32, be_u32_at, be_u64, be_u64_at,
    be_u8, be_u8_at,
};

verus! {

/// Whether the outcome `r` of a decoder agrees with the specified outcome `s`.
pub open spec fn decodes<T: DeepView>(r: Result<(T, usize), Error>, s: Option<(T::V, int)>) -> bool {
    match r {
        Ok((v, next)) => s == Some((v.deep_view(), next as int)),
        Err(e) => e == Error::Format && s is None,
    }
}

/// A parser of one value of a column.
pub trait Decoder {
    /// The decoded value.
    type Item: DeepView;

    /// The value that stands in `bytes` at `at`, with the position behind it;
    /// `None` where the bytes hold no such value.
    spec fn parsed(&self, bytes: Seq<u8>, at: int) -> Option<(<Self::Item as DeepView>::V, int)>;

    /// A value takes at least one byte, and lies within the bytes.
    proof fn parsed_advances(&self, bytes: Seq<u8>, at: int)
        ensures
            self.parsed(bytes, at) matches Some((_, next)) ==> 0 <= at < next <= bytes.len(),
    ;

    /// Reads the value at `at`.
    fn parse(&self, input: &[u8], at: usize) -> (r: Result<(Self::Item, usize), Error>)
        ensures
            decodes(r, self.parsed(input@, at as int)),
    ;
}

/// `acc` followed by `rest`, where there is a rest.
pub open spec fn prepend<A>(acc: Seq<A>, rest: Option<Seq<A>>) -> Option<Seq<A>> {
    match rest {
        Some(r) => Some(acc + r),
        None => None,
    }
}

/// The values that stand in `bytes` from `at` to the end, one behind the
/// other; `None` where some byte belongs to no value.
pub open spec fn all_parsed<D: Decoder>(d: D, bytes: Seq<u8>, at: int) -> Option<
    Seq<<D::Item as DeepView>::V>,
>
    decreases bytes.len() - at,
{
    if at >= bytes.len() {
        Some(Seq::empty())
    } else {
        match d.parsed(bytes, at) {
            Some((v, next)) => if at < next <= bytes.len() {
                prepend(seq![v], all_parsed(d, bytes, next))
            } else {
                None
            },
            None => None,
        }
    }
}

/// The `n` values that stand in `bytes` from `at` on, with the position behind
/// the last of them.
pub open spec fn row_parsed<D: Decoder>(d: D, bytes: Seq<u8>, at: int, n: nat) -> Option<
    (Seq<<D::Item as DeepView>::V>, int),
>
    decreases n,
{
    if n == 0 {
        Some((Seq::empty(), at))
    } else {
        match d.parsed(bytes, at) {
            Some((v, next)) => match row_parsed(d, bytes, next, (n - 1) as nat) {
                Some((rest, end)) => Some((seq![v] + rest, end)),
                None => None,
            },
            None => None,
        }
    }
}

/// The rows that stand in `bytes` from `at` on, row `i` holding `counts[i]`
/// values, for the rows from `from` on; `None` where the bytes end within a
/// row or go on behind the last row.
pub open spec fn rows_parsed<D: Decoder>(
    d: D,
    bytes: Seq<u8>,
    at: int,
    counts: Seq<u32>,
    from: int,
) -> Option<Seq<Seq<<D::Item as DeepView>::V>>>
    decreases counts.len() - from,
{
    if from >= counts.len() {
        if at == bytes.len() {
            Some(Seq::empty())
        } else {
            None
        }
    } else {
        match row_parsed(d, bytes, at, counts[from] as nat) {
            Some((row, next)) => prepend(seq![row], rows_parsed(d, bytes, next, counts, from + 1)),
            None => None,
        }
    }
}

/// The sum of the counters from `from` on.
pub open spec fn counter_sum(counts: Seq<u32>, from: int) -> nat
    decreases counts.len() - from,
{
    if from >= counts.len() || from < 0 {
        0
    } else {
        counts[from] as nat + counter_sum(counts, from + 1)
    }
}

/// A row of `n` values has length `n` and ends within the bytes.
pub proof fn lemma_row_shape<D: Decoder>(d: D, bytes: Seq<u8>, at: int, n: nat)
    requires
        0 <= at <= bytes.len(),
    ensures
        row_parsed(d, bytes, at, n) matches Some((row, end)) ==> row.len() == n && at <= end
            <= bytes.len(),
    decreases n,
{
    if n > 0 {
        d.parsed_advances(bytes, at);
        if let Some((v, next)) = d.parsed(bytes, at) {
            lemma_row_shape(d, bytes, next, (n - 1) as nat);
        }
    }
}

/// Rows read by a counter column are as many as the counters from `from` on,
/// each as long as its counter says, and hold as many values in all as the
/// counters add up to.
pub proof fn lemma_rows_shape<D: Decoder>(d: D, bytes: Seq<u8>, at: int, counts: Seq<u32>, from: int)
    requires
        0 <= at <= bytes.len(),
        0 <= from <= counts.len(),
    ensures
        rows_parsed(d, bytes, at, counts, from) matches Some(rows) ==> {
            &&& rows.len() == counts.len() - from
            &&& forall|i: int| 0 <= i < rows.len() ==> (#[trigger] rows[i]).len() == counts[from + i]
            &&& rows.flatten().len() == counter_sum(counts, from)
        },
    decreases counts.len() - from,
{
    if from < counts.len() {
        lemma_row_shape(d, bytes, at, counts[from] as nat);
        if let Some((row, next)) = row_parsed(d, bytes, at, counts[from] as nat) {
            lemma_rows_shape(d, bytes, next, counts, from + 1);
            if let Some(rest) = rows_parsed(d, bytes, next, counts, from + 1) {
                let rows = seq![row] + rest;
                assert forall|i: int| 0 <= i < rows.len() implies (#[trigger] rows[i]).len()
                    == counts[from + i] by {
                    if i > 0 {
                        assert(rows[i] == rest[i - 1]);
                    }
                }
                lemma_flatten_concat(seq![row], rest);
                seq![row].lemma_flatten_one_element();
            }
        }
    } else {
        assert(Seq::<Seq<<D::Item as DeepView>::V>>::empty().flatten() =~= Seq::empty());
    }
}

/// Law of a column of arrays: whatever the bytes, rows that decode under a
/// counter column are as many as the counters, row `i` has `counts[i]`
/// values, and the counters add up to the number of decoded values.
pub proof fn law_rows_follow_counter<D: Decoder>(d: D, bytes: Seq<u8>, counts: Seq<u32>)
    ensures
        rows_parsed(d, bytes, 0, counts, 0) matches Some(rows) ==> {
            &&& rows.len() == counts.len()
            &&& forall|i: int| 0 <= i < rows.len() ==> (#[trigger] rows[i]).len() == counts[i]
            &&& rows.flatten().len() == counter_sum(counts, 0)
        },
{
    lemma_rows_shape(d, bytes, 0, counts, 0);
}

/// Decodes the values that fill `input` from its start to its end.
///
/// Fails with a format error exactly where some byte belongs to no value.
pub fn decode_all<D: Decoder>(d: &D, input: &[u8]) -> (r: Result<Vec<D::Item>, Error>)
    ensures
        match r {
            Ok(v) => all_parsed(*d, input@, 0) == Some(v.deep_view()),
            Err(e) => e == Error::Format && all_parsed(*d, input@, 0) is None,
        },
{
    let mut out: Vec<D::Item> = Vec::new();
    let mut pos: usize = 0;
    proof {
        assert(out.deep_view() =~= Seq::empty());
        let whole = all_parsed(*d, input@, 0);
        if let Some(s) = whole {
            assert(out.deep_view() + s =~= s);
        }
    }
    while pos < input.len()
        invariant
            pos <= input@.len(),
            all_parsed(*d, input@, 0) == prepend(out.deep_view(), all_parsed(*d, input@, pos as int)),
        decreases input@.len() - pos,
    {
        proof {
            d.parsed_advances(input@, pos as int);
        }
        match d.parse(input, pos) {
            Ok((v, next)) => {
                let ghost before = out.deep_view();
                let ghost item = v.deep_view();
                out.push(v);
                proof {
                    assert(out.deep_view() =~= before.push(item));
                    if let Some(rest) = all_parsed(*d, input@, next as int) {
                        assert(before + (seq![item] + rest) =~= before.push(item) + rest);
                    }
                }
                pos = next;
            },
            Err(_) => {
                return Err(Error::Format);
            },
        }
    }
    proof {
        assert(out.deep_view() + Seq::empty() =~= out.deep_view());
    }
    Ok(out)
}

/// Decodes `n` values from `at` on.
///
/// Fails with a format error exactly where the bytes hold fewer than `n`
/// values there.
pub fn decode_row<D: Decoder>(d: &D, input: &[u8], at: usize, n: u32) -> (r: Result<
    (Vec<D::Item>, usize),
    Error,
>)
    ensures
        match r {
            Ok((row, end)) => row_parsed(*d, input@, at as int, n as nat) == Some(
                (row.deep_view(), end as int),
            ) && row@.len() == n && at <= end && (at <= input@.len() ==> end <= input@.len()),
            Err(e) => e == Error::Format && row_parsed(*d, input@, at as int, n as nat) is None,
        },
{
    let mut out: Vec<D::Item> = Vec::new();
    let mut pos: usize = at;
    let mut k: u32 = 0;
    proof {
        assert(out.deep_view() =~= Seq::empty());
        if let Some((s, end)) = row_parsed(*d, input@, at as int, n as nat) {
            assert(out.deep_view() + s =~= s);
        }
    }
    while k < n
        invariant
            k <= n,
            at <= pos,
            at <= input@.len() ==> pos <= input@.len(),
            out@.len() == k,
            row_parsed(*d, input@, at as int, n as nat) == match row_parsed(
                *d,
                input@,
                pos as int,
                (n - k) as nat,
            ) {
                Some((rest, end)) => Some((out.deep_view() + rest, end)),
                None => None,
            },
        decreases n - k,
    {
        proof {
            d.parsed_advances(input@, pos as int);
        }
        match d.parse(input, pos) {
            Ok((v, next)) => {
                let ghost before = out.deep_view();
                let ghost item = v.deep_view();
                out.push(v);
                proof {
                    assert(out.deep_view() =~= before.push(item));
                    if let Some((rest, end)) = row_parsed(
                        *d,
                        input@,
                        next as int,
                        (n - k - 1) as nat,
                    ) {
                        assert(before + (seq![item] + rest) =~= before.push(item) + rest);
                    }
                }
                pos = next;
                k = k + 1;
            },
            Err(_) => {
                return Err(Error::Format);
            },
        }
    }
    proof {
        assert(out.deep_view() + Seq::empty() =~= out.deep_view());
    }
    Ok((out, pos))
}

/// Decodes a column of arrays: for each row `i`, `counts[i]` values, the rows
/// one behind the other from the start of `input` to its end.
///
/// Fails with a format error exactly where the bytes end before a row is
/// complete or go on behind the last row. On success there are as many rows
/// as counters, each row is as long as its counter says, and the counters add
/// up to the number of values decoded.
pub fn decode_rows<D: Decoder>(d: &D, input: &[u8], counts: &[u32]) -> (r: Result<
    Vec<Vec<D::Item>>,
    Error,
>)
    ensures
        match r {
            Ok(rows) => {
                &&& rows_parsed(*d, input@, 0, counts@, 0) == Some(rows.deep_view())
                &&& rows@.len() == counts@.len()
                &&& forall|i: int| 0 <= i < rows@.len() ==> (#[trigger] rows@[i])@.len() == counts@[i]
                &&& rows.deep_view().flatten().len() == counter_sum(counts@, 0)
            },
            Err(e) => e == Error::Format && rows_parsed(*d, input@, 0, counts@, 0) is None,
        },
{
    let mut out: Vec<Vec<D::Item>> = Vec::new();
    let mut pos: usize = 0;
    let mut i: usize = 0;
    proof {
        assert(out.deep_view() =~= Seq::empty());
        if let Some(s) = rows_parsed(*d, input@, 0, counts@, 0) {
            assert(out.deep_view() + s =~= s);
        }
    }
    while i < counts.len()
        invariant
            i <= counts@.len(),
            pos <= input@.len(),
            out@.len() == i,
            forall|j: int| 0 <= j < i ==> (#[trigger] out@[j])@.len() == counts@[j],
            rows_parsed(*d, input@, 0, counts@, 0) == prepend(
                out.deep_view(),
                rows_parsed(*d, input@, pos as int, counts@, i as int),
            ),
        decreases counts@.len() - i,
    {
        match decode_row(d, input, pos, counts[i]) {
            Ok((row, next)) => {
                let ghost before = out.deep_view();
                let ghost item = row.deep_view();
                out.push(row);
                proof {
                    assert(out.deep_view() =~= before.push(item));
                    if let Some(rest) = rows_parsed(*d, input@, next as int, counts@, i + 1) {
                        assert(before + (seq![item] + rest) =~= before.push(item) + rest);
                    }
                }
                pos = next;
                i = i + 1;
            },
            Err(_) => {
                return Err(Error::Format);
            },
        }
    }
    if pos != input.len() {
        return Err(Error::Format);
    }
    proof {
        assert(out.deep_view() + Seq::empty() =~= out.deep_view());
        lemma_rows_shape(*d, input@, 0, counts@, 0);
    }
    Ok(out)
}

/// A 32-bit IEEE 754 number, held as its bit pattern.
#[derive(Debug, Clone, Copy, PartialEq, Eq, Structural)]
pub struct FloatBits {
    /// Sign, exponent and fraction, as `f32::to_bits` gives them.
    pub bits: u32,
}

impl DeepView for FloatBits {
    type V = FloatBits;

    open spec fn deep_view(&self) -> FloatBits {
        *self
    }
}

/// Decoder of one unsigned byte.
pub struct BeU8;

/// Decoder of one signed byte.
pub struct BeI8;

/// Decoder of a big-endian unsigned 16-bit integer.
pub struct BeU16;

/// Decoder of a big-endian unsigned 32-bit integer.
pub struct BeU32;

/// Decoder of a big-endian signed 32-bit integer.
pub struct BeI32;

/// Decoder of a big-endian unsigned 64-bit integer.
pub struct BeU64;

/// Decoder of a big-endian 32-bit IEEE 754 number.
pub struct BeF32;

impl Decoder for BeU8 {
    type Item = u8;

    open spec fn parsed(&self, bytes: Seq<u8>, at: int) -> Option<(u8, int)> {
        be_u8_at(bytes, at)
    }

    proof fn parsed_advances(&self, bytes: Seq<u8>, at: int) {
    }

    fn parse(&self, input: &[u8], at: usize) -> (r: Result<(u8, usize), Error>) {
        be_u8(input, at)
    }
}

impl Decoder for BeI8 {
    type Item = i8;

    open spec fn parsed(&self, bytes: Seq<u8>, at: int) -> Option<(i8, int)> {
        be_i8_at(bytes, at)
    }

    proof fn parsed_advances(&self, bytes: Seq<u8>, at: int) {
    }

    fn parse(&self, input: &[u8], at: usize) -> (r: Result<(i8, usize), Error>) {
        be_i8(input, at)
    }
}

impl Decoder for BeU16 {
    type Item = u16;

    open spec fn parsed(&self, bytes: Seq<u8>, at: int) -> Option<(u16, int)> {
        be_u16_at(bytes, at)
    }

    proof fn parsed_advances(&self, bytes: Seq<u8>, at: int) {
    }

    fn parse(&self, input: &[u8], at: usize) -> (r: Result<(u16, usize), Error>) {
        be_u16(input, at)
    }
}

impl Decoder for BeU32 {
    type Item = u32;

    open spec fn parsed(&self, bytes: Seq<u8>, at: int) -> Option<(u32, int)> {
        be_u32_at(bytes, at)
    }

    proof fn parsed_advances(&self, bytes: Seq<u8>, at: int) {
    }

    fn parse(&self, input: &[u8], at: usize) -> (r: Result<(u32, usize), Error>) {
        be_u32(input, at)
    }
}

impl Decoder for BeI32 {
    type Item = i32;

    open spec fn parsed(&self, bytes: Seq<u8>, at: int) -> Option<(i32, int)> {
        be_i32_at(bytes, at)
    }

    proof fn parsed_advances(&self, bytes: Seq<u8>, at: int) {
    }

    fn parse(&self, input: &[u8], at: usize) -> (r: Result<(i32, usize), Error>) {
        be_i32(input, at)
    }
}

impl Decoder for BeU64 {
    type Item = u64;

    open spec fn parsed(&self, bytes: Seq<u8>, at: int) -> Option<(u64, int)> {
        be_u64_at(bytes, at)
    }

    proof fn parsed_advances(&self, bytes: Seq<u8>, at: int) {
    }

    fn parse(&self, input: &[u8], at: usize) -> (r: Result<(u64, usize), Error>) {
        be_u64(input, at)
    }
}

/// The number whose bit pattern is the four bytes at `at`.
pub open spec fn be_f32_at(b: Seq<u8>, at: int) -> Option<(FloatBits, int)> {
    match be_u32_at(b, at) {
        Some((bits, next)) => Some((FloatBits { bits }, next)),
        None => None,
    }
}

impl Decoder for BeF32 {
    type Item = FloatBits;

    open spec fn parsed(&self, bytes: Seq<u8>, at: int) -> Option<(FloatBits, int)> {
        be_f32_at(bytes, at)
    }

    proof fn parsed_advances(&self, bytes: Seq<u8>, at: int) {
    }

    fn parse(&self, input: &[u8], at: usize) -> (r: Result<(FloatBits, usize), Error>) {
        match be_u32(input, at) {
            Ok((bits, next)) => Ok((FloatBits { bits }, next)),
            Err(e) => Err(e),
        }
    }
}

} // verus!
