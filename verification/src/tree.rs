//! The table that a record describes: its rows, its branches, and where the
//! values of each branch are stored.
//!
//! The description of a tree is, in this order: a version (two bytes), the
//! name and the title (strings), the number of rows (eight bytes), the number
//! of branches (four bytes), and the branches. A branch is its name (a
//! string), the rule that gives the number of values in a row (one byte: 0
//! for a fixed number, which follows in four bytes; 1 for a number read from
//! a counter branch, whose name follows as a string), the number of baskets
//! (four bytes), and for each basket its position (eight bytes), its length
//! on disk and its length once decompressed (four bytes each).

use vstd::prelude::*;
use vstd::seq_lib::lemma_flatten_concat;
use crate::codec::{all_parsed, counter_sum, decode_all, decode_row, decode_rows, prepend,
    row_parsed, rows_parsed, BeU32, Decoder};
use crate::decompress::{decompress, decompressed};
use crate::error::{agrees, Error};
use crate::file_item::{Context, ContextView, ObjectParser};
use crate::number::{be_u16, be_u16_at, be_u32, be_u32_at, be_u64, be_u64_at, be_u8, be_u8_at};
use crate::parsers::{bytes_eq, string, string_at};
use crate::source::Source;

verus! {

/// How many values a branch holds in each row.
#[derive(Debug)]
pub enum ElementCount {
    /// The same number in every row.
    Fixed(u32),
    /// As many as the branch of this name holds as its value in that row.
    VariableByCounter(Vec<u8>),
}

/// An element count as a mathematical value.
pub enum ElementCountView {
    Fixed(u32),
    VariableByCounter(Seq<u8>),
}

impl View for ElementCount {
    type V = ElementCountView;

    open spec fn view(&self) -> ElementCountView {
        match self {
            ElementCount::Fixed(n) => ElementCountView::Fixed(*n),
            ElementCount::VariableByCounter(name) => ElementCountView::VariableByCounter(name@),
        }
    }
}

/// One stored chunk of a branch's values.
#[derive(Debug, Clone, Copy, PartialEq, Eq, Structural)]
pub struct Basket {
    /// Where the chunk lies in the container.
    pub seek: u64,
    /// Its length on disk.
    pub compressed: u32,
    /// Its length once decompressed.
    pub uncompressed: u32,
}

impl DeepView for Basket {
    type V = Basket;

    open spec fn deep_view(&self) -> Basket {
        *self
    }
}

/// One column of a tree.
#[derive(Debug)]
pub struct Branch {
    /// The name of the branch.
    pub name: Vec<u8>,
    /// How many values it holds in each row.
    pub count: ElementCount,
    /// Where its values are stored, in row order.
    pub baskets: Vec<Basket>,
}

/// A branch as a mathematical value.
pub struct BranchView {
    pub name: Seq<u8>,
    pub count: ElementCountView,
    pub baskets: Seq<Basket>,
}

impl View for Branch {
    type V = BranchView;

    open spec fn view(&self) -> BranchView {
        BranchView { name: self.name@, count: self.count@, baskets: self.baskets.deep_view() }
    }
}

impl DeepView for Branch {
    type V = BranchView;

    open spec fn deep_view(&self) -> BranchView {
        self@
    }
}

/// A table of rows, stored column by column.
#[derive(Debug)]
pub struct Tree {
    name: Vec<u8>,
    entries: u64,
    branches: Vec<Branch>,
    source: Source,
}

/// A tree as a mathematical value.
pub struct TreeView {
    pub name: Seq<u8>,
    pub entries: u64,
    pub branches: Seq<BranchView>,
    pub source: Seq<u8>,
}

impl View for Tree {
    type V = TreeView;

    closed spec fn view(&self) -> TreeView {
        TreeView {
            name: self.name@,
            entries: self.entries,
            branches: self.branches.deep_view(),
            source: self.source@,
        }
    }
}

/// A branch of a tree together with what is needed to read its values: the
/// number of rows and the container.
pub struct BranchReader<'t> {
    /// The branch.
    pub branch: &'t Branch,
    /// The number of rows of the tree.
    pub entries: u64,
    /// The container that holds the baskets.
    pub source: &'t Source,
}

/// The description of a basket at `at`.
pub open spec fn basket_at(b: Seq<u8>, at: int) -> Option<(Basket, int)> {
    match be_u64_at(b, at) {
        Some((seek, p1)) => match be_u32_at(b, p1) {
            Some((compressed, p2)) => match be_u32_at(b, p2) {
                Some((uncompressed, next)) => Some((Basket { seek, compressed, uncompressed }, next)),
                None => None,
            },
            None => None,
        },
        None => None,
    }
}

/// The element count at `at`.
pub open spec fn element_count_at(b: Seq<u8>, at: int) -> Option<(ElementCountView, int)> {
    match be_u8_at(b, at) {
        Some((rule, p)) => if rule == 0 {
            match be_u32_at(b, p) {
                Some((n, next)) => Some((ElementCountView::Fixed(n), next)),
                None => None,
            }
        } else if rule == 1 {
            match string_at(b, p) {
                Some((name, next)) => Some((ElementCountView::VariableByCounter(name), next)),
                None => None,
            }
        } else {
            None
        },
        None => None,
    }
}

/// The description of a branch at `at`.
pub open spec fn branch_at(b: Seq<u8>, at: int) -> Option<(BranchView, int)> {
    match string_at(b, at) {
        Some((name, p1)) => match element_count_at(b, p1) {
            Some((count, p2)) => match be_u32_at(b, p2) {
                Some((n, p3)) => match row_parsed(Baskets, b, p3, n as nat) {
                    Some((baskets, next)) => Some((BranchView { name, count, baskets }, next)),
                    None => None,
                },
                None => None,
            },
            None => None,
        },
        None => None,
    }
}

/// The description of a tree at `at`, for a tree that lies in the container
/// of bytes `source`.
pub open spec fn tree_at(b: Seq<u8>, at: int, source: Seq<u8>) -> Option<(TreeView, int)> {
    match be_u16_at(b, at) {
        Some((version, p1)) => match string_at(b, p1) {
            Some((name, p2)) => match string_at(b, p2) {
                Some((title, p3)) => match be_u64_at(b, p3) {
                    Some((entries, p4)) => match be_u32_at(b, p4) {
                        Some((n, p5)) => match row_parsed(Branches, b, p5, n as nat) {
                            Some((branches, next)) => Some(
                                (TreeView { name, entries, branches, source }, next),
                            ),
                            None => None,
                        },
                        None => None,
                    },
                    None => None,
                },
                None => None,
            },
            None => None,
        },
        None => None,
    }
}

/// Decoder of basket descriptions.
pub struct Baskets;

/// Decoder of branch descriptions.
pub struct Branches;

/// Parser of tree descriptions.
pub struct TreeParser;

impl Decoder for Baskets {
    type Item = Basket;

    open spec fn parsed(&self, bytes: Seq<u8>, at: int) -> Option<(Basket, int)> {
        basket_at(bytes, at)
    }

    proof fn parsed_advances(&self, bytes: Seq<u8>, at: int) {
    }

    fn parse(&self, input: &[u8], at: usize) -> (r: Result<(Basket, usize), Error>) {
        let (seek, p) = be_u64(input, at)?;
        let (compressed, p) = be_u32(input, p)?;
        let (uncompressed, p) = be_u32(input, p)?;
        let k = Basket { seek, compressed, uncompressed };
        assert(k.deep_view() == k);
        Ok((k, p))
    }
}

/// Reads the element count at `at`.
pub fn element_count(input: &[u8], at: usize) -> (r: Result<(ElementCount, usize), Error>)
    ensures
        agrees(r, element_count_at(input@, at as int)),
{
    let (rule, p) = be_u8(input, at)?;
    if rule == 0 {
        let (n, p) = be_u32(input, p)?;
        Ok((ElementCount::Fixed(n), p))
    } else if rule == 1 {
        let (name, p) = string(input, p)?;
        Ok((ElementCount::VariableByCounter(name), p))
    } else {
        Err(Error::Format)
    }
}

impl Decoder for Branches {
    type Item = Branch;

    open spec fn parsed(&self, bytes: Seq<u8>, at: int) -> Option<(BranchView, int)> {
        branch_at(bytes, at)
    }

    proof fn parsed_advances(&self, bytes: Seq<u8>, at: int) {
        if let Some((name, p1)) = string_at(bytes, at) {
            if let Some((count, p2)) = element_count_at(bytes, p1) {
                if let Some((n, p3)) = be_u32_at(bytes, p2) {
                    crate::codec::lemma_row_shape(Baskets, bytes, p3, n as nat);
                }
            }
        }
    }

    fn parse(&self, input: &[u8], at: usize) -> (r: Result<(Branch, usize), Error>) {
        let (name, p) = string(input, at)?;
        let (count, p) = element_count(input, p)?;
        let (n, p) = be_u32(input, p)?;
        let (baskets, p) = decode_row(&Baskets, input, p, n)?;
        let branch = Branch { name, count, baskets };
        assert(branch.deep_view() == branch@);
        Ok((branch, p))
    }
}

/// Reads the description of a tree at `at`; the tree is to read its values
/// from `source`.
pub fn tree(input: &[u8], at: usize, source: Source) -> (r: Result<(Tree, usize), Error>)
    ensures
        agrees(r, tree_at(input@, at as int, source@)),
{
    let (_version, p) = be_u16(input, at)?;
    let (name, p) = string(input, p)?;
    let (_title, p) = string(input, p)?;
    let (entries, p) = be_u64(input, p)?;
    let (n, p) = be_u32(input, p)?;
    let (branches, p) = decode_row(&Branches, input, p, n)?;
    Ok((Tree { name, entries, branches, source }, p))
}

impl ObjectParser for TreeParser {
    type Output = Tree;

    open spec fn parses(
        &self,
        bytes: Seq<u8>,
        context: ContextView,
        out: Result<Tree, Error>,
    ) -> bool {
        match tree_at(bytes, 0, context.source) {
            Some((t, _)) => out matches Ok(o) && o@ == t,
            None => out matches Err(e) && e == Error::Format,
        }
    }

    fn parse(&self, input: &[u8], context: &Context) -> (r: Result<Tree, Error>) {
        match tree(input, 0, context.source.handle()) {
            Ok((t, _)) => Ok(t),
            Err(e) => Err(e),
        }
    }
}

/// The index of the first branch from `from` on that is called `name`.
pub open spec fn find_branch(branches: Seq<BranchView>, name: Seq<u8>, from: int) -> Option<int>
    decreases branches.len() - from,
{
    if from < 0 || from >= branches.len() {
        None
    } else if branches[from].name == name {
        Some(from)
    } else {
        find_branch(branches, name, from + 1)
    }
}

/// The bytes of a basket, read from the container and, where the basket is
/// stored compressed, decompressed to the length it declares. A basket that
/// does not lie within the container is a source error; one that is stored
/// longer than it declares to be is a format error.
pub open spec fn basket_payload(k: Basket, source: Seq<u8>) -> Result<Seq<u8>, Error> {
    if k.seek + k.compressed > source.len() {
        Err(Error::Source)
    } else if k.uncompressed > k.compressed {
        decompressed(source.subrange(k.seek as int, k.seek + k.compressed), 0, k.uncompressed as nat)
    } else if k.uncompressed == k.compressed {
        Ok(source.subrange(k.seek as int, k.seek + k.compressed))
    } else {
        Err(Error::Format)
    }
}

/// `first` before the payloads `rest`, where those could be read.
pub open spec fn preceded(first: Seq<u8>, rest: Result<Seq<Seq<u8>>, Error>) -> Result<
    Seq<Seq<u8>>,
    Error,
> {
    match rest {
        Ok(r) => Ok(seq![first] + r),
        Err(e) => Err(e),
    }
}

/// The payloads of the baskets from `from` on, or the error of the first
/// basket that cannot be read.
pub open spec fn payloads_from(baskets: Seq<Basket>, source: Seq<u8>, from: int) -> Result<
    Seq<Seq<u8>>,
    Error,
>
    decreases baskets.len() - from,
{
    if from < 0 || from >= baskets.len() {
        Ok(Seq::empty())
    } else {
        match basket_payload(baskets[from], source) {
            Ok(p) => preceded(p, payloads_from(baskets, source, from + 1)),
            Err(e) => Err(e),
        }
    }
}

/// The values of the payloads from `from` on, each payload decoded from its
/// start to its end; `None` where a payload holds a byte that belongs to no
/// value.
pub open spec fn values_from<D: Decoder>(d: D, payloads: Seq<Seq<u8>>, from: int) -> Option<
    Seq<<D::Item as DeepView>::V>,
>
    decreases payloads.len() - from,
{
    if from < 0 || from >= payloads.len() {
        Some(Seq::empty())
    } else {
        match all_parsed(d, payloads[from], 0) {
            Some(v) => match values_from(d, payloads, from + 1) {
                Some(rest) => Some(v + rest),
                None => None,
            },
            None => None,
        }
    }
}

/// The column of a branch with one value per row: the values of its
/// payloads, which must be as many as the tree has rows.
pub open spec fn fixed_column<D: Decoder>(d: D, payloads: Seq<Seq<u8>>, entries: u64) -> Result<
    Seq<<D::Item as DeepView>::V>,
    Error,
> {
    match values_from(d, payloads, 0) {
        Some(v) => if v.len() == entries {
            Ok(v)
        } else {
            Err(Error::Format)
        },
        None => Err(Error::Format),
    }
}

/// The column of a branch of arrays: row `i` holds the next `counts[i]`
/// values of the payloads laid end to end. There must be one counter for
/// each row of the tree, and the rows must use up the payloads.
pub open spec fn variable_column<D: Decoder>(
    d: D,
    payloads: Seq<Seq<u8>>,
    entries: u64,
    counts: Seq<u32>,
) -> Result<Seq<Seq<<D::Item as DeepView>::V>>, Error> {
    if counts.len() != entries {
        Err(Error::Format)
    } else {
        match rows_parsed(d, payloads.flatten(), 0, counts, 0) {
            Some(rows) => Ok(rows),
            None => Err(Error::Format),
        }
    }
}

/// The column of the branch `name` of a tree, read with one value per row. A
/// tree without such a branch is a format error.
pub open spec fn fixed_branch<D: Decoder>(d: D, t: TreeView, name: Seq<u8>) -> Result<
    Seq<<D::Item as DeepView>::V>,
    Error,
> {
    match find_branch(t.branches, name, 0) {
        Some(i) => match payloads_from(t.branches[i].baskets, t.source, 0) {
            Ok(p) => fixed_column(d, p, t.entries),
            Err(e) => Err(e),
        },
        None => Err(Error::Format),
    }
}

/// The column of the branch `name` of a tree, read as arrays whose lengths
/// are `counts`. A tree without such a branch is a format error.
pub open spec fn variable_branch<D: Decoder>(d: D, t: TreeView, name: Seq<u8>, counts: Seq<u32>) -> Result<
    Seq<Seq<<D::Item as DeepView>::V>>,
    Error,
> {
    match find_branch(t.branches, name, 0) {
        Some(i) => match payloads_from(t.branches[i].baskets, t.source, 0) {
            Ok(p) => variable_column(d, p, t.entries, counts),
            Err(e) => Err(e),
        },
        None => Err(Error::Format),
    }
}

/// Law of a column with one value per row: whatever the payloads, a column
/// that decodes has exactly as many values as the tree has rows.
pub proof fn law_fixed_column_length<D: Decoder>(d: D, payloads: Seq<Seq<u8>>, entries: u64)
    ensures
        fixed_column(d, payloads, entries) matches Ok(v) ==> v.len() == entries,
{
}

/// Law of a column of arrays: whatever the payloads, a column that decodes
/// has one row for each row of the tree, row `i` has `counts[i]` values, and
/// the counters add up to the number of decoded values.
pub proof fn law_variable_column_shape<D: Decoder>(
    d: D,
    payloads: Seq<Seq<u8>>,
    entries: u64,
    counts: Seq<u32>,
)
    ensures
        variable_column(d, payloads, entries, counts) matches Ok(rows) ==> {
            &&& rows.len() == entries
            &&& rows.len() == counts.len()
            &&& forall|i: int| 0 <= i < rows.len() ==> (#[trigger] rows[i]).len() == counts[i]
            &&& rows.flatten().len() == counter_sum(counts, 0)
        },
{
    crate::codec::law_rows_follow_counter(d, payloads.flatten(), counts);
}

/// Decodes a column with one value per row from the payloads of its baskets.
///
/// On success the column has exactly `entries` values. Fails with a format
/// error where a payload does not divide into values or the values are not as
/// many as `entries`.
pub fn decode_fixed_column<D: Decoder>(d: &D, payloads: &Vec<Vec<u8>>, entries: u64) -> (r: Result<
    Vec<D::Item>,
    Error,
>)
    ensures
        match r {
            Ok(v) => fixed_column(*d, payloads.deep_view(), entries) == Ok::<_, Error>(
                v.deep_view(),
            ) && v@.len() == entries,
            Err(e) => fixed_column(*d, payloads.deep_view(), entries) == Err::<
                Seq<<D::Item as DeepView>::V>,
                Error,
            >(e),
        },
{
    let mut out: Vec<D::Item> = Vec::new();
    let mut i: usize = 0;
    let ghost all = payloads.deep_view();
    proof {
        assert(out.deep_view() =~= Seq::empty());
        if let Some(s) = values_from(*d, all, 0) {
            assert(out.deep_view() + s =~= s);
        }
    }
    while i < payloads.len()
        invariant
            i <= payloads@.len(),
            all == payloads.deep_view(),
            all.len() == payloads@.len(),
            values_from(*d, all, 0) == prepend(out.deep_view(), values_from(*d, all, i as int)),
        decreases payloads@.len() - i,
    {
        proof {
            assert(all[i as int] == payloads@[i as int].deep_view());
            assert(payloads@[i as int].deep_view() =~= payloads@[i as int]@);
        }
        match decode_all(d, payloads[i].as_slice()) {
            Ok(mut values) => {
                let ghost before = out.deep_view();
                let ghost piece = values.deep_view();
                proof {
                    if let Some(rest) = values_from(*d, all, i + 1) {
                        assert(before + (piece + rest) =~= (before + piece) + rest);
                    }
                }
                let ghost old_out = out@;
                let ghost old_values = values@;
                out.append(&mut values);
                proof {
                    assert(out@ == old_out + old_values);
                    assert(out.deep_view() =~= before + piece);
                }
                i = i + 1;
            },
            Err(_) => {
                return Err(Error::Format);
            },
        }
    }
    proof {
        assert(out.deep_view() + Seq::empty() =~= out.deep_view());
    }
    if out.len() as u64 != entries {
        return Err(Error::Format);
    }
    Ok(out)
}

/// The bytes of the payloads laid end to end.
pub fn concatenated(payloads: &Vec<Vec<u8>>) -> (r: Vec<u8>)
    ensures
        r@ == payloads.deep_view().flatten(),
{
    let mut stream: Vec<u8> = Vec::new();
    let mut i: usize = 0;
    let ghost all = payloads.deep_view();
    proof {
        assert(all.subrange(0, 0) =~= Seq::empty());
        assert(Seq::<Seq<u8>>::empty().flatten() =~= Seq::empty());
    }
    while i < payloads.len()
        invariant
            i <= payloads@.len(),
            all == payloads.deep_view(),
            all.len() == payloads@.len(),
            stream@ == all.subrange(0, i as int).flatten(),
        decreases payloads@.len() - i,
    {
        let mut piece = payloads[i].clone();
        proof {
            assert(piece@ =~= payloads@[i as int]@);
            assert(payloads@[i as int].deep_view() =~= payloads@[i as int]@);
            assert(all[i as int] == piece@);
            assert(all.subrange(0, i + 1) =~= all.subrange(0, i as int) + seq![piece@]);
            lemma_flatten_concat(all.subrange(0, i as int), seq![piece@]);
            seq![piece@].lemma_flatten_one_element();
        }
        stream.append(&mut piece);
        i = i + 1;
    }
    proof {
        assert(all.subrange(0, i as int) =~= all);
    }
    stream
}

/// Decodes a column of arrays from the payloads of its baskets, row `i`
/// taking `counts[i]` values.
///
/// On success there are `entries` rows, row `i` has `counts[i]` values, and
/// the counters add up to the number of values decoded. Fails with a format
/// error where the counters are not as many as `entries`, where the payloads
/// end before a row is complete, and where bytes are left behind the last
/// row.
pub fn decode_variable_column<D: Decoder>(
    d: &D,
    payloads: &Vec<Vec<u8>>,
    entries: u64,
    counts: &[u32],
) -> (r: Result<Vec<Vec<D::Item>>, Error>)
    ensures
        match r {
            Ok(rows) => {
                &&& variable_column(*d, payloads.deep_view(), entries, counts@) == Ok::<_, Error>(
                    rows.deep_view(),
                )
                &&& rows@.len() == entries
                &&& rows@.len() == counts@.len()
                &&& forall|i: int| 0 <= i < rows@.len() ==> (#[trigger] rows@[i])@.len() == counts@[i]
                &&& rows.deep_view().flatten().len() == counter_sum(counts@, 0)
            },
            Err(e) => variable_column(*d, payloads.deep_view(), entries, counts@) == Err::<
                Seq<Seq<<D::Item as DeepView>::V>>,
                Error,
            >(e),
        },
{
    if counts.len() as u64 != entries {
        return Err(Error::Format);
    }
    let stream = concatenated(payloads);
    decode_rows(d, stream.as_slice(), counts)
}

/// The counters of a branch that holds `n` values in each of `rows` rows.
pub open spec fn constant_counts(n: u32, rows: u64) -> Seq<u32> {
    Seq::new(rows as nat, |k: int| n)
}

/// The column of the branch `name` of a tree, read by the rule of the branch
/// itself: with a fixed number of values in each row, or with as many values
/// in row `i` as the counter branch that the rule names holds as its value
/// in row `i`. It is a format error where the tree has no such branch, and
/// where the rule fixes the number at zero.
pub open spec fn ruled_branch<D: Decoder>(d: D, t: TreeView, name: Seq<u8>) -> Result<
    Seq<Seq<<D::Item as DeepView>::V>>,
    Error,
> {
    match find_branch(t.branches, name, 0) {
        Some(i) => match t.branches[i].count {
            ElementCountView::Fixed(n) => if n == 0 {
                Err(Error::Format)
            } else {
                variable_branch(d, t, name, constant_counts(n, t.entries))
            },
            ElementCountView::VariableByCounter(counter) => match fixed_branch(BeU32, t, counter) {
                Ok(counts) => variable_branch(d, t, name, counts),
                Err(e) => Err(e),
            },
        },
        None => Err(Error::Format),
    }
}

/// Law of a branch read by its own rule: whatever the bytes, a column
/// that decodes has exactly as many rows as the tree, and where the rule
/// fixes the number of values in a row, every row has that number.
pub proof fn law_ruled_branch_shape<D: Decoder>(d: D, t: TreeView, name: Seq<u8>)
    ensures
        ruled_branch(d, t, name) matches Ok(rows) ==> {
            &&& rows.len() == t.entries
            &&& find_branch(t.branches, name, 0) matches Some(i)
            &&& t.branches[i].count matches ElementCountView::Fixed(n) ==> forall|k: int|
                0 <= k < rows.len() ==> (#[trigger] rows[k]).len() == n
        },
{
    if let Some(i) = find_branch(t.branches, name, 0) {
        if let Ok(p) = payloads_from(t.branches[i].baskets, t.source, 0) {
            match t.branches[i].count {
                ElementCountView::Fixed(n) => {
                    law_variable_column_shape(d, p, t.entries, constant_counts(n, t.entries));
                },
                ElementCountView::VariableByCounter(counter) => {
                    if let Ok(counts) = fixed_branch(BeU32, t, counter) {
                        law_variable_column_shape(d, p, t.entries, counts);
                    }
                },
            }
        }
    }
}

/// Decodes `rows` rows of `n` values each, the rows one behind the other
/// from the start of `input` to its end.
///
/// Fails with a format error exactly where the bytes end before a row is
/// complete or go on behind the last row.
pub fn decode_constant_rows<D: Decoder>(d: &D, input: &[u8], n: u32, rows: u64) -> (r: Result<
    Vec<Vec<D::Item>>,
    Error,
>)
    ensures
        match r {
            Ok(v) => rows_parsed(*d, input@, 0, constant_counts(n, rows), 0) == Some(v.deep_view())
                && v@.len() == rows,
            Err(e) => e == Error::Format && rows_parsed(*d, input@, 0, constant_counts(n, rows), 0)
                is None,
        },
{
    let ghost counts = constant_counts(n, rows);
    let mut out: Vec<Vec<D::Item>> = Vec::new();
    let mut pos: usize = 0;
    let mut i: u64 = 0;
    proof {
        assert(out.deep_view() =~= Seq::empty());
        if let Some(s) = rows_parsed(*d, input@, 0, counts, 0) {
            assert(out.deep_view() + s =~= s);
        }
    }
    while i < rows
        invariant
            i <= rows,
            pos <= input@.len(),
            out@.len() == i,
            counts == constant_counts(n, rows),
            rows_parsed(*d, input@, 0, counts, 0) == prepend(
                out.deep_view(),
                rows_parsed(*d, input@, pos as int, counts, i as int),
            ),
        decreases rows - i,
    {
        match decode_row(d, input, pos, n) {
            Ok((row, next)) => {
                let ghost before = out.deep_view();
                let ghost item = row.deep_view();
                out.push(row);
                proof {
                    assert(out.deep_view() =~= before.push(item));
                    if let Some(rest) = rows_parsed(*d, input@, next as int, counts, i + 1) {
                        assert(before + (seq![item] + rest) =~= before.push(item) + rest);
                    }
                }
                pos = next;
                i = i + 1;
            },
            Err(_) => {
                return Err(Error::Format);
            },
        }
    }
    if pos != input.len() {
        return Err(Error::Format);
    }
    proof {
        assert(out.deep_view() + Seq::empty() =~= out.deep_view());
    }
    Ok(out)
}

impl Tree {
    /// A tree of `entries` rows with the given branches, whose baskets lie in
    /// `source`.
    pub fn new(name: Vec<u8>, entries: u64, branches: Vec<Branch>, source: Source) -> (r: Tree)
        ensures
            r@ == (TreeView {
                name: name@,
                entries,
                branches: branches.deep_view(),
                source: source@,
            }),
    {
        Tree { name, entries, branches, source }
    }

    /// The name of the tree.
    pub fn name(&self) -> (r: &[u8])
        ensures
            r@ == self@.name,
    {
        self.name.as_slice()
    }

    /// The number of rows.
    pub fn entries(&self) -> (r: u64)
        ensures
            r == self@.entries,
    {
        self.entries
    }

    /// The branches, in the order of the description.
    pub fn branches(&self) -> (r: &[Branch])
        ensures
            r.deep_view() == self@.branches,
    {
        let r = self.branches.as_slice();
        proof {
            assert(r.deep_view() =~= self.branches.deep_view());
        }
        r
    }

    /// Decodes the branch `name` as a column with one value per row.
    ///
    /// On success the column has exactly as many values as the tree has
    /// rows. Fails as [`Tree::branch_by_name`] and
    /// [`BranchReader::decode_fixed`] do.
    pub fn fixed<D: Decoder>(&self, name: &[u8], d: &D) -> (r: Result<Vec<D::Item>, Error>)
        ensures
            match r {
                Ok(v) => fixed_branch(*d, self@, name@) == Ok::<_, Error>(v.deep_view()) && v@.len()
                    == self@.entries,
                Err(e) => fixed_branch(*d, self@, name@) == Err::<
                    Seq<<D::Item as DeepView>::V>,
                    Error,
                >(e),
            },
    {
        let reader = self.branch_by_name(name)?;
        reader.decode_fixed(d)
    }

    /// Decodes the branch `name` as a column of arrays, row `i` taking
    /// `counts[i]` values.
    ///
    /// On success there are as many rows as the tree has and row `i` has
    /// `counts[i]` values. Fails as [`Tree::branch_by_name`] and
    /// [`BranchReader::decode_variable`] do.
    pub fn variable<D: Decoder>(&self, name: &[u8], d: &D, counts: &[u32]) -> (r: Result<
        Vec<Vec<D::Item>>,
        Error,
    >)
        ensures
            match r {
                Ok(rows) => {
                    &&& variable_branch(*d, self@, name@, counts@) == Ok::<_, Error>(
                        rows.deep_view(),
                    )
                    &&& rows@.len() == self@.entries
                    &&& rows@.len() == counts@.len()
                    &&& forall|i: int|
                        0 <= i < rows@.len() ==> (#[trigger] rows@[i])@.len() == counts@[i]
                    &&& rows.deep_view().flatten().len() == counter_sum(counts@, 0)
                },
                Err(e) => variable_branch(*d, self@, name@, counts@) == Err::<
                    Seq<Seq<<D::Item as DeepView>::V>>,
                    Error,
                >(e),
            },
    {
        let reader = self.branch_by_name(name)?;
        reader.decode_variable(d, counts)
    }

    /// Decodes the branch `name` by its own rule: with the fixed number of
    /// values in each row that the rule gives, or with as many values in each
    /// row as the counter branch that the rule names holds for the row.
    ///
    /// On success there are as many rows as the tree has. Fails with a
    /// format error where the tree has no such branch or the rule fixes the
    /// number at zero, as [`Tree::fixed`] does for the counter branch, and
    /// as [`BranchReader::decode_variable`] does.
    pub fn column<D: Decoder>(&self, name: &[u8], d: &D) -> (r: Result<Vec<Vec<D::Item>>, Error>)
        ensures
            match r {
                Ok(rows) => ruled_branch(*d, self@, name@) == Ok::<_, Error>(rows.deep_view())
                    && rows@.len() == self@.entries,
                Err(e) => ruled_branch(*d, self@, name@) == Err::<
                    Seq<Seq<<D::Item as DeepView>::V>>,
                    Error,
                >(e),
            },
    {
        let reader = self.branch_by_name(name)?;
        match &reader.branch.count {
            ElementCount::Fixed(n) => {
                if *n == 0 {
                    return Err(Error::Format);
                }
                let payloads = reader.payloads()?;
                let stream = concatenated(&payloads);
                proof {
                    assert(constant_counts(*n, self.entries).len() == self.entries);
                }
                decode_constant_rows(d, stream.as_slice(), *n, self.entries)
            },
            ElementCount::VariableByCounter(counter) => {
                let counts = self.fixed(counter.as_slice(), &BeU32)?;
                proof {
                    assert(counts.deep_view() =~= counts@);
                }
                reader.decode_variable(d, counts.as_slice())
            },
        }
    }

    /// The first branch called `name`, ready to be read.
    ///
    /// Fails with a format error exactly where the tree has no branch of that
    /// name.
    pub fn branch_by_name<'t>(&'t self, name: &[u8]) -> (r: Result<BranchReader<'t>, Error>)
        ensures
            match r {
                Ok(reader) => find_branch(self@.branches, name@, 0) matches Some(i)
                    && reader.branch@ == self@.branches[i] && reader.entries == self@.entries
                    && reader.source@ == self@.source,
                Err(e) => e == Error::Format && find_branch(self@.branches, name@, 0) is None,
            },
    {
        let mut i: usize = 0;
        while i < self.branches.len()
            invariant
                i <= self.branches@.len(),
                self.branches.deep_view().len() == self.branches@.len(),
                find_branch(self@.branches, name@, 0) == find_branch(self@.branches, name@, i as int),
            decreases self.branches@.len() - i,
        {
            proof {
                assert(self@.branches[i as int] == self.branches@[i as int]@);
            }
            if bytes_eq(self.branches[i].name.as_slice(), name) {
                return Ok(
                    BranchReader { branch: &self.branches[i], entries: self.entries, source: &self.source },
                );
            }
            i = i + 1;
        }
        Err(Error::Format)
    }
}

impl<'t> BranchReader<'t> {
    /// Reads the payload of every basket of the branch, in order,
    /// decompressing those that are stored compressed.
    ///
    /// Fails with the error of the first basket that cannot be read: a source
    /// error where it does not lie within the container, a format error
    /// where it is stored longer than it declares, and as [`decompress`]
    /// does.
    pub fn payloads(&self) -> (r: Result<Vec<Vec<u8>>, Error>)
        ensures
            match r {
                Ok(v) => payloads_from(self.branch@.baskets, self.source@, 0) == Ok::<_, Error>(
                    v.deep_view(),
                ),
                Err(e) => payloads_from(self.branch@.baskets, self.source@, 0) == Err::<
                    Seq<Seq<u8>>,
                    Error,
                >(e),
            },
    {
        let baskets = &self.branch.baskets;
        let ghost ks = self.branch@.baskets;
        let ghost src = self.source@;
        let mut out: Vec<Vec<u8>> = Vec::new();
        let mut i: usize = 0;
        proof {
            assert(out.deep_view() =~= Seq::empty());
            if let Ok(s) = payloads_from(ks, src, 0) {
                assert(out.deep_view() + s =~= s);
            }
        }
        while i < baskets.len()
            invariant
                i <= baskets@.len(),
                ks == baskets.deep_view(),
                ks == self.branch@.baskets,
                ks.len() == baskets@.len(),
                src == self.source@,
                payloads_from(ks, src, 0) == match payloads_from(ks, src, i as int) {
                    Ok(rest) => Ok::<_, Error>(out.deep_view() + rest),
                    Err(e) => Err(e),
                },
            decreases baskets@.len() - i,
        {
            let k = baskets[i];
            proof {
                assert(ks[i as int] == k);
            }
            let stored = match self.source.fetch(k.seek, k.compressed as u64) {
                Ok(v) => v,
                Err(e) => {
                    return Err(e);
                },
            };
            let payload = if k.uncompressed > k.compressed {
                match decompress(stored.as_slice(), k.uncompressed as usize) {
                    Ok(v) => v,
                    Err(e) => {
                        return Err(e);
                    },
                }
            } else if k.uncompressed == k.compressed {
                stored
            } else {
                return Err(Error::Format);
            };
            let ghost before = out.deep_view();
            let ghost piece = payload@;
            proof {
                assert(payload.deep_view() =~= payload@);
                if let Ok(rest) = payloads_from(ks, src, i + 1) {
                    assert(before + (seq![piece] + rest) =~= before.push(piece) + rest);
                }
            }
            out.push(payload);
            proof {
                assert(out.deep_view() =~= before.push(piece));
            }
            i = i + 1;
        }
        proof {
            assert(out.deep_view() + Seq::empty() =~= out.deep_view());
        }
        Ok(out)
    }

    /// Decodes the branch as a column with one value per row.
    ///
    /// On success the column has exactly as many values as the tree has
    /// rows. Fails as [`BranchReader::payloads`] does, and with a format
    /// error where a basket does not divide into values or the values are not
    /// as many as the rows.
    pub fn decode_fixed<D: Decoder>(&self, d: &D) -> (r: Result<Vec<D::Item>, Error>)
        ensures
            match payloads_from(self.branch@.baskets, self.source@, 0) {
                Ok(p) => match r {
                    Ok(v) => fixed_column(*d, p, self.entries) == Ok::<_, Error>(v.deep_view())
                        && v@.len() == self.entries,
                    Err(e) => fixed_column(*d, p, self.entries) == Err::<
                        Seq<<D::Item as DeepView>::V>,
                        Error,
                    >(e),
                },
                Err(e) => r is Err && r->Err_0 == e,
            },
    {
        let payloads = self.payloads()?;
        decode_fixed_column(d, &payloads, self.entries)
    }

    /// Decodes the branch as a column of arrays, row `i` taking `counts[i]`
    /// values.
    ///
    /// On success there are as many rows as the tree has, row `i` has
    /// `counts[i]` values, and the counters add up to the number of values
    /// decoded. Fails as [`BranchReader::payloads`] does, and with a format
    /// error where the counters are not as many as the rows, where the
    /// baskets end before a row is complete, and where bytes are left behind
    /// the last row.
    pub fn decode_variable<D: Decoder>(&self, d: &D, counts: &[u32]) -> (r: Result<
        Vec<Vec<D::Item>>,
        Error,
    >)
        ensures
            match payloads_from(self.branch@.baskets, self.source@, 0) {
                Ok(p) => match r {
                    Ok(rows) => {
                        &&& variable_column(*d, p, self.entries, counts@) == Ok::<_, Error>(
                            rows.deep_view(),
                        )
                        &&& rows@.len() == self.entries
                        &&& rows@.len() == counts@.len()
                        &&& forall|i: int|
                            0 <= i < rows@.len() ==> (#[trigger] rows@[i])@.len() == counts@[i]
                        &&& rows.deep_view().flatten().len() == counter_sum(counts@, 0)
                    },
                    Err(e) => variable_column(*d, p, self.entries, counts@) == Err::<
                        Seq<Seq<<D::Item as DeepView>::V>>,
                        Error,
                    >(e),
                },
                Err(e) => r is Err && r->Err_0 == e,
            },
    {
        let payloads = self.payloads()?;
        decode_variable_column(d, &payloads, self.entries, counts)
    }
}

} // verus!
