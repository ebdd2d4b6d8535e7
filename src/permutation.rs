use vstd::prelude::*;

use crate::column::{Any, Column};
use crate::queries::{add_key, distinct, lemma_add_key_extends};

verus! {

/// A cell of the table: a column and a row.
#[derive(Clone, Copy, Debug, PartialEq, Eq)]
pub struct Cell {
    pub column: Column<Any>,
    pub row: usize,
}

/// Errors of building a circuit's copy constraints.
#[derive(Clone, Copy, Debug, PartialEq, Eq)]
pub enum Error {
    /// A copy constraint names a column that takes no part in the
    /// permutation argument.
    ColumnNotInPermutation(Column<Any>),
    /// A copy constraint names a row outside the table.
    BoundsFailure,
}

/// Whether `v` holds `c`.
fn holds_column(v: &Vec<Column<Any>>, c: Column<Any>) -> (r: bool)
    ensures
        r == v@.contains(c),
{
    let mut i: usize = 0;
    while i < v.len()
        invariant
            i <= v@.len(),
            forall|k: int| 0 <= k < i ==> v@[k] != c,
        decreases v@.len() - i,
    {
        if v[i] == c {
            assert(v@[i as int] == c);
            return true;
        }
        i = i + 1;
    }
    false
}

/// A copy of the columns of `v`.
fn copy_columns(v: &Vec<Column<Any>>) -> (r: Vec<Column<Any>>)
    ensures
        r@ == v@,
{
    let mut out: Vec<Column<Any>> = Vec::new();
    let mut i: usize = 0;
    while i < v.len()
        invariant
            i <= v@.len(),
            out@ == v@.subrange(0, i as int),
        decreases v@.len() - i,
    {
        out.push(v[i]);
        i = i + 1;
    }
    proof {
        assert(v@.subrange(0, v@.len() as int) =~= v@);
    }
    out
}

/// A permutation argument: the columns whose cells may be tied together by
/// copy constraints, in the order in which they were added.
#[derive(Debug)]
pub struct Argument {
    columns: Vec<Column<Any>>,
}

impl View for Argument {
    type V = Seq<Column<Any>>;

    closed spec fn view(&self) -> Seq<Column<Any>> {
        self.columns@
    }
}

impl Clone for Argument {
    fn clone(&self) -> (r: Self)
        ensures
            r@ == self@,
    {
        Argument { columns: copy_columns(&self.columns) }
    }
}

impl Argument {
    /// An argument over no column.
    pub fn new() -> (r: Self)
        ensures
            r@ == Seq::<Column<Any>>::empty(),
            distinct(r@),
    {
        Argument { columns: Vec::new() }
    }

    /// Returns the minimum circuit degree required by the permutation
    /// argument. Its boundary constraint `l_last(X) * (z(X)^2 - z(X))` has
    /// degree 3 whatever the number of columns: the argument packs as many
    /// columns into each of its products as the circuit's degree allows.
    pub fn required_degree(&self) -> (r: usize)
        ensures
            r == 3,
    {
        3
    }

    /// Adds a column to the argument, unless it takes part already.
    pub fn add_column(&mut self, column: Column<Any>)
        ensures
            final(self)@ == add_key(old(self)@, column),
            distinct(old(self)@) ==> distinct(final(self)@),
    {
        proof {
            if distinct(self@) {
                lemma_add_key_extends(self@, column);
            }
        }
        if !holds_column(&self.columns, column) {
            self.columns.push(column);
        }
    }

    /// Returns the columns that take part in the permutation argument.
    pub fn get_columns(&self) -> (r: Vec<Column<Any>>)
        ensures
            r@ == self@,
    {
        copy_columns(&self.columns)
    }
}

/// The copy constraints of a circuit, gathered during key generation over a
/// table of `n` rows.
#[derive(Clone, Debug)]
pub struct AssemblyFront {
    n: usize,
    columns: Vec<Column<Any>>,
    pub(crate) copies: Vec<(Cell, Cell)>,
}

impl AssemblyFront {
    /// Number of rows of the table.
    pub closed spec fn spec_n(&self) -> usize {
        self.n
    }

    /// Columns of the permutation argument.
    pub closed spec fn spec_columns(&self) -> Seq<Column<Any>> {
        self.columns@
    }

    /// The copy constraints recorded so far, in order.
    pub closed spec fn spec_copies(&self) -> Seq<(Cell, Cell)> {
        self.copies@
    }

    /// An assembly with no copy constraint over a table of `n` rows and the
    /// columns of `p`.
    pub fn new(n: usize, p: &Argument) -> (r: Self)
        ensures
            r.spec_n() == n,
            r.spec_columns() == p@,
            r.spec_copies() == Seq::<(Cell, Cell)>::empty(),
    {
        AssemblyFront { n, columns: p.get_columns(), copies: Vec::new() }
    }

    /// Records that cell `(left_column, left_row)` equals cell
    /// `(right_column, right_row)`.
    pub fn copy(
        &mut self,
        left_column: Column<Any>,
        left_row: usize,
        right_column: Column<Any>,
        right_row: usize,
    ) -> (r: Result<(), Error>)
        ensures
            final(self).spec_n() == old(self).spec_n(),
            final(self).spec_columns() == old(self).spec_columns(),
            !old(self).spec_columns().contains(left_column) ==> r == Err::<(), Error>(
                Error::ColumnNotInPermutation(left_column),
            ),
            old(self).spec_columns().contains(left_column) && !old(self).spec_columns().contains(
                right_column,
            ) ==> r == Err::<(), Error>(Error::ColumnNotInPermutation(right_column)),
            old(self).spec_columns().contains(left_column) && old(self).spec_columns().contains(
                right_column,
            ) && (left_row >= old(self).spec_n() || right_row >= old(self).spec_n()) ==> r == Err::<
                (),
                Error,
            >(Error::BoundsFailure),
            r is Ok <==> (old(self).spec_columns().contains(left_column)
                && old(self).spec_columns().contains(right_column) && left_row < old(self).spec_n()
                && right_row < old(self).spec_n()),
            r is Ok ==> final(self).spec_copies() == old(self).spec_copies().push(
                (
                    Cell { column: left_column, row: left_row },
                    Cell { column: right_column, row: right_row },
                ),
            ),
            r is Err ==> final(self).spec_copies() == old(self).spec_copies(),
    {
        if !holds_column(&self.columns, left_column) {
            return Err(Error::ColumnNotInPermutation(left_column));
        }
        if !holds_column(&self.columns, right_column) {
            return Err(Error::ColumnNotInPermutation(right_column));
        }
        if left_row >= self.n || right_row >= self.n {
            return Err(Error::BoundsFailure);
        }
        self.copies.push(
            (Cell { column: left_column, row: left_row }, Cell { column: right_column, row: right_row }),
        );
        Ok(())
    }

    /// Number of rows of the table.
    pub fn n(&self) -> (r: usize)
        ensures
            r == self.spec_n(),
    {
        self.n
    }

    /// The copy constraints recorded so far, in order.
    pub fn copies(&self) -> (r: &Vec<(Cell, Cell)>)
        ensures
            r@ == self.spec_copies(),
    {
        &self.copies
    }
}

/// The verifying key of a permutation argument: one commitment per column of
/// the argument, in the argument's order.
#[derive(Clone, Debug)]
pub struct VerifyingKey<C> {
    commitments: Vec<C>,
}

/// The concatenation of the byte strings of `parts`, in order.
pub open spec fn concat_bytes(parts: Seq<Seq<u8>>) -> Seq<u8>
    decreases parts.len(),
{
    if parts.len() == 0 {
        Seq::empty()
    } else {
        concat_bytes(parts.drop_last()) + parts.last()
    }
}

/// Every byte string of `parts` has length `len`.
pub open spec fn all_of_length(parts: Seq<Seq<u8>>, len: nat) -> bool {
    forall|i: int| 0 <= i < parts.len() ==> (#[trigger] parts[i]).len() == len
}

proof fn lemma_concat_fixed_length(parts: Seq<Seq<u8>>, len: nat)
    requires
        all_of_length(parts, len),
    ensures
        concat_bytes(parts).len() == parts.len() * len,
        forall|i: int|
            0 <= i < parts.len() ==> concat_bytes(parts).subrange(i * len, i * len + len)
                == #[trigger] parts[i],
    decreases parts.len(),
{
    if parts.len() > 0 {
        let p = parts.drop_last();
        lemma_concat_fixed_length(p, len);
        let c = concat_bytes(p);
        let k = p.len() as int;
        assert((k + 1) * len == k * len + len) by (nonlinear_arith);
        assert forall|i: int| 0 <= i < parts.len() implies concat_bytes(parts).subrange(
            i * len,
            i * len + len,
        ) == #[trigger] parts[i] by {
            if i < k {
                assert(i * len + len <= k * len) by (nonlinear_arith)
                    requires
                        i < k,
                ;
                assert(0 <= i * len) by (nonlinear_arith)
                    requires
                        0 <= i,
                ;
                assert(concat_bytes(parts).subrange(i * len, i * len + len) =~= c.subrange(
                    i * len,
                    i * len + len,
                ));
                assert(p[i] == parts[i]);
            } else {
                assert(concat_bytes(parts).subrange(i * len, i * len + len) =~= parts.last());
            }
        }
    }
}

/// The persisted form of verifying-key commitments: their encodings, one
/// after the other, in the order of the argument's columns.
pub fn write_commitments(encodings: &Vec<Vec<u8>>) -> (r: Vec<u8>)
    requires
        concat_bytes(Seq::new(encodings@.len(), |i: int| encodings@[i]@)).len() <= usize::MAX,
    ensures
        r@ == concat_bytes(Seq::new(encodings@.len(), |i: int| encodings@[i]@)),
{
    let ghost parts = Seq::new(encodings@.len(), |i: int| encodings@[i]@);
    let mut out: Vec<u8> = Vec::new();
    let mut i: usize = 0;
    while i < encodings.len()
        invariant
            i <= encodings@.len(),
            parts == Seq::new(encodings@.len(), |i: int| encodings@[i]@),
            concat_bytes(parts).len() <= usize::MAX,
            out@ == concat_bytes(parts.subrange(0, i as int)),
        decreases encodings@.len() - i,
    {
        proof {
            assert(parts.subrange(0, i + 1).drop_last() =~= parts.subrange(0, i as int));
            lemma_concat_prefix_len(parts, i as int + 1);
        }
        let e = &encodings[i];
        let mut j: usize = 0;
        let ghost start = out@;
        while j < e.len()
            invariant
                j <= e@.len(),
                out@ == start + e@.subrange(0, j as int),
                start.len() + e@.len() <= usize::MAX,
            decreases e@.len() - j,
        {
            out.push(e[j]);
            proof {
                assert(start + e@.subrange(0, j + 1) =~= (start + e@.subrange(0, j as int)).push(e@[j as int]));
            }
            j = j + 1;
        }
        proof {
            assert(e@.subrange(0, e@.len() as int) =~= e@);
            assert(parts.subrange(0, i + 1).last() == e@);
        }
        i = i + 1;
    }
    proof {
        assert(parts.subrange(0, encodings@.len() as int) =~= parts);
    }
    out
}

proof fn lemma_concat_prefix_len(parts: Seq<Seq<u8>>, k: int)
    requires
        0 <= k <= parts.len(),
    ensures
        concat_bytes(parts.subrange(0, k)).len() <= concat_bytes(parts).len(),
    decreases parts.len() - k,
{
    if k < parts.len() {
        lemma_concat_prefix_len(parts, k + 1);
        assert(parts.subrange(0, k + 1).drop_last() =~= parts.subrange(0, k));
    } else {
        assert(parts.subrange(0, k) =~= parts);
    }
}

/// The encodings of `count` commitments of `point_len` bytes each at the
/// start of `bytes`; `None` when `bytes` is too short.
pub fn read_commitments(bytes: &Vec<u8>, count: usize, point_len: usize) -> (r: Option<Vec<Vec<u8>>>)
    ensures
        r is Some <==> count * point_len <= bytes@.len(),
        r is Some ==> {
            let parts = r->0;
            &&& parts@.len() == count
            &&& forall|i: int|
                0 <= i < count ==> (#[trigger] parts@[i])@ == bytes@.subrange(
                    i * point_len,
                    i * point_len + point_len,
                )
        },
{
    let available = bytes.len();
    let total = match count.checked_mul(point_len) {
        Some(t) => t,
        None => {
            return None;
        },
    };
    if total > available {
        return None;
    }
    let mut parts: Vec<Vec<u8>> = Vec::new();
    let mut i: usize = 0;
    while i < count
        invariant
            i <= count,
            available == bytes@.len(),
            count * point_len <= bytes@.len(),
            parts@.len() == i,
            forall|k: int|
                0 <= k < i ==> (#[trigger] parts@[k])@ == bytes@.subrange(
                    k * point_len,
                    k * point_len + point_len,
                ),
        decreases count - i,
    {
        proof {
            assert(i * point_len + point_len <= count * point_len) by (nonlinear_arith)
                requires
                    i < count,
            ;
        }
        let start = i * point_len;
        let mut part: Vec<u8> = Vec::new();
        let mut j: usize = 0;
        while j < point_len
            invariant
                j <= point_len,
                start + point_len <= bytes@.len(),
                available == bytes@.len(),
                start == i * point_len,
                part@ == bytes@.subrange(start as int, start + j),
            decreases point_len - j,
        {
            part.push(bytes[start + j]);
            proof {
                assert(bytes@.subrange(start as int, start + j + 1) =~= bytes@.subrange(
                    start as int,
                    start + j,
                ).push(bytes@[start + j]));
            }
            j = j + 1;
        }
        parts.push(part);
        i = i + 1;
    }
    Some(parts)
}

/// Writing the encodings of a verifying key's commitments and reading them
/// back gives the same encodings, whatever follows them.
pub proof fn lemma_commitments_round_trip(parts: Seq<Seq<u8>>, point_len: nat, rest: Seq<u8>)
    requires
        all_of_length(parts, point_len),
    ensures
        concat_bytes(parts).len() == parts.len() * point_len,
        forall|i: int|
            0 <= i < parts.len() ==> (concat_bytes(parts) + rest).subrange(
                i * point_len,
                i * point_len + point_len,
            ) == #[trigger] parts[i],
{
    lemma_concat_fixed_length(parts, point_len);
    let c = concat_bytes(parts);
    assert forall|i: int| 0 <= i < parts.len() implies (c + rest).subrange(
        i * point_len,
        i * point_len + point_len,
    ) == #[trigger] parts[i] by {
        assert(i * point_len + point_len <= parts.len() * point_len) by (nonlinear_arith)
            requires
                i < parts.len(),
        ;
        assert(0 <= i * point_len) by (nonlinear_arith)
            requires
                0 <= i,
        ;
        assert((c + rest).subrange(i * point_len, i * point_len + point_len) =~= c.subrange(
            i * point_len,
            i * point_len + point_len,
        ));
    }
}

impl<C> VerifyingKey<C> {
    /// The commitments of the key, in order.
    pub closed spec fn spec_commitments(&self) -> Seq<C> {
        self.commitments@
    }

    /// Returns commitments of sigma polynomials
    pub fn commitments(&self) -> (r: &Vec<C>)
        ensures
            r@ == self.spec_commitments(),
    {
        &self.commitments
    }
}

/// `m` maps positions `0..m.len()` one to one onto themselves.
pub open spec fn is_permutation(m: Seq<usize>) -> bool {
    in_range(m) && injective(m)
}

/// `m` maps positions `0..m.len()` into themselves.
#[verifier::opaque]
pub open spec fn in_range(m: Seq<usize>) -> bool {
    forall|i: int| 0 <= i < m.len() ==> #[trigger] m[i] < m.len()
}

/// `m` maps no two positions to the same one.
#[verifier::opaque]
pub open spec fn injective(m: Seq<usize>) -> bool {
    forall|i: int, j: int| 0 <= i < m.len()
        && 0 <= j < m.len()
        && #[trigger] m[i] == #[trigger] m[j] ==> i == j
}

/// Following `m` keeps the label `a` of each position: `a` is constant on
/// every cycle of `m`.
#[verifier::opaque]
pub open spec fn follows_cycles(m: Seq<usize>, a: Seq<usize>) -> bool {
    forall|i: int| 0 <= i < m.len() ==> a[m[i] as int] == #[trigger] a[i]
}

/// Position of cell `(column, row)` in a table of `n` rows per column, laid
/// out column after column.
pub open spec fn cell_position(n: nat, column: nat, row: nat) -> nat {
    column * n + row
}

proof fn lemma_cell_position_bound(n: nat, columns: nat, column: nat, row: nat)
    requires
        column < columns,
        row < n,
    ensures
        cell_position(n, column, row) < columns * n,
{
    assert(column * n + row < columns * n) by (nonlinear_arith)
        requires
            column < columns,
            row < n,
    ;
}

/// `m` with the images of `l` and `r` exchanged, unless `l` and `r` carry
/// the same label in `a`.
pub open spec fn swapped_unless_joined(m: Seq<usize>, a: Seq<usize>, l: int, r: int) -> Seq<usize> {
    if a[l] == a[r] {
        m
    } else {
        m.update(l, m[r]).update(r, m[l])
    }
}

/// Position of `c` in `v`, if `v` holds it.
fn column_position(v: &Vec<Column<Any>>, c: Column<Any>) -> (r: Option<usize>)
    ensures
        r is Some <==> v@.contains(c),
        r is Some ==> r->0 < v@.len() && v@[r->0 as int] == c,
{
    let mut i: usize = 0;
    while i < v.len()
        invariant
            i <= v@.len(),
            forall|k: int| 0 <= k < i ==> v@[k] != c,
        decreases v@.len() - i,
    {
        if v[i] == c {
            assert(v@[i as int] == c);
            return Some(i);
        }
        i = i + 1;
    }
    None
}

/// The permutation of the cells of the permutation argument's columns that
/// the copy constraints define, built during key generation.
///
/// Cells are numbered column after column. Every cell starts in a cycle of
/// its own; each copy constraint merges the cycles of its two cells. The
/// permutation maps each cell to the next cell of its cycle, and each cell
/// carries the label of its cycle.
#[derive(Clone, Debug)]
pub struct Assembly {
    columns: Vec<Column<Any>>,
    n: usize,
    mapping: Vec<usize>,
    aux: Vec<usize>,
}

impl Assembly {
    /// Number of rows of the table.
    pub closed spec fn spec_n(&self) -> usize {
        self.n
    }

    /// Columns of the permutation argument.
    pub closed spec fn spec_columns(&self) -> Seq<Column<Any>> {
        self.columns@
    }

    /// The image of each cell under the permutation, by position.
    pub closed spec fn spec_mapping(&self) -> Seq<usize> {
        self.mapping@
    }

    /// The label of the cycle of each cell, by position.
    pub closed spec fn spec_cycles(&self) -> Seq<usize> {
        self.aux@
    }

    /// Number of cells.
    pub open spec fn size(&self) -> nat {
        (self.spec_columns().len() * self.spec_n()) as nat
    }

    /// The mapping is a permutation of the cells, and it keeps every cell in
    /// its cycle.
    pub open spec fn wf(&self) -> bool {
        &&& self.size() <= usize::MAX
        &&& distinct(self.spec_columns())
        &&& self.spec_mapping().len() == self.size()
        &&& self.spec_cycles().len() == self.size()
        &&& is_permutation(self.spec_mapping())
        &&& follows_cycles(self.spec_mapping(), self.spec_cycles())
    }

    /// An assembly in which every cell of the columns of `p` over `n` rows
    /// is a cycle of its own.
    pub fn new(n: usize, p: &Argument) -> (r: Self)
        requires
            p@.len() * n <= usize::MAX,
            distinct(p@),
        ensures
            r.wf(),
            r.spec_n() == n,
            r.spec_columns() == p@,
            forall|i: int| 0 <= i < r.size() ==> #[trigger] r.spec_mapping()[i] == i,
            forall|i: int| 0 <= i < r.size() ==> #[trigger] r.spec_cycles()[i] == i,
    {
        let columns = p.get_columns();
        let total = columns.len() * n;
        let mut mapping: Vec<usize> = Vec::new();
        let mut i: usize = 0;
        while i < total
            invariant
                i <= total,
                mapping@.len() == i,
                forall|k: int| 0 <= k < i ==> #[trigger] mapping@[k] == k,
            decreases total - i,
        {
            mapping.push(i);
            i = i + 1;
        }
        let aux = copy_positions(&mapping);
        proof {
            reveal(in_range);
            reveal(injective);
            reveal(follows_cycles);
        }
        Assembly { columns, n, mapping, aux }
    }

    /// Records that cell `(left_column, left_row)` equals cell
    /// `(right_column, right_row)`: their cycles are merged into one.
    pub fn copy(
        &mut self,
        left_column: Column<Any>,
        left_row: usize,
        right_column: Column<Any>,
        right_row: usize,
    ) -> (r: Result<(), Error>)
        requires
            old(self).wf(),
        ensures
            final(self).wf(),
            final(self).spec_n() == old(self).spec_n(),
            final(self).spec_columns() == old(self).spec_columns(),
            !old(self).spec_columns().contains(left_column) ==> r == Err::<(), Error>(
                Error::ColumnNotInPermutation(left_column),
            ),
            old(self).spec_columns().contains(left_column) && !old(self).spec_columns().contains(
                right_column,
            ) ==> r == Err::<(), Error>(Error::ColumnNotInPermutation(right_column)),
            old(self).spec_columns().contains(left_column) && old(self).spec_columns().contains(
                right_column,
            ) && (left_row >= old(self).spec_n() || right_row >= old(self).spec_n()) ==> r == Err::<
                (),
                Error,
            >(Error::BoundsFailure),
            r is Ok <==> (old(self).spec_columns().contains(left_column)
                && old(self).spec_columns().contains(right_column) && left_row < old(self).spec_n()
                && right_row < old(self).spec_n()),
            r is Err ==> final(self).spec_mapping() == old(self).spec_mapping()
                && final(self).spec_cycles() == old(self).spec_cycles(),
            r is Ok ==> forall|lc: int, rc: int|
                0 <= lc < old(self).spec_columns().len() && 0 <= rc < old(self).spec_columns().len()
                    && #[trigger] old(self).spec_columns()[lc] == left_column
                    && #[trigger] old(self).spec_columns()[rc] == right_column
                    ==> final(self).spec_cycles()[cell_position(
                    old(self).spec_n() as nat,
                    lc as nat,
                    left_row as nat,
                ) as int] == final(self).spec_cycles()[cell_position(
                    old(self).spec_n() as nat,
                    rc as nat,
                    right_row as nat,
                ) as int],
            r is Ok ==> forall|lc: int, rc: int|
                0 <= lc < old(self).spec_columns().len() && 0 <= rc < old(self).spec_columns().len()
                    && #[trigger] old(self).spec_columns()[lc] == left_column
                    && #[trigger] old(self).spec_columns()[rc] == right_column
                    ==> final(self).spec_mapping() == swapped_unless_joined(
                    old(self).spec_mapping(),
                    old(self).spec_cycles(),
                    cell_position(old(self).spec_n() as nat, lc as nat, left_row as nat) as int,
                    cell_position(old(self).spec_n() as nat, rc as nat, right_row as nat) as int,
                ),
            forall|i: int, j: int|
                0 <= i < old(self).size() && 0 <= j < old(self).size()
                    && #[trigger] old(self).spec_cycles()[i] == #[trigger] old(self).spec_cycles()[j]
                    ==> final(self).spec_cycles()[i] == final(self).spec_cycles()[j],
    {
        let lc = match column_position(&self.columns, left_column) {
            Some(c) => c,
            None => {
                return Err(Error::ColumnNotInPermutation(left_column));
            },
        };
        let rc = match column_position(&self.columns, right_column) {
            Some(c) => c,
            None => {
                return Err(Error::ColumnNotInPermutation(right_column));
            },
        };
        if left_row >= self.n || right_row >= self.n {
            return Err(Error::BoundsFailure);
        }
        proof {
            lemma_cell_position_bound(self.n as nat, self.columns@.len(), lc as nat, left_row as nat);
            lemma_cell_position_bound(self.n as nat, self.columns@.len(), rc as nat, right_row as nat);
            assert(lc * self.n + left_row == cell_position(self.n as nat, lc as nat, left_row as nat));
            assert(rc * self.n + right_row == cell_position(self.n as nat, rc as nat, right_row as nat));
        }
        let l = lc * self.n + left_row;
        let r = rc * self.n + right_row;
        let left_cycle = self.aux[l];
        let right_cycle = self.aux[r];
        let ghost old_aux = self.aux@;
        let ghost m = self.mapping@;
        if left_cycle == right_cycle {
            proof {
                assert forall|a: int, b: int|
                    0 <= a < self.columns@.len() && 0 <= b < self.columns@.len()
                        && #[trigger] self.columns@[a] == left_column
                        && #[trigger] self.columns@[b] == right_column implies self.aux@[cell_position(
                    self.n as nat,
                    a as nat,
                    left_row as nat,
                ) as int] == self.aux@[cell_position(self.n as nat, b as nat, right_row as nat) as int]
                    && self.mapping@ == swapped_unless_joined(
                    m,
                    old_aux,
                    cell_position(self.n as nat, a as nat, left_row as nat) as int,
                    cell_position(self.n as nat, b as nat, right_row as nat) as int,
                ) by {
                    assert(distinct(self.columns@));
                    assert(self.columns@[a] == self.columns@[lc as int]);
                    assert(self.columns@[b] == self.columns@[rc as int]);
                }
            }
            return Ok(());
        }
        let ghost cols = self.columns@;
        let ghost n0 = self.n;
        let total = self.aux.len();
        let mut i: usize = 0;
        while i < total
            invariant
                total == old_aux.len(),
                self.aux@.len() == total,
                self.mapping@ == m,
                self.columns@ == cols,
                self.n == n0,
                i <= total,
                forall|k: int|
                    0 <= k < i ==> #[trigger] self.aux@[k] == if old_aux[k] == right_cycle {
                        left_cycle
                    } else {
                        old_aux[k]
                    },
                forall|k: int| i <= k < total ==> #[trigger] self.aux@[k] == old_aux[k],
            decreases total - i,
        {
            if self.aux[i] == right_cycle {
                self.aux.set(i, left_cycle);
            }
            i = i + 1;
        }
        let tmp = self.mapping[l];
        let other = self.mapping[r];
        self.mapping.set(l, other);
        self.mapping.set(r, tmp);
        proof {
            lemma_merge_keeps_cycles(m, old_aux, self.mapping@, self.aux@, l as int, r as int, left_cycle, right_cycle);
            assert forall|x: int, y: int|
                0 <= x < self.aux@.len()
                    && 0 <= y < self.aux@.len()
                    && #[trigger] old_aux[x] == #[trigger] old_aux[y]
                implies self.aux@[x] == self.aux@[y] by {}
            assert forall|a: int, b: int|
                0 <= a < self.columns@.len() && 0 <= b < self.columns@.len()
                    && #[trigger] self.columns@[a] == left_column
                    && #[trigger] self.columns@[b] == right_column implies self.aux@[cell_position(
                self.n as nat,
                a as nat,
                left_row as nat,
            ) as int] == self.aux@[cell_position(self.n as nat, b as nat, right_row as nat) as int] by {
                assert(distinct(self.columns@));
                assert(self.columns@[a] == self.columns@[lc as int]);
                assert(self.columns@[b] == self.columns@[rc as int]);
            }
        }
        Ok(())
    }

    /// The permutation, per column: the cell to which each row's cell maps,
    /// as a column position and a row.
    pub fn mapping(&self) -> (r: Vec<Vec<(usize, usize)>>)
        requires
            self.wf(),
        ensures
            r@.len() == self.spec_columns().len(),
            forall|c: int|
                0 <= c < r@.len() ==> (#[trigger] r@[c])@.len() == self.spec_n(),
            forall|c: int, row: int|
                0 <= c < r@.len() && 0 <= row < self.spec_n() ==> {
                    let m = self.spec_mapping()[cell_position(self.spec_n() as nat, c as nat, row as nat) as int];
                    #[trigger] r@[c]@[row] == ((m / self.spec_n()) as usize, (m % self.spec_n()) as usize)
                },
    {
        let mut out: Vec<Vec<(usize, usize)>> = Vec::new();
        let mut c: usize = 0;
        while c < self.columns.len()
            invariant
                self.wf(),
                c <= self.columns@.len(),
                out@.len() == c,
                forall|k: int| 0 <= k < c ==> (#[trigger] out@[k])@.len() == self.n,
                forall|k: int, row: int|
                    0 <= k < c && 0 <= row < self.n ==> {
                        let m = self.mapping@[cell_position(self.n as nat, k as nat, row as nat) as int];
                        #[trigger] out@[k]@[row] == ((m / self.n) as usize, (m % self.n) as usize)
                    },
            decreases self.columns@.len() - c,
        {
            let mut col: Vec<(usize, usize)> = Vec::new();
            let mut row: usize = 0;
            while row < self.n
                invariant
                    self.wf(),
                    c < self.columns@.len(),
                    row <= self.n,
                    col@.len() == row,
                    forall|k: int|
                        0 <= k < row ==> {
                            let m = self.mapping@[cell_position(self.n as nat, c as nat, k as nat) as int];
                            #[trigger] col@[k] == ((m / self.n) as usize, (m % self.n) as usize)
                        },
                decreases self.n - row,
            {
                proof {
                    lemma_cell_position_bound(self.n as nat, self.columns@.len(), c as nat, row as nat);
                    assert(c * self.n + row == cell_position(self.n as nat, c as nat, row as nat));
                }
                let m = self.mapping[c * self.n + row];
                col.push((m / self.n, m % self.n));
                row = row + 1;
            }
            out.push(col);
            c = c + 1;
        }
        out
    }
}

/// `c` names a column of `columns` and a row below `n`.
pub open spec fn cell_valid(columns: Seq<Column<Any>>, n: usize, c: Cell) -> bool {
    columns.contains(c.column) && c.row < n
}

impl Assembly {
    /// Cells `a` and `b` lie on one cycle of the permutation.
    pub open spec fn joined(&self, a: Cell, b: Cell) -> bool {
        &&& cell_valid(self.spec_columns(), self.spec_n(), a)
        &&& cell_valid(self.spec_columns(), self.spec_n(), b)
        &&& forall|lc: int, rc: int|
            0 <= lc < self.spec_columns().len() && 0 <= rc < self.spec_columns().len()
                && #[trigger] self.spec_columns()[lc] == a.column
                && #[trigger] self.spec_columns()[rc] == b.column
                ==> self.spec_cycles()[cell_position(self.spec_n() as nat, lc as nat, a.row as nat) as int]
                == self.spec_cycles()[cell_position(self.spec_n() as nat, rc as nat, b.row as nat) as int]
    }

    /// The assembly of the columns of `p` over `n` rows in which every copy
    /// constraint of `copies` has joined its two cells; the error of the
    /// first copy constraint that names a column outside `p` or a row from
    /// `n` on.
    pub fn from_copies(n: usize, p: &Argument, copies: &Vec<(Cell, Cell)>) -> (r: Result<Assembly, Error>)
        requires
            p@.len() * n <= usize::MAX,
            distinct(p@),
        ensures
            r is Ok <==> forall|k: int|
                0 <= k < copies@.len() ==> cell_valid(p@, n, (#[trigger] copies@[k]).0)
                    && cell_valid(
                    p@,
                    n,
                    copies@[k].1,
                ),
            r is Ok ==> {
                let a = r->Ok_0;
                &&& a.wf()
                &&& a.spec_n() == n
                &&& a.spec_columns() == p@
                &&& forall|k: int| 0 <= k < copies@.len() ==> a.joined(#[trigger] copies@[k].0, copies@[k].1)
            },
    {
        let mut assembly = Assembly::new(n, p);
        let mut i: usize = 0;
        while i < copies.len()
            invariant
                i <= copies@.len(),
                assembly.wf(),
                assembly.spec_n() == n,
                assembly.spec_columns() == p@,
                forall|k: int|
                    0 <= k < i ==> cell_valid(p@, n, (#[trigger] copies@[k]).0) && cell_valid(
                        p@,
                        n,
                        copies@[k].1,
                    ),
                forall|k: int| 0 <= k < i ==> assembly.joined(#[trigger] copies@[k].0, copies@[k].1),
            decreases copies@.len() - i,
        {
            let (left, right) = copies[i];
            let ghost before = assembly;
            match assembly.copy(left.column, left.row, right.column, right.row) {
                Ok(()) => {},
                Err(e) => {
                    return Err(e);
                },
            }
            proof {
                assert forall|k: int| 0 <= k < i implies assembly.joined(
                    #[trigger] copies@[k].0,
                    copies@[k].1,
                ) by {
                    lemma_joined_kept(before, assembly, copies@[k].0, copies@[k].1);
                }
                assert(assembly.joined(copies@[i as int].0, copies@[i as int].1));
            }
            i = i + 1;
        }
        Ok(assembly)
    }
}

proof fn lemma_joined_kept(a: Assembly, b: Assembly, x: Cell, y: Cell)
    requires
        a.wf(),
        a.spec_n() == b.spec_n(),
        a.spec_columns() == b.spec_columns(),
        b.spec_cycles().len() == a.spec_cycles().len(),
        forall|i: int, j: int|
            0 <= i < a.size() && 0 <= j < a.size() && #[trigger] a.spec_cycles()[i]
                == #[trigger] a.spec_cycles()[j] ==> b.spec_cycles()[i] == b.spec_cycles()[j],
        a.joined(x, y),
    ensures
        b.joined(x, y),
{
    assert forall|lc: int, rc: int|
        0 <= lc < b.spec_columns().len() && 0 <= rc < b.spec_columns().len()
            && #[trigger] b.spec_columns()[lc] == x.column
            && #[trigger] b.spec_columns()[rc] == y.column implies b.spec_cycles()[cell_position(
        b.spec_n() as nat,
        lc as nat,
        x.row as nat,
    ) as int] == b.spec_cycles()[cell_position(b.spec_n() as nat, rc as nat, y.row as nat) as int] by {
        lemma_cell_position_bound(a.spec_n() as nat, a.spec_columns().len(), lc as nat, x.row as nat);
        lemma_cell_position_bound(a.spec_n() as nat, a.spec_columns().len(), rc as nat, y.row as nat);
    }
}

impl Assembly {
    /// Cell values that satisfy every copy constraint: cells of one cycle
    /// hold one value.
    pub open spec fn respects_cycles<T>(&self, values: Seq<T>) -> bool {
        &&& values.len() == self.size()
        &&& forall|i: int, j: int|
            0 <= i < self.size() && 0 <= j < self.size() && #[trigger] self.spec_cycles()[i]
                == #[trigger] self.spec_cycles()[j] ==> values[i] == values[j]
    }
}

/// The factors of the grand product match one to one. Where the values of a
/// table agree on each cycle, the permuted factor of every cell (its value
/// with the position of its image) is the identity factor (value with own
/// position) of its image, and images run over every cell exactly once: the
/// product of the permuted factors equals the product of the identity
/// factors, so the running product returns to its start.
pub proof fn lemma_grand_product_factors_match<T>(assembly: Assembly, values: Seq<T>)
    requires
        assembly.wf(),
        assembly.respects_cycles(values),
    ensures
        forall|c: int|
            0 <= c < assembly.size() ==> {
                let image = #[trigger] assembly.spec_mapping()[c] as int;
                &&& 0 <= image < assembly.size()
                &&& values[c] == values[image]
            },
        forall|c: int, d: int|
            0 <= c < assembly.size()
                && 0 <= d < assembly.size()
                && #[trigger] assembly.spec_mapping()[c]
                == #[trigger] assembly.spec_mapping()[d] ==> c == d,
{
    reveal(in_range);
    reveal(injective);
    reveal(follows_cycles);
    assert forall|c: int| 0 <= c < assembly.size() implies {
        let image = #[trigger] assembly.spec_mapping()[c] as int;
        &&& 0 <= image < assembly.size()
        &&& values[c] == values[image]
    } by {
        let image = assembly.spec_mapping()[c] as int;
        assert(assembly.spec_cycles()[image] == assembly.spec_cycles()[c]);
    }
}

/// Swapping the images of `l` and `r` in a permutation `m` whose cycles are
/// labelled by `a`, after relabelling the cycle of `r` with the label of `l`,
/// gives a permutation whose cycles are labelled by the new labels.
proof fn lemma_merge_keeps_cycles(
    m: Seq<usize>,
    a: Seq<usize>,
    m2: Seq<usize>,
    a2: Seq<usize>,
    l: int,
    r: int,
    left_cycle: usize,
    right_cycle: usize,
)
    requires
        m.len() == a.len(),
        0 <= l < m.len(),
        0 <= r < m.len(),
        a[l] == left_cycle,
        a[r] == right_cycle,
        is_permutation(m),
        follows_cycles(m, a),
        m2 == m.update(l, m[r]).update(r, m[l]),
        a2.len() == a.len(),
        forall|k: int| 0 <= k < a.len() ==> #[trigger] a2[k] == if a[k] == right_cycle {
            left_cycle
        } else {
            a[k]
        },
    ensures
        is_permutation(m2),
        follows_cycles(m2, a2),
        a2[l] == a2[r],
{
    lemma_swap_is_permutation(m, m2, l, r);
    reveal(follows_cycles);
    reveal(in_range);
    assert forall|k: int| 0 <= k < m2.len() implies a2[m2[k] as int] == #[trigger] a2[k] by {
        assert(a[m[k] as int] == a[k]);
        if k == l {
            assert(a[m[r] as int] == a[r]);
        } else if k == r {
            assert(a[m[l] as int] == a[l]);
        }
    }
}

proof fn lemma_swap_is_permutation(m: Seq<usize>, m2: Seq<usize>, l: int, r: int)
    requires
        0 <= l < m.len(),
        0 <= r < m.len(),
        is_permutation(m),
        m2 == m.update(l, m[r]).update(r, m[l]),
    ensures
        is_permutation(m2),
{
    reveal(in_range);
    reveal(injective);
    assert forall|x: int, y: int|
        0 <= x < m2.len()
            && 0 <= y < m2.len()
            && #[trigger] m2[x] == #[trigger] m2[y] implies x == y by {
        if x != l && x != r && y != l && y != r {
            assert(m[x] == m[y]);
        } else if x == l && y != l && y != r {
            assert(m[r] == m[y]);
        } else if x == r && y != l && y != r {
            assert(m[l] == m[y]);
        } else if y == l && x != l && x != r {
            assert(m[r] == m[x]);
        } else if y == r && x != l && x != r {
            assert(m[l] == m[x]);
        }
    }
    assert forall|k: int| 0 <= k < m2.len() implies #[trigger] m2[k] < m2.len() by {
        assert(m[k] < m.len());
    }
}

/// A copy of `v`.
fn copy_positions(v: &Vec<usize>) -> (r: Vec<usize>)
    ensures
        r@ == v@,
{
    let mut out: Vec<usize> = Vec::new();
    let mut i: usize = 0;
    while i < v.len()
        invariant
            i <= v@.len(),
            out@ == v@.subrange(0, i as int),
        decreases v@.len() - i,
    {
        out.push(v[i]);
        i = i + 1;
    }
    proof {
        assert(v@.subrange(0, v@.len() as int) =~= v@);
    }
    out
}

} // verus!
