use vstd::prelude::*;

use crate::expression::{query_expression, AdviceQuery, Expression, FixedQuery, InstanceQuery};
use crate::sealed;
use crate::sealed::SealedPhase;

verus! {

/// Relative row offset at which a column is queried: `0` is the current
/// row, `1` the next one and `-1` the previous one.
#[derive(Clone, Copy, Debug, PartialEq, Eq, Structural, Hash)]
pub struct Rotation(pub i32);

impl Rotation {
    /// The current row.
    pub fn cur() -> (r: Rotation)
        ensures
            r.0 == 0,
    {
        Rotation(0)
    }

    /// The next row.
    pub fn next() -> (r: Rotation)
        ensures
            r.0 == 1,
    {
        Rotation(1)
    }

    /// The previous row.
    pub fn prev() -> (r: Rotation)
        ensures
            r.0 == -1,
    {
        Rotation(-1)
    }
}

/// Phase of an advice column: implemented by the phase marker types only.
pub trait Phase: SealedPhase {}

impl<P: SealedPhase> Phase for P {}

/// First phase
#[derive(Debug)]
pub struct FirstPhase;

impl SealedPhase for FirstPhase {
    open spec fn phase_number(&self) -> u8 {
        0
    }

    fn to_sealed(self) -> (r: sealed::Phase) {
        sealed::Phase(0)
    }
}

/// Second phase
#[derive(Debug)]
pub struct SecondPhase;

impl SealedPhase for SecondPhase {
    open spec fn phase_number(&self) -> u8 {
        1
    }

    fn to_sealed(self) -> (r: sealed::Phase) {
        sealed::Phase(1)
    }
}

/// Third phase
#[derive(Debug)]
pub struct ThirdPhase;

impl SealedPhase for ThirdPhase {
    open spec fn phase_number(&self) -> u8 {
        2
    }

    fn to_sealed(self) -> (r: sealed::Phase) {
        sealed::Phase(2)
    }
}

/// An advice column type, tagged with the phase in which it is committed.
#[derive(Clone, Copy, Debug, PartialEq, Eq, Structural, PartialOrd, Ord, Hash)]
pub struct Advice {
    pub phase: sealed::Phase,
}

impl Default for Advice {
    fn default() -> (r: Advice)
        ensures
            r.phase.number() == 0,
    {
        Advice { phase: FirstPhase.to_sealed() }
    }
}

impl Advice {
    /// Returns `Advice` in the given phase.
    pub fn new<P: Phase>(phase: P) -> (r: Advice)
        ensures
            r.phase.number() == phase.phase_number(),
    {
        Advice { phase: phase.to_sealed() }
    }

    /// Phase of this column.
    pub fn phase(&self) -> (r: u8)
        ensures
            r == self.phase.number(),
    {
        self.phase.0
    }
}

/// A fixed column type.
#[derive(Clone, Copy, Debug, PartialEq, Eq, Structural, PartialOrd, Ord, Hash)]
pub struct Fixed;

/// An instance column type.
#[derive(Clone, Copy, Debug, PartialEq, Eq, Structural, PartialOrd, Ord, Hash)]
pub struct Instance;

/// A column type of any kind.
///
/// The variants are declared in the order of columns: instance columns come
/// first, then advice columns by phase, then fixed columns.
#[derive(Clone, Copy, Debug, PartialEq, Eq, Structural, Ord, Hash)]
pub enum Any {
    /// An Instance variant
    Instance,
    /// An Advice variant
    Advice(Advice),
    /// A Fixed variant
    Fixed,
}

impl Any {
    /// Returns the advice kind in the first phase.
    pub fn advice() -> (r: Any)
        ensures
            r is Advice && r->Advice_0.phase.number() == 0,
    {
        Any::Advice(Advice::default())
    }

    /// Returns the advice kind in the given phase.
    pub fn advice_in<P: Phase>(phase: P) -> (r: Any)
        ensures
            r is Advice && r->Advice_0.phase.number() == phase.phase_number(),
    {
        Any::Advice(Advice::new(phase))
    }
}

/// Position of a column kind in the column order: instance, then advice by
/// phase, then fixed.
pub open spec fn kind_rank(k: Any) -> int {
    match k {
        Any::Instance => 0,
        Any::Advice(a) => 1 + a.phase.number(),
        Any::Fixed => 257,
    }
}

/// The ordering of two integers.
pub open spec fn ordering_of(a: int, b: int) -> std::cmp::Ordering {
    if a < b {
        std::cmp::Ordering::Less
    } else if a == b {
        std::cmp::Ordering::Equal
    } else {
        std::cmp::Ordering::Greater
    }
}

fn rank_of(k: &Any) -> (r: u16)
    ensures
        r as int == kind_rank(*k),
{
    match k {
        Any::Instance => 0,
        Any::Advice(a) => 1 + a.phase.0 as u16,
        Any::Fixed => 257,
    }
}

fn compare_u64(a: u64, b: u64) -> (r: std::cmp::Ordering)
    ensures
        r == ordering_of(a as int, b as int),
{
    if a < b {
        std::cmp::Ordering::Less
    } else if a == b {
        std::cmp::Ordering::Equal
    } else {
        std::cmp::Ordering::Greater
    }
}

impl PartialOrd for Any {
    fn partial_cmp(&self, other: &Any) -> (r: Option<std::cmp::Ordering>) {
        Some(compare_u64(rank_of(self) as u64, rank_of(other) as u64))
    }
}

impl vstd::std_specs::cmp::PartialOrdSpecImpl for Any {
    open spec fn obeys_partial_cmp_spec() -> bool {
        true
    }

    open spec fn partial_cmp_spec(&self, other: &Any) -> Option<std::cmp::Ordering> {
        Some(ordering_of(kind_rank(*self), kind_rank(*other)))
    }
}

/// A column type: one of `Advice`, `Fixed`, `Instance`, or `Any`.
pub trait ColumnType: Sized + Copy + PartialEq + Eq + std::fmt::Debug {
    /// The kind of column that this type stands for.
    spec fn kind(&self) -> Any;

    /// The kind of column that this type stands for.
    fn to_any(&self) -> (r: Any)
        ensures
            r == self.kind(),
    ;

    /// Two values of the type are told apart by their kinds.
    proof fn lemma_kind_injective(a: Self, b: Self)
        ensures
            a.kind() == b.kind() ==> a == b,
    ;

    /// Expression that queries the column `index` of this type at `at`.
    fn query_cell<F>(&self, index: usize, at: Rotation) -> (r: Expression<F>)
        ensures
            r == query_expression::<F>(self.kind(), index, at),
    ;
}

impl ColumnType for Advice {
    proof fn lemma_kind_injective(a: Self, b: Self) {
    }

    open spec fn kind(&self) -> Any {
        Any::Advice(*self)
    }

    fn to_any(&self) -> (r: Any) {
        Any::Advice(*self)
    }

    fn query_cell<F>(&self, index: usize, at: Rotation) -> (r: Expression<F>) {
        Expression::Advice(
            AdviceQuery { index: None, column_index: index, rotation: at, phase: self.phase },
        )
    }
}

impl ColumnType for Fixed {
    proof fn lemma_kind_injective(a: Self, b: Self) {
    }

    open spec fn kind(&self) -> Any {
        Any::Fixed
    }

    fn to_any(&self) -> (r: Any) {
        Any::Fixed
    }

    fn query_cell<F>(&self, index: usize, at: Rotation) -> (r: Expression<F>) {
        Expression::Fixed(FixedQuery { index: None, column_index: index, rotation: at })
    }
}

impl ColumnType for Instance {
    proof fn lemma_kind_injective(a: Self, b: Self) {
    }

    open spec fn kind(&self) -> Any {
        Any::Instance
    }

    fn to_any(&self) -> (r: Any) {
        Any::Instance
    }

    fn query_cell<F>(&self, index: usize, at: Rotation) -> (r: Expression<F>) {
        Expression::Instance(InstanceQuery { index: None, column_index: index, rotation: at })
    }
}

impl ColumnType for Any {
    proof fn lemma_kind_injective(a: Self, b: Self) {
    }

    open spec fn kind(&self) -> Any {
        *self
    }

    fn to_any(&self) -> (r: Any) {
        *self
    }

    fn query_cell<F>(&self, index: usize, at: Rotation) -> (r: Expression<F>) {
        match self {
            Any::Advice(advice) => Expression::Advice(
                AdviceQuery {
                    index: None,
                    column_index: index,
                    rotation: at,
                    phase: advice.phase,
                },
            ),
            Any::Fixed => Expression::Fixed(
                FixedQuery { index: None, column_index: index, rotation: at },
            ),
            Any::Instance => Expression::Instance(
                InstanceQuery { index: None, column_index: index, rotation: at },
            ),
        }
    }
}

impl From<Advice> for Any {
    fn from(advice: Advice) -> (r: Any) {
        Any::Advice(advice)
    }
}

impl vstd::std_specs::convert::FromSpecImpl<Advice> for Any {
    open spec fn obeys_from_spec() -> bool {
        true
    }

    open spec fn from_spec(v: Advice) -> Any {
        Any::Advice(v)
    }
}

impl From<Fixed> for Any {
    fn from(_fixed: Fixed) -> (r: Any) {
        Any::Fixed
    }
}

impl vstd::std_specs::convert::FromSpecImpl<Fixed> for Any {
    open spec fn obeys_from_spec() -> bool {
        true
    }

    open spec fn from_spec(v: Fixed) -> Any {
        Any::Fixed
    }
}

impl From<Instance> for Any {
    fn from(_instance: Instance) -> (r: Any) {
        Any::Instance
    }
}

impl vstd::std_specs::convert::FromSpecImpl<Instance> for Any {
    open spec fn obeys_from_spec() -> bool {
        true
    }

    open spec fn from_spec(v: Instance) -> Any {
        Any::Instance
    }
}

/// A column with an index and type.
///
/// The fields are declared in the order of columns: first by kind, then by
/// index.
#[derive(Clone, Copy, Debug, Eq, Ord, Hash)]
pub struct Column<C: ColumnType> {
    pub column_type: C,
    pub index: usize,
}

impl<C: ColumnType> PartialEq for Column<C> {
    fn eq(&self, other: &Self) -> (r: bool) {
        self.column_type.to_any() == other.column_type.to_any() && self.index == other.index
    }
}

impl<C: ColumnType> vstd::std_specs::cmp::PartialEqSpecImpl for Column<C> {
    open spec fn obeys_eq_spec() -> bool {
        true
    }

    open spec fn eq_spec(&self, other: &Self) -> bool {
        self.column_type.kind() == other.column_type.kind() && self.index == other.index
    }
}

/// The order of columns: by kind, then by index.
pub open spec fn column_ordering<C: ColumnType>(a: Column<C>, b: Column<C>) -> std::cmp::Ordering {
    let ra = kind_rank(a.column_type.kind());
    let rb = kind_rank(b.column_type.kind());
    if ra != rb {
        ordering_of(ra, rb)
    } else {
        ordering_of(a.index as int, b.index as int)
    }
}

/// Whether `a` comes strictly before `b` in the order of columns.
pub open spec fn column_lt<C: ColumnType>(a: Column<C>, b: Column<C>) -> bool {
    column_ordering(a, b) == std::cmp::Ordering::Less
}

impl<C: ColumnType> Column<C> {
    pub fn new(index: usize, column_type: C) -> (r: Self)
        ensures
            r.index == index,
            r.column_type == column_type,
    {
        Column { column_type, index }
    }

    /// Index of this column.
    pub fn index(&self) -> (r: usize)
        ensures
            r == self.index,
    {
        self.index
    }

    /// Type of this column.
    pub fn column_type(&self) -> (r: &C)
        ensures
            *r == self.column_type,
    {
        &self.column_type
    }

    /// Expression that queries this column at a relative position.
    pub fn query_cell<F>(&self, at: Rotation) -> (r: Expression<F>)
        ensures
            r == query_expression::<F>(self.column_type.kind(), self.index, at),
    {
        self.column_type.query_cell(self.index, at)
    }

    /// Expression that queries this column at the current row.
    pub fn cur<F>(&self) -> (r: Expression<F>)
        ensures
            r == query_expression::<F>(self.column_type.kind(), self.index, Rotation(0)),
    {
        self.query_cell(Rotation::cur())
    }

    /// Expression that queries this column at the next row.
    pub fn next<F>(&self) -> (r: Expression<F>)
        ensures
            r == query_expression::<F>(self.column_type.kind(), self.index, Rotation(1)),
    {
        self.query_cell(Rotation::next())
    }

    /// Expression that queries this column at the previous row.
    pub fn prev<F>(&self) -> (r: Expression<F>)
        ensures
            r == query_expression::<F>(self.column_type.kind(), self.index, Rotation((-1) as i32)),
    {
        self.query_cell(Rotation::prev())
    }

    /// Expression that queries this column at the given rotation.
    pub fn rot<F>(&self, rotation: i32) -> (r: Expression<F>)
        ensures
            r == query_expression::<F>(self.column_type.kind(), self.index, Rotation(rotation)),
    {
        self.query_cell(Rotation(rotation))
    }
}

impl<C: ColumnType> PartialOrd for Column<C> {
    fn partial_cmp(&self, other: &Self) -> (r: Option<std::cmp::Ordering>) {
        let ra = rank_of(&self.column_type.to_any());
        let rb = rank_of(&other.column_type.to_any());
        if ra != rb {
            Some(compare_u64(ra as u64, rb as u64))
        } else {
            Some(compare_u64(self.index as u64, other.index as u64))
        }
    }
}

impl<C: ColumnType> vstd::std_specs::cmp::PartialOrdSpecImpl for Column<C> {
    open spec fn obeys_partial_cmp_spec() -> bool {
        true
    }

    open spec fn partial_cmp_spec(&self, other: &Self) -> Option<std::cmp::Ordering> {
        Some(column_ordering(*self, *other))
    }
}

/// The order of columns is a strict total order: irreflexive, transitive,
/// and any two distinct columns are comparable one way or the other.
/// Equal comparison holds exactly of equal columns.
pub proof fn lemma_column_order_total(a: Column<Any>, b: Column<Any>, c: Column<Any>)
    ensures
        !column_lt(a, a),
        column_lt(a, b) && column_lt(b, c) ==> column_lt(a, c),
        column_lt(a, b) ==> !column_lt(b, a),
        a != b ==> column_lt(a, b) || column_lt(b, a),
        column_ordering(a, b) == std::cmp::Ordering::Equal <==> a == b,
        column_ordering(a, b) == std::cmp::Ordering::Greater <==> column_lt(b, a),
{
    if kind_rank(a.column_type) == kind_rank(b.column_type) {
        match (a.column_type, b.column_type) {
            (Any::Advice(x), Any::Advice(y)) => {
                assert(x.phase.number() == y.phase.number());
                assert(x.phase == y.phase);
            },
            _ => {},
        }
    }
}

impl From<Column<Advice>> for Column<Any> {
    fn from(advice: Column<Advice>) -> (r: Column<Any>) {
        Column { column_type: Any::Advice(advice.column_type), index: advice.index }
    }
}

impl vstd::std_specs::convert::FromSpecImpl<Column<Advice>> for Column<Any> {
    open spec fn obeys_from_spec() -> bool {
        true
    }

    open spec fn from_spec(v: Column<Advice>) -> Column<Any> {
        Column { column_type: Any::Advice(v.column_type), index: v.index }
    }
}

impl From<Column<Fixed>> for Column<Any> {
    fn from(fixed: Column<Fixed>) -> (r: Column<Any>) {
        Column { column_type: Any::Fixed, index: fixed.index }
    }
}

impl vstd::std_specs::convert::FromSpecImpl<Column<Fixed>> for Column<Any> {
    open spec fn obeys_from_spec() -> bool {
        true
    }

    open spec fn from_spec(v: Column<Fixed>) -> Column<Any> {
        Column { column_type: Any::Fixed, index: v.index }
    }
}

impl From<Column<Instance>> for Column<Any> {
    fn from(instance: Column<Instance>) -> (r: Column<Any>) {
        Column { column_type: Any::Instance, index: instance.index }
    }
}

impl vstd::std_specs::convert::FromSpecImpl<Column<Instance>> for Column<Any> {
    open spec fn obeys_from_spec() -> bool {
        true
    }

    open spec fn from_spec(v: Column<Instance>) -> Column<Any> {
        Column { column_type: Any::Instance, index: v.index }
    }
}

/// Error of narrowing a column of any kind to a column type that does not
/// match its kind.
#[derive(Clone, Copy, Debug, PartialEq, Eq, Structural)]
pub struct KindMismatch;

impl Column<Any> {
    /// The advice column that this column is, if it is one.
    pub fn to_advice(&self) -> (r: Result<Column<Advice>, KindMismatch>)
        ensures
            match self.column_type {
                Any::Advice(a) => r == Ok::<Column<Advice>, KindMismatch>(
                    Column { column_type: a, index: self.index },
                ),
                _ => r == Err::<Column<Advice>, KindMismatch>(KindMismatch),
            },
    {
        match self.column_type {
            Any::Advice(a) => Ok(Column { column_type: a, index: self.index }),
            _ => Err(KindMismatch),
        }
    }

    /// The fixed column that this column is, if it is one.
    pub fn to_fixed(&self) -> (r: Result<Column<Fixed>, KindMismatch>)
        ensures
            self.column_type is Fixed ==> r == Ok::<Column<Fixed>, KindMismatch>(
                Column { column_type: Fixed, index: self.index },
            ),
            !(self.column_type is Fixed) ==> r == Err::<Column<Fixed>, KindMismatch>(KindMismatch),
    {
        match self.column_type {
            Any::Fixed => Ok(Column { column_type: Fixed, index: self.index }),
            _ => Err(KindMismatch),
        }
    }

    /// The instance column that this column is, if it is one.
    pub fn to_instance(&self) -> (r: Result<Column<Instance>, KindMismatch>)
        ensures
            self.column_type is Instance ==> r == Ok::<Column<Instance>, KindMismatch>(
                Column { column_type: Instance, index: self.index },
            ),
            !(self.column_type is Instance) ==> r == Err::<Column<Instance>, KindMismatch>(
                KindMismatch,
            ),
    {
        match self.column_type {
            Any::Instance => Ok(Column { column_type: Instance, index: self.index }),
            _ => Err(KindMismatch),
        }
    }
}

} // verus!
