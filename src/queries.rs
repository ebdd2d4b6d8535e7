use vstd::prelude::*;

use crate::column::{Advice, Any, Column, ColumnType, Fixed, Instance, Rotation};
use crate::expression::{AdviceQuery, Expression, ExpressionMid, FixedQuery, InstanceQuery};

verus! {

/// The query tables of the three column kinds: advice, instance, fixed.
pub type Tables = (
    Seq<(Column<Advice>, Rotation)>,
    Seq<(Column<Instance>, Rotation)>,
    Seq<(Column<Fixed>, Rotation)>,
);

/// `s` with `k` appended, unless `s` already holds it.
pub open spec fn add_key<K>(s: Seq<K>, k: K) -> Seq<K> {
    if s.contains(k) {
        s
    } else {
        s.push(k)
    }
}

/// No entry of `s` occurs twice.
pub open spec fn distinct<K>(s: Seq<K>) -> bool {
    forall|i: int, j: int| 0 <= i < s.len() && 0 <= j < s.len() && i != j ==> s[i] != s[j]
}

/// Every table holds each query at most once.
pub open spec fn tables_distinct(t: Tables) -> bool {
    distinct(t.0) && distinct(t.1) && distinct(t.2)
}

/// `a` is a prefix of `b`.
pub open spec fn is_prefix<K>(a: Seq<K>, b: Seq<K>) -> bool {
    a.len() <= b.len() && forall|i: int| 0 <= i < a.len() ==> b[i] == a[i]
}

/// Each table of `t` is a prefix of the same table of `u`.
pub open spec fn tables_extend(t: Tables, u: Tables) -> bool {
    is_prefix(t.0, u.0) && is_prefix(t.1, u.1) && is_prefix(t.2, u.2)
}

/// The table key of an advice query.
pub open spec fn advice_key(column_index: usize, rotation: Rotation, phase: crate::sealed::Phase) -> (
    Column<Advice>,
    Rotation,
) {
    (Column { column_type: Advice { phase }, index: column_index }, rotation)
}

/// The table key of an instance query.
pub open spec fn instance_key(column_index: usize, rotation: Rotation) -> (
    Column<Instance>,
    Rotation,
) {
    (Column { column_type: Instance, index: column_index }, rotation)
}

/// The table key of a fixed query.
pub open spec fn fixed_key(column_index: usize, rotation: Rotation) -> (Column<Fixed>, Rotation) {
    (Column { column_type: Fixed, index: column_index }, rotation)
}

/// The tables after recording, in order of first appearance, every query of
/// `e` that they do not hold yet; `e` is walked left to right, children
/// before parents.
pub open spec fn collect_expr<F>(t: Tables, e: ExpressionMid<F>) -> Tables
    decreases e,
{
    match e {
        ExpressionMid::Fixed(q) => (t.0, t.1, add_key(t.2, fixed_key(q.column_index, q.rotation))),
        ExpressionMid::Advice(q) => (
            add_key(t.0, advice_key(q.column_index, q.rotation, q.phase)),
            t.1,
            t.2,
        ),
        ExpressionMid::Instance(q) => (
            t.0,
            add_key(t.1, instance_key(q.column_index, q.rotation)),
            t.2,
        ),
        ExpressionMid::Negated(a) => collect_expr(t, *a),
        ExpressionMid::Sum(a, b) => collect_expr(collect_expr(t, *a), *b),
        ExpressionMid::Product(a, b) => collect_expr(collect_expr(t, *a), *b),
        ExpressionMid::Scaled(a, _) => collect_expr(t, *a),
        _ => t,
    }
}

/// The tables after collecting the expressions of `s` in order.
pub open spec fn collect_exprs<F>(t: Tables, s: Seq<ExpressionMid<F>>) -> Tables
    decreases s.len(),
{
    if s.len() == 0 {
        t
    } else {
        collect_expr(collect_exprs(t, s.drop_last()), s.last())
    }
}

/// Every query leaf of `e` carries the position of its key in `t`.
pub open spec fn indexed_in<F>(e: Expression<F>, t: Tables) -> bool
    decreases e,
{
    match e {
        Expression::Fixed(q) => q.index is Some
            && q.index.unwrap() < t.2.len()
            && t.2[q.index.unwrap() as int]
            == fixed_key(q.column_index, q.rotation),
        Expression::Advice(q) => q.index is Some
            && q.index.unwrap() < t.0.len()
            && t.0[q.index.unwrap() as int]
            == advice_key(q.column_index, q.rotation, q.phase),
        Expression::Instance(q) => q.index is Some
            && q.index.unwrap() < t.1.len()
            && t.1[q.index.unwrap() as int]
            == instance_key(q.column_index, q.rotation),
        Expression::Negated(a) => indexed_in(*a, t),
        Expression::Sum(a, b) => indexed_in(*a, t) && indexed_in(*b, t),
        Expression::Product(a, b) => indexed_in(*a, t) && indexed_in(*b, t),
        Expression::Scaled(a, _) => indexed_in(*a, t),
        _ => true,
    }
}

/// `e` is `m` with every query leaf indexed into `t`.
pub open spec fn indexes<F>(e: Expression<F>, m: ExpressionMid<F>, t: Tables) -> bool {
    e.spec_to_mid() == m && indexed_in(e, t)
}

pub proof fn lemma_add_key_extends<K>(s: Seq<K>, k: K)
    requires
        distinct(s),
    ensures
        is_prefix(s, add_key(s, k)),
        distinct(add_key(s, k)),
        add_key(s, k).contains(k),
{
    if !s.contains(k) {
        assert(s.push(k)[s.len() as int] == k);
    }
}

/// Collecting an expression only appends to the tables, and keeps every
/// table free of repeats.
pub proof fn lemma_collect_extends<F>(t: Tables, e: ExpressionMid<F>)
    requires
        tables_distinct(t),
    ensures
        tables_extend(t, collect_expr(t, e)),
        tables_distinct(collect_expr(t, e)),
    decreases e,
{
    match e {
        ExpressionMid::Fixed(q) => lemma_add_key_extends(t.2, fixed_key(q.column_index, q.rotation)),
        ExpressionMid::Advice(q) => lemma_add_key_extends(
            t.0,
            advice_key(q.column_index, q.rotation, q.phase),
        ),
        ExpressionMid::Instance(q) => lemma_add_key_extends(
            t.1,
            instance_key(q.column_index, q.rotation),
        ),
        ExpressionMid::Negated(a) => lemma_collect_extends(t, *a),
        ExpressionMid::Sum(a, b) => {
            lemma_collect_extends(t, *a);
            lemma_collect_extends(collect_expr(t, *a), *b);
        },
        ExpressionMid::Product(a, b) => {
            lemma_collect_extends(t, *a);
            lemma_collect_extends(collect_expr(t, *a), *b);
        },
        ExpressionMid::Scaled(a, _) => lemma_collect_extends(t, *a),
        _ => {},
    }
}

/// Collecting expressions in turn only appends to the tables.
pub proof fn lemma_collect_exprs_extends<F>(t: Tables, s: Seq<ExpressionMid<F>>)
    requires
        tables_distinct(t),
    ensures
        tables_extend(t, collect_exprs(t, s)),
        tables_distinct(collect_exprs(t, s)),
    decreases s.len(),
{
    if s.len() > 0 {
        lemma_collect_exprs_extends(t, s.drop_last());
        lemma_collect_extends(collect_exprs(t, s.drop_last()), s.last());
    }
}

/// Growth of tables is transitive.
pub proof fn lemma_tables_extend_trans(t: Tables, u: Tables, v: Tables)
    requires
        tables_extend(t, u),
        tables_extend(u, v),
    ensures
        tables_extend(t, v),
{
}

/// An index into tables stays valid once they have grown.
pub proof fn lemma_indexed_in_extends<F>(e: Expression<F>, t: Tables, u: Tables)
    requires
        indexed_in(e, t),
        tables_extend(t, u),
    ensures
        indexed_in(e, u),
    decreases e,
{
    match e {
        Expression::Negated(a) => lemma_indexed_in_extends(*a, t, u),
        Expression::Sum(a, b) => {
            lemma_indexed_in_extends(*a, t, u);
            lemma_indexed_in_extends(*b, t, u);
        },
        Expression::Product(a, b) => {
            lemma_indexed_in_extends(*a, t, u);
            lemma_indexed_in_extends(*b, t, u);
        },
        Expression::Scaled(a, _) => lemma_indexed_in_extends(*a, t, u),
        _ => {},
    }
}

/// Position of `(col, rot)` in `v`, appending it first if `v` does not hold it.
fn add_query<C: ColumnType>(v: &mut Vec<(Column<C>, Rotation)>, col: Column<C>, rot: Rotation) -> (r: usize)
    ensures
        final(v)@ == add_key(old(v)@, (col, rot)),
        r < final(v)@.len(),
        final(v)@[r as int] == (col, rot),
{
    let mut i: usize = 0;
    while i < v.len()
        invariant
            i <= v@.len(),
            forall|k: int| 0 <= k < i ==> v@[k] != (col, rot),
        decreases v@.len() - i,
    {
        let entry = v[i];
        if entry.0.index == col.index && entry.1.0 == rot.0
            && entry.0.column_type.to_any() == col.column_type.to_any() {
            proof {
                C::lemma_kind_injective(entry.0.column_type, col.column_type);
                assert(v@[i as int] == (col, rot));
                assert(v@.contains((col, rot)));
            }
            return i;
        }
        proof {
            if v@[i as int] == (col, rot) {
                assert(entry.0.column_type.kind() == col.column_type.kind());
            }
        }
        i = i + 1;
    }
    proof {
        assert(!v@.contains((col, rot)));
    }
    v.push((col, rot));
    v.len() - 1
}

/// Position of the first occurrence of `(col, rot)` in `v`.
pub fn find_query<C: ColumnType>(v: &Vec<(Column<C>, Rotation)>, col: Column<C>, rot: Rotation) -> (r: usize)
    requires
        v@.contains((col, rot)),
    ensures
        r < v@.len(),
        v@[r as int] == (col, rot),
        forall|k: int| 0 <= k < r ==> v@[k] != (col, rot),
{
    let mut i: usize = 0;
    while i < v.len()
        invariant
            i <= v@.len(),
            forall|k: int| 0 <= k < i ==> v@[k] != (col, rot),
        decreases v@.len() - i,
    {
        let entry = v[i];
        if entry.0.index == col.index && entry.1.0 == rot.0
            && entry.0.column_type.to_any() == col.column_type.to_any() {
            proof {
                C::lemma_kind_injective(entry.0.column_type, col.column_type);
            }
            return i;
        }
        proof {
            if v@[i as int] == (col, rot) {
                assert(entry.0.column_type.kind() == col.column_type.kind());
            }
        }
        i = i + 1;
    }
    proof {
        let k = choose|k: int| 0 <= k < v@.len() && v@[k] == (col, rot);
    }
    0
}

/// Indexing keeps the shape of an expression: an indexed expression of `m`
/// gives `m` back once its indices are dropped, and has the degree of `m`.
pub proof fn lemma_indexing_keeps_degree<F>(e: Expression<F>, m: ExpressionMid<F>, t: Tables)
    requires
        indexes(e, m, t),
    ensures
        e.spec_to_mid() == m,
        e.spec_degree() == m.spec_degree(),
        e.spec_to_mid().spec_degree() == e.spec_degree(),
{
    crate::expression::lemma_to_mid_degree(e);
}

/// Every query of `e` is in the tables `t`.
pub open spec fn keys_in<F>(e: ExpressionMid<F>, t: Tables) -> bool
    decreases e,
{
    match e {
        ExpressionMid::Fixed(q) => t.2.contains(fixed_key(q.column_index, q.rotation)),
        ExpressionMid::Advice(q) => t.0.contains(advice_key(q.column_index, q.rotation, q.phase)),
        ExpressionMid::Instance(q) => t.1.contains(instance_key(q.column_index, q.rotation)),
        ExpressionMid::Negated(a) => keys_in(*a, t),
        ExpressionMid::Sum(a, b) => keys_in(*a, t) && keys_in(*b, t),
        ExpressionMid::Product(a, b) => keys_in(*a, t) && keys_in(*b, t),
        ExpressionMid::Scaled(a, _) => keys_in(*a, t),
        _ => true,
    }
}

proof fn lemma_prefix_contains<K>(a: Seq<K>, b: Seq<K>, k: K)
    requires
        is_prefix(a, b),
        a.contains(k),
    ensures
        b.contains(k),
{
    let i = choose|i: int| 0 <= i < a.len() && a[i] == k;
    assert(b[i] == k);
}

proof fn lemma_keys_in_extends<F>(e: ExpressionMid<F>, t: Tables, u: Tables)
    requires
        keys_in(e, t),
        tables_extend(t, u),
    ensures
        keys_in(e, u),
    decreases e,
{
    match e {
        ExpressionMid::Fixed(q) => lemma_prefix_contains(t.2, u.2, fixed_key(q.column_index, q.rotation)),
        ExpressionMid::Advice(q) => lemma_prefix_contains(
            t.0,
            u.0,
            advice_key(q.column_index, q.rotation, q.phase),
        ),
        ExpressionMid::Instance(q) => lemma_prefix_contains(
            t.1,
            u.1,
            instance_key(q.column_index, q.rotation),
        ),
        ExpressionMid::Negated(a) => lemma_keys_in_extends(*a, t, u),
        ExpressionMid::Sum(a, b) => {
            lemma_keys_in_extends(*a, t, u);
            lemma_keys_in_extends(*b, t, u);
        },
        ExpressionMid::Product(a, b) => {
            lemma_keys_in_extends(*a, t, u);
            lemma_keys_in_extends(*b, t, u);
        },
        ExpressionMid::Scaled(a, _) => lemma_keys_in_extends(*a, t, u),
        _ => {},
    }
}

proof fn lemma_collect_holds_keys<F>(t: Tables, e: ExpressionMid<F>)
    requires
        tables_distinct(t),
    ensures
        keys_in(e, collect_expr(t, e)),
    decreases e,
{
    lemma_collect_extends(t, e);
    match e {
        ExpressionMid::Fixed(q) => lemma_add_key_extends(t.2, fixed_key(q.column_index, q.rotation)),
        ExpressionMid::Advice(q) => lemma_add_key_extends(
            t.0,
            advice_key(q.column_index, q.rotation, q.phase),
        ),
        ExpressionMid::Instance(q) => lemma_add_key_extends(
            t.1,
            instance_key(q.column_index, q.rotation),
        ),
        ExpressionMid::Negated(a) => lemma_collect_holds_keys(t, *a),
        ExpressionMid::Sum(a, b) => {
            let u = collect_expr(t, *a);
            lemma_collect_holds_keys(t, *a);
            lemma_collect_extends(t, *a);
            lemma_collect_extends(u, *b);
            lemma_collect_holds_keys(u, *b);
            lemma_keys_in_extends(*a, u, collect_expr(u, *b));
        },
        ExpressionMid::Product(a, b) => {
            let u = collect_expr(t, *a);
            lemma_collect_holds_keys(t, *a);
            lemma_collect_extends(t, *a);
            lemma_collect_extends(u, *b);
            lemma_collect_holds_keys(u, *b);
            lemma_keys_in_extends(*a, u, collect_expr(u, *b));
        },
        ExpressionMid::Scaled(a, _) => lemma_collect_holds_keys(t, *a),
        _ => {},
    }
}

proof fn lemma_collect_known_keys<F>(t: Tables, e: ExpressionMid<F>)
    requires
        keys_in(e, t),
    ensures
        collect_expr(t, e) == t,
    decreases e,
{
    match e {
        ExpressionMid::Negated(a) => lemma_collect_known_keys(t, *a),
        ExpressionMid::Sum(a, b) => {
            lemma_collect_known_keys(t, *a);
            lemma_collect_known_keys(t, *b);
        },
        ExpressionMid::Product(a, b) => {
            lemma_collect_known_keys(t, *a);
            lemma_collect_known_keys(t, *b);
        },
        ExpressionMid::Scaled(a, _) => lemma_collect_known_keys(t, *a),
        _ => {},
    }
}

/// Every query of the expressions of `s` is in the tables `t`.
pub open spec fn all_keys_in<F>(s: Seq<ExpressionMid<F>>, t: Tables) -> bool {
    forall|i: int| 0 <= i < s.len() ==> keys_in(#[trigger] s[i], t)
}

proof fn lemma_collect_exprs_holds_keys<F>(t: Tables, s: Seq<ExpressionMid<F>>)
    requires
        tables_distinct(t),
    ensures
        all_keys_in(s, collect_exprs(t, s)),
    decreases s.len(),
{
    if s.len() > 0 {
        let p = s.drop_last();
        let u = collect_exprs(t, p);
        lemma_collect_exprs_holds_keys(t, p);
        lemma_collect_exprs_extends(t, p);
        lemma_collect_extends(u, s.last());
        lemma_collect_holds_keys(u, s.last());
        assert forall|i: int| 0 <= i < s.len() implies keys_in(#[trigger] s[i], collect_exprs(t, s)) by {
            if i < s.len() - 1 {
                assert(s[i] == p[i]);
                lemma_keys_in_extends(s[i], u, collect_exprs(t, s));
            }
        }
    }
}

proof fn lemma_collect_exprs_known_keys<F>(t: Tables, s: Seq<ExpressionMid<F>>)
    requires
        all_keys_in(s, t),
    ensures
        collect_exprs(t, s) == t,
    decreases s.len(),
{
    if s.len() > 0 {
        let p = s.drop_last();
        assert forall|i: int| 0 <= i < p.len() implies keys_in(#[trigger] p[i], t) by {
            assert(p[i] == s[i]);
        }
        lemma_collect_exprs_known_keys(t, p);
        lemma_collect_known_keys(t, s.last());
    }
}

/// The collector is idempotent: collecting the same expressions again, in
/// the same order, into the tables they produced adds no query, so every
/// query keeps the index it was first given.
pub proof fn lemma_collect_idempotent<F>(t: Tables, s: Seq<ExpressionMid<F>>)
    requires
        tables_distinct(t),
    ensures
        collect_exprs(collect_exprs(t, s), s) == collect_exprs(t, s),
{
    lemma_collect_exprs_holds_keys(t, s);
    lemma_collect_exprs_known_keys(collect_exprs(t, s), s);
}

/// Query tables under construction, in order of first appearance.
pub(crate) struct QueriesMap {
    pub(crate) advice: Vec<(Column<Advice>, Rotation)>,
    pub(crate) instance: Vec<(Column<Instance>, Rotation)>,
    pub(crate) fixed: Vec<(Column<Fixed>, Rotation)>,
}

impl QueriesMap {
    pub(crate) open spec fn tables(&self) -> Tables {
        (self.advice@, self.instance@, self.fixed@)
    }

    pub(crate) fn new() -> (r: Self)
        ensures
            r.tables() == (
                Seq::<(Column<Advice>, Rotation)>::empty(),
                Seq::<(Column<Instance>, Rotation)>::empty(),
                Seq::<(Column<Fixed>, Rotation)>::empty(),
            ),
    {
        QueriesMap { advice: Vec::new(), instance: Vec::new(), fixed: Vec::new() }
    }

    pub(crate) fn add_advice(&mut self, col: Column<Advice>, rot: Rotation) -> (r: usize)
        ensures
            final(self).tables() == (add_key(old(self).advice@, (col, rot)), old(self).instance@, old(self).fixed@),
            r < final(self).advice@.len(),
            final(self).advice@[r as int] == (col, rot),
    {
        add_query(&mut self.advice, col, rot)
    }

    pub(crate) fn add_instance(&mut self, col: Column<Instance>, rot: Rotation) -> (r: usize)
        ensures
            final(self).tables() == (old(self).advice@, add_key(old(self).instance@, (col, rot)), old(self).fixed@),
            r < final(self).instance@.len(),
            final(self).instance@[r as int] == (col, rot),
    {
        add_query(&mut self.instance, col, rot)
    }

    pub(crate) fn add_fixed(&mut self, col: Column<Fixed>, rot: Rotation) -> (r: usize)
        ensures
            final(self).tables() == (old(self).advice@, old(self).instance@, add_key(old(self).fixed@, (col, rot))),
            r < final(self).fixed@.len(),
            final(self).fixed@[r as int] == (col, rot),
    {
        add_query(&mut self.fixed, col, rot)
    }

    /// Records the queries of `expr` and returns it with indexed leaves.
    pub(crate) fn as_expression<F: Copy>(&mut self, expr: &ExpressionMid<F>) -> (r: Expression<F>)
        requires
            tables_distinct(old(self).tables()),
        ensures
            final(self).tables() == collect_expr(old(self).tables(), *expr),
            tables_distinct(final(self).tables()),
            indexes(r, *expr, final(self).tables()),
        decreases expr,
    {
        proof {
            lemma_collect_extends(self.tables(), *expr);
        }
        match expr {
            ExpressionMid::Constant(c) => Expression::Constant(*c),
            ExpressionMid::Fixed(query) => {
                let index = self.add_fixed(Column::new(query.column_index, Fixed), query.rotation);
                Expression::Fixed(
                    FixedQuery {
                        index: Some(index),
                        column_index: query.column_index,
                        rotation: query.rotation,
                    },
                )
            },
            ExpressionMid::Advice(query) => {
                let index = self.add_advice(
                    Column::new(query.column_index, Advice { phase: query.phase }),
                    query.rotation,
                );
                Expression::Advice(
                    AdviceQuery {
                        index: Some(index),
                        column_index: query.column_index,
                        rotation: query.rotation,
                        phase: query.phase,
                    },
                )
            },
            ExpressionMid::Instance(query) => {
                let index = self.add_instance(
                    Column::new(query.column_index, Instance),
                    query.rotation,
                );
                Expression::Instance(
                    InstanceQuery {
                        index: Some(index),
                        column_index: query.column_index,
                        rotation: query.rotation,
                    },
                )
            },
            ExpressionMid::Challenge(c) => Expression::Challenge(*c),
            ExpressionMid::Negated(e) => Expression::Negated(Box::new(self.as_expression(e))),
            ExpressionMid::Sum(lhs, rhs) => {
                let l = self.as_expression(lhs);
                let ghost t1 = self.tables();
                let r = self.as_expression(rhs);
                proof {
                    lemma_collect_extends(t1, **rhs);
                    lemma_indexed_in_extends(l, t1, self.tables());
                }
                Expression::Sum(Box::new(l), Box::new(r))
            },
            ExpressionMid::Product(lhs, rhs) => {
                let l = self.as_expression(lhs);
                let ghost t1 = self.tables();
                let r = self.as_expression(rhs);
                proof {
                    lemma_collect_extends(t1, **rhs);
                    lemma_indexed_in_extends(l, t1, self.tables());
                }
                Expression::Product(Box::new(l), Box::new(r))
            },
            ExpressionMid::Scaled(e, c) => Expression::Scaled(Box::new(self.as_expression(e)), *c),
        }
    }

    /// Records the queries of every expression of `exprs`, in order, and
    /// returns them with indexed leaves.
    pub(crate) fn as_expressions<F: Copy>(&mut self, exprs: &Vec<ExpressionMid<F>>) -> (r: Vec<Expression<F>>)
        requires
            tables_distinct(old(self).tables()),
        ensures
            final(self).tables() == collect_exprs(old(self).tables(), exprs@),
            tables_distinct(final(self).tables()),
            r@.len() == exprs@.len(),
            forall|i: int| 0 <= i < r@.len() ==> indexes(#[trigger] r@[i], exprs@[i], final(self).tables()),
    {
        let ghost t0 = self.tables();
        let mut out: Vec<Expression<F>> = Vec::new();
        let mut i: usize = 0;
        while i < exprs.len()
            invariant
                i <= exprs@.len(),
                out@.len() == i,
                self.tables() == collect_exprs(t0, exprs@.subrange(0, i as int)),
                tables_distinct(self.tables()),
                forall|k: int| 0 <= k < i ==> indexes(#[trigger] out@[k], exprs@[k], self.tables()),
            decreases exprs@.len() - i,
        {
            let ghost before = self.tables();
            let e = self.as_expression(&exprs[i]);
            proof {
                lemma_collect_extends(before, exprs@[i as int]);
                assert forall|k: int| 0 <= k < i implies indexes(#[trigger] out@[k], exprs@[k], self.tables()) by {
                    lemma_indexed_in_extends(out@[k], before, self.tables());
                }
                assert(exprs@.subrange(0, i + 1).drop_last() =~= exprs@.subrange(0, i as int));
            }
            out.push(e);
            i = i + 1;
        }
        proof {
            assert(exprs@.subrange(0, exprs@.len() as int) =~= exprs@);
        }
        out
    }
}

/// The tables after recording a current-row query of each column of `cols`,
/// in order.
pub open spec fn collect_columns(t: Tables, cols: Seq<Column<Any>>) -> Tables
    decreases cols.len(),
{
    if cols.len() == 0 {
        t
    } else {
        let u = collect_columns(t, cols.drop_last());
        let c = cols.last();
        match c.column_type {
            Any::Instance => (u.0, add_key(u.1, instance_key(c.index, Rotation(0))), u.2),
            Any::Fixed => (u.0, u.1, add_key(u.2, fixed_key(c.index, Rotation(0)))),
            Any::Advice(a) => (add_key(u.0, advice_key(c.index, Rotation(0), a.phase)), u.1, u.2),
        }
    }
}

/// Collecting two runs of expressions one after the other is collecting
/// their concatenation.
pub proof fn lemma_collect_exprs_append<F>(t: Tables, a: Seq<ExpressionMid<F>>, b: Seq<ExpressionMid<F>>)
    ensures
        collect_exprs(t, a + b) == collect_exprs(collect_exprs(t, a), b),
    decreases b.len(),
{
    if b.len() == 0 {
        assert(a + b =~= a);
    } else {
        lemma_collect_exprs_append(t, a, b.drop_last());
        assert((a + b).drop_last() =~= a + b.drop_last());
        assert((a + b).last() == b.last());
    }
}

/// Collecting columns only appends to the tables.
pub proof fn lemma_collect_columns_extends(t: Tables, cols: Seq<Column<Any>>)
    requires
        tables_distinct(t),
    ensures
        tables_extend(t, collect_columns(t, cols)),
        tables_distinct(collect_columns(t, cols)),
    decreases cols.len(),
{
    if cols.len() > 0 {
        lemma_collect_columns_extends(t, cols.drop_last());
        let u = collect_columns(t, cols.drop_last());
        let c = cols.last();
        match c.column_type {
            Any::Instance => lemma_add_key_extends(u.1, instance_key(c.index, Rotation(0))),
            Any::Fixed => lemma_add_key_extends(u.2, fixed_key(c.index, Rotation(0))),
            Any::Advice(a) => lemma_add_key_extends(u.0, advice_key(c.index, Rotation(0), a.phase)),
        }
    }
}

/// Each expression of `s` is the one of `m` at the same position, indexed
/// into `t`.
pub open spec fn all_indexed<F>(s: Seq<Expression<F>>, m: Seq<ExpressionMid<F>>, t: Tables) -> bool {
    s.len() == m.len() && forall|i: int| 0 <= i < s.len() ==> indexes(#[trigger] s[i], m[i], t)
}

/// Indices into tables stay valid once they have grown.
pub proof fn lemma_all_indexed_extends<F>(s: Seq<Expression<F>>, m: Seq<ExpressionMid<F>>, t: Tables, u: Tables)
    requires
        all_indexed(s, m, t),
        tables_extend(t, u),
    ensures
        all_indexed(s, m, u),
{
    assert forall|i: int| 0 <= i < s.len() implies indexes(#[trigger] s[i], m[i], u) by {
        lemma_indexed_in_extends(s[i], t, u);
    }
}

/// Number of advice queries in `s` on the column of index `c`.
pub open spec fn count_queries(s: Seq<(Column<Advice>, Rotation)>, c: int) -> nat
    decreases s.len(),
{
    if s.len() == 0 {
        0
    } else {
        count_queries(s.drop_last(), c) + if s.last().0.index == c {
            1nat
        } else {
            0nat
        }
    }
}

proof fn lemma_count_bounded(s: Seq<(Column<Advice>, Rotation)>, c: int)
    ensures
        count_queries(s, c) <= s.len(),
    decreases s.len(),
{
    if s.len() > 0 {
        lemma_count_bounded(s.drop_last(), c);
    }
}

/// Per advice column, the number of distinct queries on it.
pub fn count_advice_queries(advice: &Vec<(Column<Advice>, Rotation)>, num_advice_columns: usize) -> (r: Vec<usize>)
    requires
        forall|j: int| 0 <= j < advice@.len() ==> (#[trigger] advice@[j]).0.index < num_advice_columns,
    ensures
        r@.len() == num_advice_columns,
        forall|c: int| 0 <= c < num_advice_columns ==> #[trigger] r@[c] == count_queries(advice@, c),
{
    let mut counts: Vec<usize> = Vec::new();
    let mut c: usize = 0;
    while c < num_advice_columns
        invariant
            c <= num_advice_columns,
            counts@.len() == c,
            forall|k: int| 0 <= k < c ==> #[trigger] counts@[k] == 0,
        decreases num_advice_columns - c,
    {
        counts.push(0);
        c = c + 1;
    }
    let mut j: usize = 0;
    while j < advice.len()
        invariant
            j <= advice@.len(),
            counts@.len() == num_advice_columns,
            forall|i: int| 0 <= i < advice@.len() ==> (#[trigger] advice@[i]).0.index < num_advice_columns,
            forall|k: int| 0 <= k < num_advice_columns ==> #[trigger] counts@[k] == count_queries(advice@.subrange(0, j as int), k),
        decreases advice@.len() - j,
    {
        let idx = advice[j].0.index;
        proof {
            assert(advice@.subrange(0, j + 1).drop_last() =~= advice@.subrange(0, j as int));
            lemma_count_bounded(advice@.subrange(0, j as int), idx as int);
        }
        counts.set(idx, counts[idx] + 1);
        j = j + 1;
    }
    proof {
        assert(advice@.subrange(0, advice@.len() as int) =~= advice@);
    }
    counts
}

/// The distinct queries of a circuit, per column kind, in order of first
/// appearance, and per advice column the number of them on it.
pub struct Queries {
    pub advice: Vec<(Column<Advice>, Rotation)>,
    pub instance: Vec<(Column<Instance>, Rotation)>,
    pub fixed: Vec<(Column<Fixed>, Rotation)>,
    pub num_advice_queries: Vec<usize>,
}

} // verus!
