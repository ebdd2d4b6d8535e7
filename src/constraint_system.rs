use vstd::prelude::*;
use vstd::string::StringExecFns;

use crate::column::{Advice, Any, Column, Fixed, Instance, Rotation};
use crate::expression::{max_degree, Expression, ExpressionMid};
use crate::gate::{Gate, GateV2Backend};
use crate::lookup;
use crate::permutation;
use crate::queries::{
    all_indexed, collect_columns, collect_exprs, count_advice_queries,
    count_queries, fixed_key, indexes, instance_key, lemma_all_indexed_extends,
    lemma_collect_columns_extends, lemma_collect_exprs_append, lemma_collect_exprs_extends, lemma_tables_extend_trans,
    find_query, tables_distinct, tables_extend, Queries, QueriesMap, Tables,
};
use crate::sealed;
use crate::shuffle;

verus! {

/// The polynomials of the frontend's gates, in order.
pub open spec fn gate_polys<F>(gates: Seq<GateV2Backend<F>>) -> Seq<ExpressionMid<F>> {
    Seq::new(gates.len(), |i: int| gates[i].poly)
}

/// The expressions of the frontend's lookups in order: for each lookup its
/// input expressions, then its table expressions.
pub open spec fn lookup_exprs<F>(ls: Seq<lookup::ArgumentV2<F>>) -> Seq<ExpressionMid<F>>
    decreases ls.len(),
{
    if ls.len() == 0 {
        Seq::empty()
    } else {
        lookup_exprs(ls.drop_last()) + ls.last().input_expressions@ + ls.last().table_expressions@
    }
}

/// The expressions of the frontend's shuffles in order: for each shuffle its
/// input expressions, then its shuffle expressions.
pub open spec fn shuffle_exprs<F>(ss: Seq<shuffle::ArgumentV2<F>>) -> Seq<ExpressionMid<F>>
    decreases ss.len(),
{
    if ss.len() == 0 {
        Seq::empty()
    } else {
        shuffle_exprs(ss.drop_last()) + ss.last().input_expressions@
            + ss.last().shuffle_expressions@
    }
}

/// Empty query tables.
pub open spec fn no_tables() -> Tables {
    (
        Seq::<(Column<Advice>, Rotation)>::empty(),
        Seq::<(Column<Instance>, Rotation)>::empty(),
        Seq::<(Column<Fixed>, Rotation)>::empty(),
    )
}

/// Each gate of `out` is the one of `src` at the same position, with its
/// polynomial indexed into `t`.
pub open spec fn gates_indexed<F>(out: Seq<Gate<F>>, src: Seq<GateV2Backend<F>>, t: Tables) -> bool {
    &&& out.len() == src.len()
    &&& forall|k: int|
        0 <= k < out.len() ==> {
            &&& (#[trigger] out[k]).name@ == src[k].name@
            &&& out[k].constraint_names@.len() == 0
            &&& out[k].queried_cells@.len() == 0
            &&& out[k].polys@.len() == 1
            &&& indexes(out[k].polys@[0], src[k].poly, t)
        }
}

/// Each lookup of `out` is the lookup of `src` at the same position, with its
/// expressions indexed into `t`.
pub open spec fn lookups_indexed<F>(
    out: Seq<lookup::Argument<F>>,
    src: Seq<lookup::ArgumentV2<F>>,
    t: Tables,
) -> bool {
    &&& out.len() == src.len()
    &&& forall|k: int|
        0 <= k < out.len() ==> {
            &&& (#[trigger] out[k]).name@ == src[k].name@
            &&& all_indexed(out[k].input_expressions@, src[k].input_expressions@, t)
            &&& all_indexed(out[k].table_expressions@, src[k].table_expressions@, t)
        }
}

/// Each shuffle of `out` is the shuffle of `src` at the same position, with
/// its expressions indexed into `t`.
pub open spec fn shuffles_indexed<F>(
    out: Seq<shuffle::Argument<F>>,
    src: Seq<shuffle::ArgumentV2<F>>,
    t: Tables,
) -> bool {
    &&& out.len() == src.len()
    &&& forall|k: int|
        0 <= k < out.len() ==> {
            &&& (#[trigger] out[k]).name@ == src[k].name@
            &&& all_indexed(out[k].input_expressions@, src[k].input_expressions@, t)
            &&& all_indexed(out[k].shuffle_expressions@, src[k].shuffle_expressions@, t)
        }
}

proof fn lemma_gates_indexed_extends<F>(out: Seq<Gate<F>>, src: Seq<GateV2Backend<F>>, t: Tables, u: Tables)
    requires
        gates_indexed(out, src, t),
        tables_extend(t, u),
    ensures
        gates_indexed(out, src, u),
{
    assert forall|k: int| 0 <= k < out.len() implies indexes((#[trigger] out[k]).polys@[0], src[k].poly, u) by {
        lemma_all_indexed_extends(seq![out[k].polys@[0]], seq![src[k].poly], t, u);
        assert(seq![out[k].polys@[0]][0] == out[k].polys@[0]);
    }
}

proof fn lemma_lookups_indexed_extends<F>(
    out: Seq<lookup::Argument<F>>,
    src: Seq<lookup::ArgumentV2<F>>,
    t: Tables,
    u: Tables,
)
    requires
        lookups_indexed(out, src, t),
        tables_extend(t, u),
    ensures
        lookups_indexed(out, src, u),
{
    assert forall|k: int| 0 <= k < out.len() implies {
        &&& all_indexed((#[trigger] out[k]).input_expressions@, src[k].input_expressions@, u)
        &&& all_indexed(out[k].table_expressions@, src[k].table_expressions@, u)
    } by {
        lemma_all_indexed_extends(out[k].input_expressions@, src[k].input_expressions@, t, u);
        lemma_all_indexed_extends(out[k].table_expressions@, src[k].table_expressions@, t, u);
    }
}

proof fn lemma_shuffles_indexed_extends<F>(
    out: Seq<shuffle::Argument<F>>,
    src: Seq<shuffle::ArgumentV2<F>>,
    t: Tables,
    u: Tables,
)
    requires
        shuffles_indexed(out, src, t),
        tables_extend(t, u),
    ensures
        shuffles_indexed(out, src, u),
{
    assert forall|k: int| 0 <= k < out.len() implies {
        &&& all_indexed((#[trigger] out[k]).input_expressions@, src[k].input_expressions@, u)
        &&& all_indexed(out[k].shuffle_expressions@, src[k].shuffle_expressions@, u)
    } by {
        lemma_all_indexed_extends(out[k].input_expressions@, src[k].input_expressions@, t, u);
        lemma_all_indexed_extends(out[k].shuffle_expressions@, src[k].shuffle_expressions@, t, u);
    }
}

/// A description of the circuit as the frontend produces it: columns, gates
/// over expressions with unindexed queries, and arguments.
#[verifier::reject_recursive_types(F)]
#[derive(Debug)]
pub struct ConstraintSystemV2Backend<F> {
    pub num_fixed_columns: usize,
    pub num_advice_columns: usize,
    pub num_instance_columns: usize,
    pub num_challenges: usize,
    /// Contains the index of each advice column that is left unblinded.
    pub unblinded_advice_columns: Vec<usize>,
    /// Contains the phase for each advice column.
    pub advice_column_phase: Vec<u8>,
    /// Contains the phase for each challenge.
    pub challenge_phase: Vec<u8>,
    pub gates: Vec<GateV2Backend<F>>,
    /// Permutation argument for performing equality constraints.
    pub permutation: permutation::Argument,
    /// Lookup arguments.
    pub lookups: Vec<lookup::ArgumentV2<F>>,
    /// Shuffle arguments.
    pub shuffles: Vec<shuffle::ArgumentV2<F>>,
    /// Human readable names of columns, for diagnostics.
    pub general_column_annotations: Vec<(Column<Any>, String)>,
}

impl<F> ConstraintSystemV2Backend<F> {
    /// The query tables after the gates.
    pub open spec fn tables_after_gates(&self) -> Tables {
        collect_exprs(no_tables(), gate_polys(self.gates@))
    }

    /// The query tables after the gates and the lookups.
    pub open spec fn tables_after_lookups(&self) -> Tables {
        collect_exprs(self.tables_after_gates(), lookup_exprs(self.lookups@))
    }

    /// The query tables after the gates, the lookups and the shuffles.
    pub open spec fn tables_after_shuffles(&self) -> Tables {
        collect_exprs(self.tables_after_lookups(), shuffle_exprs(self.shuffles@))
    }

    /// The query tables of the circuit: the queries of the gates, then of the
    /// lookups, then of the shuffles, then a current-row query of each column
    /// of the permutation argument, each kept at its first appearance.
    pub open spec fn collected_tables(&self) -> Tables {
        collect_columns(self.tables_after_shuffles(), self.permutation@)
    }

    /// Every advice query of the circuit is on a declared advice column.
    pub open spec fn advice_columns_declared(&self) -> bool {
        forall|j: int|
            0 <= j < self.collected_tables().0.len() ==> (#[trigger] self.collected_tables().0[j]).0.index
                < self.num_advice_columns
    }
}

impl<F: Copy> ConstraintSystemV2Backend<F> {
    /// Collect queries used in gates while mapping those gates to equivalent
    /// ones with indexed query references in the expressions.
    fn collect_queries_gates(&self, queries: &mut QueriesMap) -> (r: Vec<Gate<F>>)
        requires
            old(queries).tables() == no_tables(),
        ensures
            final(queries).tables() == self.tables_after_gates(),
            tables_distinct(final(queries).tables()),
            gates_indexed(r@, self.gates@, final(queries).tables()),
    {
        let ghost polys = gate_polys(self.gates@);
        let mut out: Vec<Gate<F>> = Vec::new();
        let mut i: usize = 0;
        while i < self.gates.len()
            invariant
                i <= self.gates@.len(),
                polys == gate_polys(self.gates@),
                queries.tables() == collect_exprs(no_tables(), polys.subrange(0, i as int)),
                tables_distinct(queries.tables()),
                gates_indexed(out@, self.gates@.subrange(0, i as int), queries.tables()),
            decreases self.gates@.len() - i,
        {
            let ghost before = queries.tables();
            let gate = &self.gates[i];
            let e = queries.as_expression(&gate.poly);
            proof {
                lemma_collect_exprs_extends(before, seq![gate.poly]);
                assert(collect_exprs(before, seq![gate.poly]) == queries.tables()) by {
                    assert(seq![gate.poly].drop_last() =~= Seq::<ExpressionMid<F>>::empty());
                    assert(collect_exprs(before, Seq::<ExpressionMid<F>>::empty()) == before);
                    assert(seq![gate.poly].last() == gate.poly);
                }
                assert forall|k: int| 0 <= k < out@.len() implies indexes(
                    (#[trigger] out@[k]).polys@[0],
                    self.gates@[k].poly,
                    queries.tables(),
                ) by {
                    assert(self.gates@.subrange(0, i as int)[k] == self.gates@[k]);
                    lemma_all_indexed_extends(
                        seq![out@[k].polys@[0]],
                        seq![self.gates@[k].poly],
                        before,
                        queries.tables(),
                    );
                    assert(seq![out@[k].polys@[0]][0] == out@[k].polys@[0]);
                }
                assert(polys.subrange(0, i + 1).drop_last() =~= polys.subrange(0, i as int));
            }
            let mut ps: Vec<Expression<F>> = Vec::new();
            ps.push(e);
            out.push(
                Gate {
                    name: gate.name.clone(),
                    constraint_names: Vec::new(),
                    polys: ps,
                    queried_cells: Vec::new(),
                },
            );
            proof {
                assert(ps@[0] == e);
                assert forall|k: int| 0 <= k < out@.len() implies {
                    &&& (#[trigger] out@[k]).name@ == self.gates@.subrange(0, i + 1)[k].name@
                    &&& out@[k].constraint_names@.len() == 0
                    &&& out@[k].queried_cells@.len() == 0
                    &&& out@[k].polys@.len() == 1
                    &&& indexes(out@[k].polys@[0], self.gates@.subrange(0, i + 1)[k].poly, queries.tables())
                } by {
                    assert(self.gates@.subrange(0, i + 1)[k] == self.gates@[k]);
                    if k < i {
                        assert(self.gates@.subrange(0, i as int)[k] == self.gates@[k]);
                    }
                }
            }
            i = i + 1;
        }
        proof {
            assert(polys.subrange(0, self.gates@.len() as int) =~= polys);
            assert(self.gates@.subrange(0, self.gates@.len() as int) =~= self.gates@);
        }
        out
    }

    /// Collect queries used in lookups while mapping those lookups to
    /// equivalent ones with indexed query references in the expressions.
    fn collect_queries_lookups(&self, queries: &mut QueriesMap) -> (r: Vec<lookup::Argument<F>>)
        requires
            tables_distinct(old(queries).tables()),
        ensures
            final(queries).tables() == collect_exprs(old(queries).tables(), lookup_exprs(self.lookups@)),
            tables_distinct(final(queries).tables()),
            lookups_indexed(r@, self.lookups@, final(queries).tables()),
    {
        let ghost t0 = queries.tables();
        let mut out: Vec<lookup::Argument<F>> = Vec::new();
        let mut i: usize = 0;
        while i < self.lookups.len()
            invariant
                i <= self.lookups@.len(),
                queries.tables() == collect_exprs(t0, lookup_exprs(self.lookups@.subrange(0, i as int))),
                tables_distinct(queries.tables()),
                lookups_indexed(out@, self.lookups@.subrange(0, i as int), queries.tables()),
            decreases self.lookups@.len() - i,
        {
            let ghost before = queries.tables();
            let arg = &self.lookups[i];
            let inputs = queries.as_expressions(&arg.input_expressions);
            let ghost middle = queries.tables();
            let others = queries.as_expressions(&arg.table_expressions);
            proof {
                let after = queries.tables();
                lemma_collect_exprs_extends(before, arg.input_expressions@);
                lemma_collect_exprs_extends(middle, arg.table_expressions@);
                lemma_tables_extend_trans(before, middle, after);
                lemma_all_indexed_extends(inputs@, arg.input_expressions@, middle, after);
                assert forall|k: int| 0 <= k < out@.len() implies {
                    &&& all_indexed(
                        (#[trigger] out@[k]).input_expressions@,
                        self.lookups@[k].input_expressions@,
                        after,
                    )
                    &&& all_indexed(out@[k].table_expressions@, self.lookups@[k].table_expressions@, after)
                } by {
                    assert(self.lookups@.subrange(0, i as int)[k] == self.lookups@[k]);
                    lemma_all_indexed_extends(
                        out@[k].input_expressions@,
                        self.lookups@[k].input_expressions@,
                        before,
                        after,
                    );
                    lemma_all_indexed_extends(
                        out@[k].table_expressions@,
                        self.lookups@[k].table_expressions@,
                        before,
                        after,
                    );
                }
                let prev = lookup_exprs(self.lookups@.subrange(0, i as int));
                assert(self.lookups@.subrange(0, i + 1).drop_last() =~= self.lookups@.subrange(0, i as int));
                assert(lookup_exprs(self.lookups@.subrange(0, i + 1)) == prev + arg.input_expressions@
                    + arg.table_expressions@);
                lemma_collect_exprs_append(t0, prev + arg.input_expressions@, arg.table_expressions@);
                lemma_collect_exprs_append(t0, prev, arg.input_expressions@);
            }
            out.push(
                lookup::Argument {
                    name: arg.name.clone(),
                    input_expressions: inputs,
                    table_expressions: others,
                },
            );
            proof {
                assert forall|k: int| 0 <= k < out@.len() implies {
                    &&& (#[trigger] out@[k]).name@ == self.lookups@.subrange(0, i + 1)[k].name@
                    &&& all_indexed(
                        out@[k].input_expressions@,
                        self.lookups@.subrange(0, i + 1)[k].input_expressions@,
                        queries.tables(),
                    )
                    &&& all_indexed(
                        out@[k].table_expressions@,
                        self.lookups@.subrange(0, i + 1)[k].table_expressions@,
                        queries.tables(),
                    )
                } by {
                    assert(self.lookups@.subrange(0, i + 1)[k] == self.lookups@[k]);
                    if k < i {
                        assert(self.lookups@.subrange(0, i as int)[k] == self.lookups@[k]);
                    }
                }
            }
            i = i + 1;
        }
        proof {
            assert(self.lookups@.subrange(0, self.lookups@.len() as int) =~= self.lookups@);
        }
        out
    }

    /// Collect queries used in shuffles while mapping those shuffles to
    /// equivalent ones with indexed query references in the expressions.
    fn collect_queries_shuffles(&self, queries: &mut QueriesMap) -> (r: Vec<shuffle::Argument<F>>)
        requires
            tables_distinct(old(queries).tables()),
        ensures
            final(queries).tables() == collect_exprs(old(queries).tables(), shuffle_exprs(self.shuffles@)),
            tables_distinct(final(queries).tables()),
            shuffles_indexed(r@, self.shuffles@, final(queries).tables()),
    {
        let ghost t0 = queries.tables();
        let mut out: Vec<shuffle::Argument<F>> = Vec::new();
        let mut i: usize = 0;
        while i < self.shuffles.len()
            invariant
                i <= self.shuffles@.len(),
                queries.tables() == collect_exprs(t0, shuffle_exprs(self.shuffles@.subrange(0, i as int))),
                tables_distinct(queries.tables()),
                shuffles_indexed(out@, self.shuffles@.subrange(0, i as int), queries.tables()),
            decreases self.shuffles@.len() - i,
        {
            let ghost before = queries.tables();
            let arg = &self.shuffles[i];
            let inputs = queries.as_expressions(&arg.input_expressions);
            let ghost middle = queries.tables();
            let others = queries.as_expressions(&arg.shuffle_expressions);
            proof {
                let after = queries.tables();
                lemma_collect_exprs_extends(before, arg.input_expressions@);
                lemma_collect_exprs_extends(middle, arg.shuffle_expressions@);
                lemma_tables_extend_trans(before, middle, after);
                lemma_all_indexed_extends(inputs@, arg.input_expressions@, middle, after);
                assert forall|k: int| 0 <= k < out@.len() implies {
                    &&& all_indexed(
                        (#[trigger] out@[k]).input_expressions@,
                        self.shuffles@[k].input_expressions@,
                        after,
                    )
                    &&& all_indexed(out@[k].shuffle_expressions@, self.shuffles@[k].shuffle_expressions@, after)
                } by {
                    assert(self.shuffles@.subrange(0, i as int)[k] == self.shuffles@[k]);
                    lemma_all_indexed_extends(
                        out@[k].input_expressions@,
                        self.shuffles@[k].input_expressions@,
                        before,
                        after,
                    );
                    lemma_all_indexed_extends(
                        out@[k].shuffle_expressions@,
                        self.shuffles@[k].shuffle_expressions@,
                        before,
                        after,
                    );
                }
                let prev = shuffle_exprs(self.shuffles@.subrange(0, i as int));
                assert(self.shuffles@.subrange(0, i + 1).drop_last() =~= self.shuffles@.subrange(0, i as int));
                assert(shuffle_exprs(self.shuffles@.subrange(0, i + 1)) == prev + arg.input_expressions@
                    + arg.shuffle_expressions@);
                lemma_collect_exprs_append(t0, prev + arg.input_expressions@, arg.shuffle_expressions@);
                lemma_collect_exprs_append(t0, prev, arg.input_expressions@);
            }
            out.push(
                shuffle::Argument {
                    name: arg.name.clone(),
                    input_expressions: inputs,
                    shuffle_expressions: others,
                },
            );
            proof {
                assert forall|k: int| 0 <= k < out@.len() implies {
                    &&& (#[trigger] out@[k]).name@ == self.shuffles@.subrange(0, i + 1)[k].name@
                    &&& all_indexed(
                        out@[k].input_expressions@,
                        self.shuffles@.subrange(0, i + 1)[k].input_expressions@,
                        queries.tables(),
                    )
                    &&& all_indexed(
                        out@[k].shuffle_expressions@,
                        self.shuffles@.subrange(0, i + 1)[k].shuffle_expressions@,
                        queries.tables(),
                    )
                } by {
                    assert(self.shuffles@.subrange(0, i + 1)[k] == self.shuffles@[k]);
                    if k < i {
                        assert(self.shuffles@.subrange(0, i as int)[k] == self.shuffles@[k]);
                    }
                }
            }
            i = i + 1;
        }
        proof {
            assert(self.shuffles@.subrange(0, self.shuffles@.len() as int) =~= self.shuffles@);
        }
        out
    }

    /// Collect all queries used in the expressions of gates, lookups and
    /// shuffles, and a current-row query of each column of the permutation
    /// argument. Map the expressions of gates, lookups and shuffles into
    /// equivalent ones with indexed query references.
    pub fn collect_queries(&self) -> (r: (
        Queries,
        Vec<Gate<F>>,
        Vec<lookup::Argument<F>>,
        Vec<shuffle::Argument<F>>,
    ))
        requires
            self.advice_columns_declared(),
        ensures
            r.0.advice@ == self.collected_tables().0,
            r.0.instance@ == self.collected_tables().1,
            r.0.fixed@ == self.collected_tables().2,
            r.0.num_advice_queries@.len() == self.num_advice_columns,
            forall|c: int|
                0 <= c < self.num_advice_columns ==> #[trigger] r.0.num_advice_queries@[c]
                    == count_queries(self.collected_tables().0, c),
            gates_indexed(r.1@, self.gates@, self.collected_tables()),
            lookups_indexed(r.2@, self.lookups@, self.collected_tables()),
            shuffles_indexed(r.3@, self.shuffles@, self.collected_tables()),
    {
        let mut queries = QueriesMap::new();
        let gates = self.collect_queries_gates(&mut queries);
        let ghost t1 = queries.tables();
        let lookups = self.collect_queries_lookups(&mut queries);
        let ghost t2 = queries.tables();
        let shuffles = self.collect_queries_shuffles(&mut queries);
        let ghost t3 = queries.tables();
        proof {
            lemma_collect_exprs_extends(t1, lookup_exprs(self.lookups@));
            lemma_collect_exprs_extends(t2, shuffle_exprs(self.shuffles@));
            lemma_collect_columns_extends(t3, self.permutation@);
        }
        let columns = self.permutation.get_columns();
        let mut i: usize = 0;
        while i < columns.len()
            invariant
                i <= columns@.len(),
                columns@ == self.permutation@,
                t3 == self.tables_after_shuffles(),
                queries.tables() == collect_columns(t3, columns@.subrange(0, i as int)),
            decreases columns@.len() - i,
        {
            let column = columns[i];
            proof {
                assert(columns@.subrange(0, i + 1).drop_last() =~= columns@.subrange(0, i as int));
            }
            match column.column_type {
                Any::Instance => {
                    queries.add_instance(Column::new(column.index, Instance), Rotation::cur());
                },
                Any::Fixed => {
                    queries.add_fixed(Column::new(column.index, Fixed), Rotation::cur());
                },
                Any::Advice(advice) => {
                    queries.add_advice(Column::new(column.index, advice), Rotation::cur());
                },
            }
            i = i + 1;
        }
        proof {
            assert(columns@.subrange(0, columns@.len() as int) =~= columns@);
            let t = queries.tables();
            lemma_tables_extend_trans(t1, t2, t3);
            lemma_tables_extend_trans(t1, t3, t);
            lemma_tables_extend_trans(t2, t3, t);
            lemma_gates_indexed_extends(gates@, self.gates@, t1, t);
            lemma_lookups_indexed_extends(lookups@, self.lookups@, t2, t);
            lemma_shuffles_indexed_extends(shuffles@, self.shuffles@, t3, t);
            assert(t == self.collected_tables());
            assert forall|j: int| 0 <= j < queries.advice@.len() implies (
            #[trigger] queries.advice@[j]).0.index < self.num_advice_columns by {
                assert(queries.advice@[j] == self.collected_tables().0[j]);
            }
        }
        let num_advice_queries = count_advice_queries(&queries.advice, self.num_advice_columns);
        (
            Queries {
                advice: queries.advice,
                instance: queries.instance,
                fixed: queries.fixed,
                num_advice_queries,
            },
            gates,
            lookups,
            shuffles,
        )
    }
}

/// The larger of two numbers.
pub open spec fn max_nat(a: nat, b: nat) -> nat {
    if a >= b {
        a
    } else {
        b
    }
}

/// Largest degree required by the lookups, or 1 when there are none.
pub open spec fn lookups_degree<F>(s: Seq<lookup::Argument<F>>) -> nat
    decreases s.len(),
{
    if s.len() == 0 {
        1
    } else if s.len() == 1 {
        s[0].spec_required_degree()
    } else {
        max_nat(lookups_degree(s.drop_last()), s.last().spec_required_degree())
    }
}

/// Largest degree required by the shuffles, or 1 when there are none.
pub open spec fn shuffles_degree<F>(s: Seq<shuffle::Argument<F>>) -> nat
    decreases s.len(),
{
    if s.len() == 0 {
        1
    } else if s.len() == 1 {
        s[0].spec_required_degree()
    } else {
        max_nat(shuffles_degree(s.drop_last()), s.last().spec_required_degree())
    }
}

/// Largest degree of a polynomial of the gates, or 0 when there are none.
pub open spec fn gates_degree<F>(s: Seq<Gate<F>>) -> nat
    decreases s.len(),
{
    if s.len() == 0 {
        0
    } else {
        max_nat(gates_degree(s.drop_last()), max_degree(s.last().polys@, 0))
    }
}

/// Largest entry of `s`, or 1 when `s` is empty.
pub open spec fn max_count(s: Seq<usize>) -> nat
    decreases s.len(),
{
    if s.len() == 0 {
        1
    } else if s.len() == 1 {
        s[0] as nat
    } else {
        max_nat(max_count(s.drop_last()), s.last() as nat)
    }
}

/// A description of the circuit environment: columns, gates over indexed
/// queries, the query tables, and the permutation, lookup and shuffle
/// arguments.
#[verifier::reject_recursive_types(F)]
#[derive(Debug)]
pub struct ConstraintSystem<F> {
    pub num_fixed_columns: usize,
    pub num_advice_columns: usize,
    pub num_instance_columns: usize,
    pub num_selectors: usize,
    pub num_challenges: usize,
    /// Contains the index of each advice column that is left unblinded.
    pub unblinded_advice_columns: Vec<usize>,
    /// Contains the phase for each advice column.
    pub advice_column_phase: Vec<sealed::Phase>,
    /// Contains the phase for each challenge.
    pub challenge_phase: Vec<sealed::Phase>,
    pub gates: Vec<Gate<F>>,
    pub advice_queries: Vec<(Column<Advice>, Rotation)>,
    /// For each advice column, the number of distinct queries on it.
    pub num_advice_queries: Vec<usize>,
    pub instance_queries: Vec<(Column<Instance>, Rotation)>,
    pub fixed_queries: Vec<(Column<Fixed>, Rotation)>,
    /// Permutation argument for performing equality constraints.
    pub permutation: permutation::Argument,
    /// Lookup arguments.
    pub lookups: Vec<lookup::Argument<F>>,
    /// Shuffle arguments.
    pub shuffles: Vec<shuffle::Argument<F>>,
    /// Human readable names of columns, for diagnostics.
    pub general_column_annotations: Vec<(Column<Any>, String)>,
    /// Fixed columns that hold constants copied into advice columns.
    pub constants: Vec<Column<Fixed>>,
    pub minimum_degree: Option<usize>,
}

/// Phases with the given numbers.
fn phases_of(v: Vec<u8>) -> (r: Vec<sealed::Phase>)
    ensures
        r@.len() == v@.len(),
        forall|i: int| 0 <= i < v@.len() ==> (#[trigger] r@[i]).number() == v@[i],
{
    let mut out: Vec<sealed::Phase> = Vec::new();
    let mut i: usize = 0;
    while i < v.len()
        invariant
            i <= v@.len(),
            out@.len() == i,
            forall|k: int| 0 <= k < i ==> (#[trigger] out@[k]).number() == v@[k],
        decreases v@.len() - i,
    {
        out.push(sealed::Phase(v[i]));
        i = i + 1;
    }
    out
}

/// The numbers of the given phases.
fn phase_numbers(v: &Vec<sealed::Phase>) -> (r: Vec<u8>)
    ensures
        r@.len() == v@.len(),
        forall|i: int| 0 <= i < v@.len() ==> #[trigger] r@[i] == v@[i].number(),
{
    let mut out: Vec<u8> = Vec::new();
    let mut i: usize = 0;
    while i < v.len()
        invariant
            i <= v@.len(),
            out@.len() == i,
            forall|k: int| 0 <= k < i ==> #[trigger] out@[k] == v@[k].number(),
        decreases v@.len() - i,
    {
        out.push(v[i].0);
        i = i + 1;
    }
    out
}

impl<F> ConstraintSystem<F> {
    /// Degree of the circuit: the largest of the permutation argument's
    /// degree, the lookups' and shuffles' degrees, the degrees of the gates'
    /// polynomials, and the explicit minimum degree (1 when unset).
    pub open spec fn spec_degree(&self) -> nat {
        let d = max_nat(3, lookups_degree(self.lookups@));
        let d = max_nat(d, shuffles_degree(self.shuffles@));
        let d = max_nat(d, gates_degree(self.gates@));
        max_nat(
            d,
            match self.minimum_degree {
                Some(m) => m as nat,
                None => 1,
            },
        )
    }

    /// Number of blinding factors: at least 3 and at least the largest
    /// number of queries on one advice column, plus one for the multi-point
    /// opening, plus one as a margin.
    pub open spec fn spec_blinding_factors(&self) -> nat {
        max_nat(3, max_count(self.num_advice_queries@)) + 1 + 1
    }

    /// Minimum number of rows: the blinding rows, the last-row indicator,
    /// one row of room for the first-row constraint, and one usable row.
    pub open spec fn spec_minimum_rows(&self) -> nat {
        self.spec_blinding_factors() + 1 + 1 + 1
    }

    /// The degrees of all the expressions fit in machine integers.
    pub open spec fn degrees_fit(&self) -> bool {
        &&& forall|i: int| 0 <= i < self.lookups@.len() ==> (#[trigger] self.lookups@[i]).degrees_fit()
        &&& forall|i: int| 0 <= i < self.shuffles@.len() ==> (#[trigger] self.shuffles@[i]).degrees_fit()
        &&& forall|i: int|
            0 <= i < self.gates@.len() ==> crate::expression::degrees_fit(
                (#[trigger] self.gates@[i]).polys@,
            )
    }

    /// Compute the degree of the constraint system (the maximum degree of all
    /// constraints).
    pub fn degree(&self) -> (r: usize)
        requires
            self.degrees_fit(),
        ensures
            r == self.spec_degree(),
    {
        let mut degree = self.permutation.required_degree();

        let mut lookups_max: usize = 1;
        let mut i: usize = 0;
        while i < self.lookups.len()
            invariant
                i <= self.lookups@.len(),
                self.degrees_fit(),
                lookups_max == lookups_degree(self.lookups@.subrange(0, i as int)),
            decreases self.lookups@.len() - i,
        {
            let d = self.lookups[i].required_degree();
            proof {
                assert(self.lookups@.subrange(0, i + 1).drop_last() =~= self.lookups@.subrange(0, i as int));
            }
            if i == 0 || d > lookups_max {
                lookups_max = d;
            }
            i = i + 1;
        }
        proof {
            assert(self.lookups@.subrange(0, self.lookups@.len() as int) =~= self.lookups@);
        }
        if lookups_max > degree {
            degree = lookups_max;
        }

        let mut shuffles_max: usize = 1;
        let mut i: usize = 0;
        while i < self.shuffles.len()
            invariant
                i <= self.shuffles@.len(),
                self.degrees_fit(),
                shuffles_max == shuffles_degree(self.shuffles@.subrange(0, i as int)),
            decreases self.shuffles@.len() - i,
        {
            let d = self.shuffles[i].required_degree();
            proof {
                assert(self.shuffles@.subrange(0, i + 1).drop_last() =~= self.shuffles@.subrange(0, i as int));
            }
            if i == 0 || d > shuffles_max {
                shuffles_max = d;
            }
            i = i + 1;
        }
        proof {
            assert(self.shuffles@.subrange(0, self.shuffles@.len() as int) =~= self.shuffles@);
        }
        if shuffles_max > degree {
            degree = shuffles_max;
        }

        let mut gates_max: usize = 0;
        let mut i: usize = 0;
        while i < self.gates.len()
            invariant
                i <= self.gates@.len(),
                self.degrees_fit(),
                gates_max == gates_degree(self.gates@.subrange(0, i as int)),
            decreases self.gates@.len() - i,
        {
            let d = crate::expression::max_degree_of(&self.gates[i].polys, 0);
            proof {
                assert(self.gates@.subrange(0, i + 1).drop_last() =~= self.gates@.subrange(0, i as int));
            }
            if d > gates_max {
                gates_max = d;
            }
            i = i + 1;
        }
        proof {
            assert(self.gates@.subrange(0, self.gates@.len() as int) =~= self.gates@);
        }
        if gates_max > degree {
            degree = gates_max;
        }

        let minimum = match self.minimum_degree {
            Some(m) => m,
            None => 1,
        };
        if minimum > degree {
            minimum
        } else {
            degree
        }
    }

    /// Compute the number of blinding factors necessary to perfectly blind
    /// each of the prover's witness polynomials.
    pub fn blinding_factors(&self) -> (r: usize)
        requires
            self.spec_blinding_factors() <= usize::MAX,
        ensures
            r == self.spec_blinding_factors(),
    {
        let mut factors: usize = 1;
        let mut i: usize = 0;
        while i < self.num_advice_queries.len()
            invariant
                i <= self.num_advice_queries@.len(),
                factors == max_count(self.num_advice_queries@.subrange(0, i as int)),
            decreases self.num_advice_queries@.len() - i,
        {
            let c = self.num_advice_queries[i];
            proof {
                assert(self.num_advice_queries@.subrange(0, i + 1).drop_last()
                    =~= self.num_advice_queries@.subrange(0, i as int));
            }
            if i == 0 || c > factors {
                factors = c;
            }
            i = i + 1;
        }
        proof {
            assert(self.num_advice_queries@.subrange(0, self.num_advice_queries@.len() as int)
                =~= self.num_advice_queries@);
        }
        // The permutation argument's polynomials are evaluated at most 3 times.
        let factors = if factors > 3 {
            factors
        } else {
            3
        };
        // Each polynomial is evaluated at most once more during the
        // multi-point opening.
        let factors = factors + 1;
        // One more as a margin against off-by-one errors.
        factors + 1
    }

    /// Returns the minimum necessary rows that need to exist in order to
    /// account for e.g. blinding factors.
    pub fn minimum_rows(&self) -> (r: usize)
        requires
            self.spec_minimum_rows() <= usize::MAX,
        ensures
            r == self.spec_minimum_rows(),
            r == self.spec_blinding_factors() + 3,
    {
        self.blinding_factors() + 1 + 1 + 1
    }
}

/// The number of blinding factors is at least 5, and the minimum number of
/// rows is three more than it, whatever the circuit.
pub proof fn lemma_blinding_and_rows<F>(cs: &ConstraintSystem<F>)
    ensures
        cs.spec_blinding_factors() >= 5,
        cs.spec_minimum_rows() == cs.spec_blinding_factors() + 3,
{
}


impl<F: Copy> ConstraintSystem<F> {
    /// The constraint system of a frontend description: the same columns and
    /// arguments, with the queries collected and the expressions indexed.
    pub fn from_backend(cs2: ConstraintSystemV2Backend<F>) -> (r: Self)
        requires
            cs2.advice_columns_declared(),
        ensures
            r.num_fixed_columns == cs2.num_fixed_columns,
            r.num_advice_columns == cs2.num_advice_columns,
            r.num_instance_columns == cs2.num_instance_columns,
            r.num_selectors == 0,
            r.num_challenges == cs2.num_challenges,
            r.unblinded_advice_columns == cs2.unblinded_advice_columns,
            r.advice_column_phase@.len() == cs2.advice_column_phase@.len(),
            forall|i: int|
                0 <= i < cs2.advice_column_phase@.len() ==> (#[trigger] r.advice_column_phase@[i]).number()
                    == cs2.advice_column_phase@[i],
            r.challenge_phase@.len() == cs2.challenge_phase@.len(),
            forall|i: int|
                0 <= i < cs2.challenge_phase@.len() ==> (#[trigger] r.challenge_phase@[i]).number()
                    == cs2.challenge_phase@[i],
            r.advice_queries@ == cs2.collected_tables().0,
            r.instance_queries@ == cs2.collected_tables().1,
            r.fixed_queries@ == cs2.collected_tables().2,
            r.num_advice_queries@.len() == cs2.num_advice_columns,
            forall|c: int|
                0 <= c < cs2.num_advice_columns ==> #[trigger] r.num_advice_queries@[c]
                    == count_queries(cs2.collected_tables().0, c),
            gates_indexed(r.gates@, cs2.gates@, cs2.collected_tables()),
            lookups_indexed(r.lookups@, cs2.lookups@, cs2.collected_tables()),
            shuffles_indexed(r.shuffles@, cs2.shuffles@, cs2.collected_tables()),
            r.permutation == cs2.permutation,
            r.general_column_annotations == cs2.general_column_annotations,
            r.constants@.len() == 0,
            r.minimum_degree is None,
    {
        let (queries, gates, lookups, shuffles) = cs2.collect_queries();
        ConstraintSystem {
            num_fixed_columns: cs2.num_fixed_columns,
            num_advice_columns: cs2.num_advice_columns,
            num_instance_columns: cs2.num_instance_columns,
            num_selectors: 0,
            num_challenges: cs2.num_challenges,
            unblinded_advice_columns: cs2.unblinded_advice_columns,
            advice_column_phase: phases_of(cs2.advice_column_phase),
            challenge_phase: phases_of(cs2.challenge_phase),
            gates,
            advice_queries: queries.advice,
            num_advice_queries: queries.num_advice_queries,
            instance_queries: queries.instance,
            fixed_queries: queries.fixed,
            permutation: cs2.permutation,
            lookups,
            shuffles,
            general_column_annotations: cs2.general_column_annotations,
            constants: Vec::new(),
            minimum_degree: None,
        }
    }
}

impl<F> Default for ConstraintSystem<F> {
    fn default() -> (r: ConstraintSystem<F>)
        ensures
            r.num_fixed_columns == 0,
            r.num_advice_columns == 0,
            r.num_instance_columns == 0,
            r.num_selectors == 0,
            r.num_challenges == 0,
            r.unblinded_advice_columns@.len() == 0,
            r.advice_column_phase@.len() == 0,
            r.challenge_phase@.len() == 0,
            r.gates@.len() == 0,
            r.advice_queries@.len() == 0,
            r.num_advice_queries@.len() == 0,
            r.instance_queries@.len() == 0,
            r.fixed_queries@.len() == 0,
            r.permutation@.len() == 0,
            r.lookups@.len() == 0,
            r.shuffles@.len() == 0,
            r.general_column_annotations@.len() == 0,
            r.constants@.len() == 0,
            r.minimum_degree is None,
    {
        ConstraintSystem {
            num_fixed_columns: 0,
            num_advice_columns: 0,
            num_instance_columns: 0,
            num_selectors: 0,
            num_challenges: 0,
            unblinded_advice_columns: Vec::new(),
            advice_column_phase: Vec::new(),
            challenge_phase: Vec::new(),
            gates: Vec::new(),
            fixed_queries: Vec::new(),
            advice_queries: Vec::new(),
            num_advice_queries: Vec::new(),
            instance_queries: Vec::new(),
            permutation: permutation::Argument::new(),
            lookups: Vec::new(),
            shuffles: Vec::new(),
            general_column_annotations: Vec::new(),
            constants: Vec::new(),
            minimum_degree: None,
        }
    }
}

impl<F> ConstraintSystem<F> {
    /// Position of the query of `column` at `at` in the advice query table.
    pub fn get_advice_query_index(&self, column: Column<Advice>, at: Rotation) -> (r: usize)
        requires
            self.advice_queries@.contains((column, at)),
        ensures
            r < self.advice_queries@.len(),
            self.advice_queries@[r as int] == (column, at),
            forall|k: int| 0 <= k < r ==> self.advice_queries@[k] != (column, at),
    {
        find_query(&self.advice_queries, column, at)
    }

    /// Position of the query of `column` at `at` in the fixed query table.
    pub fn get_fixed_query_index(&self, column: Column<Fixed>, at: Rotation) -> (r: usize)
        requires
            self.fixed_queries@.contains((column, at)),
        ensures
            r < self.fixed_queries@.len(),
            self.fixed_queries@[r as int] == (column, at),
            forall|k: int| 0 <= k < r ==> self.fixed_queries@[k] != (column, at),
    {
        find_query(&self.fixed_queries, column, at)
    }

    /// Position of the query of `column` at `at` in the instance query table.
    pub fn get_instance_query_index(&self, column: Column<Instance>, at: Rotation) -> (r: usize)
        requires
            self.instance_queries@.contains((column, at)),
        ensures
            r < self.instance_queries@.len(),
            self.instance_queries@[r as int] == (column, at),
            forall|k: int| 0 <= k < r ==> self.instance_queries@[k] != (column, at),
    {
        find_query(&self.instance_queries, column, at)
    }

    /// Position of the query of `column` at `at` in the query table of its
    /// kind.
    pub fn get_any_query_index(&self, column: Column<Any>, at: Rotation) -> (r: usize)
        requires
            match column.column_type {
                Any::Advice(a) => self.advice_queries@.contains(
                    (Column { column_type: a, index: column.index }, at),
                ),
                Any::Fixed => self.fixed_queries@.contains(fixed_key(column.index, at)),
                Any::Instance => self.instance_queries@.contains(instance_key(column.index, at)),
            },
        ensures
            match column.column_type {
                Any::Advice(a) => r < self.advice_queries@.len()
                    && self.advice_queries@[r as int] == (
                    Column { column_type: a, index: column.index },
                    at,
                ),
                Any::Fixed => r < self.fixed_queries@.len() && self.fixed_queries@[r as int]
                    == fixed_key(column.index, at),
                Any::Instance => r < self.instance_queries@.len()
                    && self.instance_queries@[r as int]
                    == instance_key(column.index, at),
            },
    {
        match column.column_type {
            Any::Advice(a) => self.get_advice_query_index(Column::new(column.index, a), at),
            Any::Fixed => self.get_fixed_query_index(Column::new(column.index, Fixed), at),
            Any::Instance => self.get_instance_query_index(Column::new(column.index, Instance), at),
        }
    }

    /// The phases from the first one up to the last phase of an advice
    /// column (only the first one when there is no advice column).
    pub fn phases(&self) -> (r: Vec<sealed::Phase>)
        ensures
            r@.len() >= 1,
            forall|i: int| 0 <= i < r@.len() ==> (#[trigger] r@[i]).number() == i,
            forall|i: int|
                0 <= i < self.advice_column_phase@.len() ==> (#[trigger] self.advice_column_phase@[i]).number()
                    < r@.len(),
            self.advice_column_phase@.len() == 0 ==> r@.len() == 1,
            self.advice_column_phase@.len() > 0 ==> exists|i: int|
                0 <= i < self.advice_column_phase@.len()
                    && (#[trigger] self.advice_column_phase@[i]).number()
                    == r@.len() - 1,
    {
        let mut max_phase: u8 = 0;
        let mut i: usize = 0;
        while i < self.advice_column_phase.len()
            invariant
                i <= self.advice_column_phase@.len(),
                forall|k: int| 0 <= k < i ==> (#[trigger] self.advice_column_phase@[k]).number() <= max_phase,
                i > 0 ==> exists|k: int| 0 <= k < i
                    && (#[trigger] self.advice_column_phase@[k]).number() == max_phase,
                i == 0 ==> max_phase == 0,
            decreases self.advice_column_phase@.len() - i,
        {
            let p = self.advice_column_phase[i].0;
            if i == 0 || p > max_phase {
                max_phase = p;
            }
            proof {
                assert(self.advice_column_phase@[i as int].number() == p);
            }
            i = i + 1;
        }
        let mut out: Vec<sealed::Phase> = Vec::new();
        let mut p: u16 = 0;
        while p <= max_phase as u16
            invariant
                p <= max_phase as u16 + 1,
                out@.len() == p,
                forall|k: int| 0 <= k < p ==> (#[trigger] out@[k]).number() == k,
            decreases max_phase as u16 + 1 - p,
        {
            out.push(sealed::Phase(p as u8));
            p = p + 1;
        }
        out
    }

    /// Returns number of fixed columns
    pub fn num_fixed_columns(&self) -> (r: usize)
        ensures
            r == self.num_fixed_columns,
    {
        self.num_fixed_columns
    }

    /// Returns number of advice columns
    pub fn num_advice_columns(&self) -> (r: usize)
        ensures
            r == self.num_advice_columns,
    {
        self.num_advice_columns
    }

    /// Returns number of instance columns
    pub fn num_instance_columns(&self) -> (r: usize)
        ensures
            r == self.num_instance_columns,
    {
        self.num_instance_columns
    }

    /// Returns number of selectors
    pub fn num_selectors(&self) -> (r: usize)
        ensures
            r == self.num_selectors,
    {
        self.num_selectors
    }

    /// Returns number of challenges
    pub fn num_challenges(&self) -> (r: usize)
        ensures
            r == self.num_challenges,
    {
        self.num_challenges
    }

    /// Returns phase of advice columns
    pub fn advice_column_phase(&self) -> (r: Vec<u8>)
        ensures
            r@.len() == self.advice_column_phase@.len(),
            forall|i: int| 0 <= i < r@.len() ==> #[trigger] r@[i] == self.advice_column_phase@[i].number(),
    {
        phase_numbers(&self.advice_column_phase)
    }

    /// Returns phase of challenges
    pub fn challenge_phase(&self) -> (r: Vec<u8>)
        ensures
            r@.len() == self.challenge_phase@.len(),
            forall|i: int| 0 <= i < r@.len() ==> #[trigger] r@[i] == self.challenge_phase@[i].number(),
    {
        phase_numbers(&self.challenge_phase)
    }

    /// Returns gates
    pub fn gates(&self) -> (r: &Vec<Gate<F>>)
        ensures
            r == &self.gates,
    {
        &self.gates
    }

    /// Returns general column annotations
    pub fn general_column_annotations(&self) -> (r: &Vec<(Column<Any>, String)>)
        ensures
            r == &self.general_column_annotations,
    {
        &self.general_column_annotations
    }

    /// Returns advice queries
    pub fn advice_queries(&self) -> (r: &Vec<(Column<Advice>, Rotation)>)
        ensures
            r@ == self.advice_queries@,
    {
        &self.advice_queries
    }

    /// Returns instance queries
    pub fn instance_queries(&self) -> (r: &Vec<(Column<Instance>, Rotation)>)
        ensures
            r@ == self.instance_queries@,
    {
        &self.instance_queries
    }

    /// Returns fixed queries
    pub fn fixed_queries(&self) -> (r: &Vec<(Column<Fixed>, Rotation)>)
        ensures
            r@ == self.fixed_queries@,
    {
        &self.fixed_queries
    }

    /// Returns permutation argument
    pub fn permutation(&self) -> (r: &permutation::Argument)
        ensures
            r == &self.permutation,
    {
        &self.permutation
    }

    /// Returns lookup arguments
    pub fn lookups(&self) -> (r: &Vec<lookup::Argument<F>>)
        ensures
            r == &self.lookups,
    {
        &self.lookups
    }

    /// Returns shuffle arguments
    pub fn shuffles(&self) -> (r: &Vec<shuffle::Argument<F>>)
        ensures
            r == &self.shuffles,
    {
        &self.shuffles
    }

    /// Returns constants
    pub fn constants(&self) -> (r: &Vec<Column<Fixed>>)
        ensures
            r@ == self.constants@,
    {
        &self.constants
    }
}

/// Name of the frontend gate made of polynomial `i` of gate `g`: its
/// name, followed by `:` and the constraint's name when that is not empty.
pub open spec fn entry_name<F>(g: Gate<F>, i: int) -> Seq<char> {
    if g.constraint_names@[i]@.len() == 0 {
        g.name@
    } else {
        g.name@ + seq![':'] + g.constraint_names@[i]@
    }
}

/// The frontend gates of `gates`: one per polynomial, in order, each with
/// its name and its polynomial without query indices.
pub open spec fn backend_gates<F>(gates: Seq<Gate<F>>) -> Seq<(Seq<char>, ExpressionMid<F>)>
    decreases gates.len(),
{
    if gates.len() == 0 {
        Seq::empty()
    } else {
        let g = gates.last();
        backend_gates(gates.drop_last()) + Seq::new(
            g.polys@.len(),
            |i: int| (entry_name(g, i), g.polys@[i].spec_to_mid()),
        )
    }
}

/// The expressions of `s` without query indices.
pub open spec fn mids<F>(s: Seq<Expression<F>>) -> Seq<ExpressionMid<F>> {
    Seq::new(s.len(), |i: int| s[i].spec_to_mid())
}

fn exprs_to_mid<F: Copy>(v: &Vec<Expression<F>>) -> (r: Vec<ExpressionMid<F>>)
    ensures
        r@ == mids(v@),
{
    let mut out: Vec<ExpressionMid<F>> = Vec::new();
    let mut i: usize = 0;
    while i < v.len()
        invariant
            i <= v@.len(),
            out@ =~= mids(v@.subrange(0, i as int)),
        decreases v@.len() - i,
    {
        out.push(v[i].to_mid());
        i = i + 1;
    }
    proof {
        assert(v@.subrange(0, v@.len() as int) =~= v@);
    }
    out
}

fn copy_annotations(v: &Vec<(Column<Any>, String)>) -> (r: Vec<(Column<Any>, String)>)
    ensures
        r@.len() == v@.len(),
        forall|i: int| 0 <= i < v@.len() ==> (#[trigger] r@[i]).0 == v@[i].0
            && r@[i].1@ == v@[i].1@,
{
    let mut out: Vec<(Column<Any>, String)> = Vec::new();
    let mut i: usize = 0;
    while i < v.len()
        invariant
            i <= v@.len(),
            out@.len() == i,
            forall|k: int| 0 <= k < i ==> (#[trigger] out@[k]).0 == v@[k].0
                && out@[k].1@ == v@[k].1@,
        decreases v@.len() - i,
    {
        out.push((v[i].0, v[i].1.clone()));
        i = i + 1;
    }
    out
}

impl<F: Copy> ConstraintSystem<F> {
    /// The frontend description of this constraint system: one gate per
    /// polynomial, expressions without query indices, phases as numbers.
    pub fn into_backend(&self) -> (r: ConstraintSystemV2Backend<F>)
        requires
            forall|i: int|
                0 <= i < self.gates@.len() ==> (#[trigger] self.gates@[i]).polys@.len()
                    <= self.gates@[i].constraint_names@.len(),
        ensures
            r.num_fixed_columns == self.num_fixed_columns,
            r.num_advice_columns == self.num_advice_columns,
            r.num_instance_columns == self.num_instance_columns,
            r.num_challenges == self.num_challenges,
            r.unblinded_advice_columns@ == self.unblinded_advice_columns@,
            r.advice_column_phase@.len() == self.advice_column_phase@.len(),
            forall|i: int|
                0 <= i < r.advice_column_phase@.len() ==> #[trigger] r.advice_column_phase@[i]
                    == self.advice_column_phase@[i].number(),
            r.challenge_phase@.len() == self.challenge_phase@.len(),
            forall|i: int|
                0 <= i < r.challenge_phase@.len() ==> #[trigger] r.challenge_phase@[i]
                    == self.challenge_phase@[i].number(),
            r.gates@.len() == backend_gates(self.gates@).len(),
            forall|k: int|
                0 <= k < r.gates@.len() ==> ((#[trigger] r.gates@[k]).name@, r.gates@[k].poly)
                    == backend_gates(self.gates@)[k],
            r.permutation@ == self.permutation@,
            r.lookups@.len() == self.lookups@.len(),
            forall|k: int|
                0 <= k < r.lookups@.len() ==> (#[trigger] r.lookups@[k]).name@ == self.lookups@[k].name@
                    && r.lookups@[k].input_expressions@ == mids(self.lookups@[k].input_expressions@)
                    && r.lookups@[k].table_expressions@ == mids(self.lookups@[k].table_expressions@),
            r.shuffles@.len() == self.shuffles@.len(),
            forall|k: int|
                0 <= k < r.shuffles@.len() ==> (#[trigger] r.shuffles@[k]).name@ == self.shuffles@[k].name@
                    && r.shuffles@[k].input_expressions@ == mids(self.shuffles@[k].input_expressions@)
                    && r.shuffles@[k].shuffle_expressions@ == mids(
                    self.shuffles@[k].shuffle_expressions@,
                ),
            r.general_column_annotations@.len() == self.general_column_annotations@.len(),
            forall|i: int|
                0 <= i < r.general_column_annotations@.len() ==> (#[trigger] r.general_column_annotations@[i]).0
                    == self.general_column_annotations@[i].0
                        && r.general_column_annotations@[i].1@ == self.general_column_annotations@[i].1@,
    {
        let mut gates: Vec<GateV2Backend<F>> = Vec::new();
        let mut g: usize = 0;
        while g < self.gates.len()
            invariant
                g <= self.gates@.len(),
                forall|i: int|
                    0 <= i < self.gates@.len() ==> (#[trigger] self.gates@[i]).polys@.len()
                        <= self.gates@[i].constraint_names@.len(),
                gates@.len() == backend_gates(self.gates@.subrange(0, g as int)).len(),
                forall|k: int|
                    0 <= k < gates@.len() ==> ((#[trigger] gates@[k]).name@, gates@[k].poly)
                        == backend_gates(self.gates@.subrange(0, g as int))[k],
            decreases self.gates@.len() - g,
        {
            let gate = &self.gates[g];
            let ghost prev = backend_gates(self.gates@.subrange(0, g as int));
            proof {
                assert(self.gates@.subrange(0, g + 1).drop_last() =~= self.gates@.subrange(0, g as int));
            }
            let mut i: usize = 0;
            while i < gate.polys.len()
                invariant
                    i <= gate.polys@.len(),
                    gate.polys@.len() <= gate.constraint_names@.len(),
                    gates@.len() == prev.len() + i,
                    forall|k: int| 0 <= k < prev.len() ==> ((#[trigger] gates@[k]).name@, gates@[k].poly) == prev[k],
                    forall|k: int|
                        0 <= k < i ==> (#[trigger] gates@[prev.len() + k]).name@ == entry_name(*gate, k)
                            && gates@[prev.len() + k].poly == gate.polys@[k].spec_to_mid(),
                decreases gate.polys@.len() - i,
            {
                let constraint_name = gate.constraint_name(i);
                let name = if constraint_name.is_empty() {
                    gate.name.clone()
                } else {
                    proof {
                        reveal_strlit(":");
                    }
                    gate.name.clone().concat(":").concat(constraint_name)
                };
                let poly = gate.polys[i].to_mid();
                gates.push(GateV2Backend { name, poly });
                proof {
                    assert(gates@[prev.len() + i].name@ == entry_name(*gate, i as int));
                }
                i = i + 1;
            }
            proof {
                let cur = backend_gates(self.gates@.subrange(0, g + 1));
                assert(self.gates@.subrange(0, g + 1).last() == *gate);
                assert forall|k: int| 0 <= k < gates@.len() implies ((#[trigger] gates@[k]).name@, gates@[k].poly)
                    == cur[k] by {
                    if k >= prev.len() {
                        let j = k - prev.len();
                        assert(gates@[prev.len() + j] == gates@[k]);
                    }
                }
            }
            g = g + 1;
        }
        proof {
            assert(self.gates@.subrange(0, self.gates@.len() as int) =~= self.gates@);
        }

        let mut lookups: Vec<lookup::ArgumentV2<F>> = Vec::new();
        let mut i: usize = 0;
        while i < self.lookups.len()
            invariant
                i <= self.lookups@.len(),
                lookups@.len() == i,
                forall|k: int|
                    0 <= k < i ==> (#[trigger] lookups@[k]).name@ == self.lookups@[k].name@
                        && lookups@[k].input_expressions@ == mids(self.lookups@[k].input_expressions@)
                        && lookups@[k].table_expressions@ == mids(self.lookups@[k].table_expressions@),
            decreases self.lookups@.len() - i,
        {
            let l = &self.lookups[i];
            lookups.push(
                lookup::ArgumentV2 {
                    name: l.name.clone(),
                    input_expressions: exprs_to_mid(&l.input_expressions),
                    table_expressions: exprs_to_mid(&l.table_expressions),
                },
            );
            i = i + 1;
        }

        let mut shuffles: Vec<shuffle::ArgumentV2<F>> = Vec::new();
        let mut i: usize = 0;
        while i < self.shuffles.len()
            invariant
                i <= self.shuffles@.len(),
                shuffles@.len() == i,
                forall|k: int|
                    0 <= k < i ==> (#[trigger] shuffles@[k]).name@ == self.shuffles@[k].name@
                        && shuffles@[k].input_expressions@ == mids(self.shuffles@[k].input_expressions@)
                        && shuffles@[k].shuffle_expressions@ == mids(self.shuffles@[k].shuffle_expressions@),
            decreases self.shuffles@.len() - i,
        {
            let sh = &self.shuffles[i];
            shuffles.push(
                shuffle::ArgumentV2 {
                    name: sh.name.clone(),
                    input_expressions: exprs_to_mid(&sh.input_expressions),
                    shuffle_expressions: exprs_to_mid(&sh.shuffle_expressions),
                },
            );
            i = i + 1;
        }

        ConstraintSystemV2Backend {
            num_fixed_columns: self.num_fixed_columns,
            num_advice_columns: self.num_advice_columns,
            num_instance_columns: self.num_instance_columns,
            num_challenges: self.num_challenges,
            unblinded_advice_columns: copy_usizes(&self.unblinded_advice_columns),
            advice_column_phase: phase_numbers(&self.advice_column_phase),
            challenge_phase: phase_numbers(&self.challenge_phase),
            gates,
            permutation: self.permutation.clone(),
            lookups,
            shuffles,
            general_column_annotations: copy_annotations(&self.general_column_annotations),
        }
    }
}

fn copy_usizes(v: &Vec<usize>) -> (r: Vec<usize>)
    ensures
        r@ == v@,
{
    let mut out: Vec<usize> = Vec::new();
    let mut i: usize = 0;
    while i < v.len()
        invariant
            i <= v@.len(),
            out@ == v@.subrange(0, i as int),
        decreases v@.len() - i,
    {
        out.push(v[i]);
        i = i + 1;
    }
    proof {
        assert(v@.subrange(0, v@.len() as int) =~= v@);
    }
    out
}

/// Data of a circuit that key generation preprocesses: the permutation of
/// the copy constraints and the values of the fixed columns.
#[verifier::reject_recursive_types(F)]
#[derive(Debug)]
pub struct PreprocessingV2<F> {
    pub permutation: permutation::Assembly,
    pub fixed: Vec<Vec<F>>,
}

/// A compiled circuit: its preprocessed data and its constraint system.
#[verifier::reject_recursive_types(F)]
#[derive(Debug)]
pub struct CompiledCircuitV2<F> {
    pub preprocessing: PreprocessingV2<F>,
    pub cs: ConstraintSystemV2Backend<F>,
}

/// The parameters that determine a `ConstraintSystem`, borrowed from it.
#[verifier::reject_recursive_types(F)]
pub struct PinnedConstraintSystem<'a, F> {
    pub num_fixed_columns: &'a usize,
    pub num_advice_columns: &'a usize,
    pub num_instance_columns: &'a usize,
    pub num_selectors: &'a usize,
    pub num_challenges: &'a usize,
    pub advice_column_phase: &'a Vec<sealed::Phase>,
    pub challenge_phase: &'a Vec<sealed::Phase>,
    pub gates: &'a Vec<Gate<F>>,
    pub advice_queries: &'a Vec<(Column<Advice>, Rotation)>,
    pub instance_queries: &'a Vec<(Column<Instance>, Rotation)>,
    pub fixed_queries: &'a Vec<(Column<Fixed>, Rotation)>,
    pub permutation: &'a permutation::Argument,
    pub lookups: &'a Vec<lookup::Argument<F>>,
    pub shuffles: &'a Vec<shuffle::Argument<F>>,
    pub constants: &'a Vec<Column<Fixed>>,
    pub minimum_degree: &'a Option<usize>,
}

impl<F> ConstraintSystem<F> {
    /// Obtain a pinned version of this constraint system; a structure with
    /// the minimal parameters needed to determine the rest of the constraint
    /// system.
    pub fn pinned(&self) -> (r: PinnedConstraintSystem<'_, F>)
        ensures
            *r.num_fixed_columns == self.num_fixed_columns,
            *r.num_advice_columns == self.num_advice_columns,
            *r.num_instance_columns == self.num_instance_columns,
            *r.num_selectors == self.num_selectors,
            *r.num_challenges == self.num_challenges,
            *r.advice_column_phase == self.advice_column_phase,
            *r.challenge_phase == self.challenge_phase,
            *r.gates == self.gates,
            *r.advice_queries == self.advice_queries,
            *r.instance_queries == self.instance_queries,
            *r.fixed_queries == self.fixed_queries,
            *r.permutation == self.permutation,
            *r.lookups == self.lookups,
            *r.shuffles == self.shuffles,
            *r.constants == self.constants,
            *r.minimum_degree == self.minimum_degree,
    {
        PinnedConstraintSystem {
            num_fixed_columns: &self.num_fixed_columns,
            num_advice_columns: &self.num_advice_columns,
            num_instance_columns: &self.num_instance_columns,
            num_selectors: &self.num_selectors,
            num_challenges: &self.num_challenges,
            advice_column_phase: &self.advice_column_phase,
            challenge_phase: &self.challenge_phase,
            gates: &self.gates,
            fixed_queries: &self.fixed_queries,
            advice_queries: &self.advice_queries,
            instance_queries: &self.instance_queries,
            permutation: &self.permutation,
            lookups: &self.lookups,
            shuffles: &self.shuffles,
            constants: &self.constants,
            minimum_degree: &self.minimum_degree,
        }
    }
}

} // verus!
