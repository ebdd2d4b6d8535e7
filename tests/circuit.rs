use halo2_backend::column::{
    Advice, Any, Column, Fixed, FirstPhase, Instance, KindMismatch, Rotation, SecondPhase,
    ThirdPhase,
};
use halo2_backend::constraint_system::{ConstraintSystem, ConstraintSystemV2Backend};
use halo2_backend::expression::{AdviceQueryMid, Expression, ExpressionMid, FixedQueryMid, InstanceQueryMid};
use halo2_backend::gate::{Constraint, Constraints, GateV2Backend};
use halo2_backend::lookup;
use halo2_backend::permutation::{Argument, AssemblyFront, Cell, Error};
use halo2_backend::sealed::SealedPhase;
use halo2_backend::shuffle;
use halo2curves::bn256::G1Affine;
use halo2curves::group::prime::PrimeCurveAffine;
use halo2curves::group::GroupEncoding;

fn mid_fixed(col: usize, rot: i32) -> ExpressionMid<u64> {
    ExpressionMid::Fixed(FixedQueryMid { column_index: col, rotation: Rotation(rot) })
}

fn mid_advice(col: usize, rot: i32) -> ExpressionMid<u64> {
    ExpressionMid::Advice(AdviceQueryMid {
        column_index: col,
        rotation: Rotation(rot),
        phase: FirstPhase.to_sealed(),
    })
}

fn mid_instance(col: usize, rot: i32) -> ExpressionMid<u64> {
    ExpressionMid::Instance(InstanceQueryMid { column_index: col, rotation: Rotation(rot) })
}

fn prod(a: ExpressionMid<u64>, b: ExpressionMid<u64>) -> ExpressionMid<u64> {
    ExpressionMid::Product(Box::new(a), Box::new(b))
}

fn add(a: ExpressionMid<u64>, b: ExpressionMid<u64>) -> ExpressionMid<u64> {
    ExpressionMid::Sum(Box::new(a), Box::new(b))
}

fn sample_backend() -> ConstraintSystemV2Backend<u64> {
    let mut permutation = Argument::new();
    permutation.add_column(Column::new(0, Any::advice()));
    permutation.add_column(Column::new(0, Any::Instance));
    permutation.add_column(Column::new(3, Any::Fixed));
    ConstraintSystemV2Backend {
        num_fixed_columns: 4,
        num_advice_columns: 2,
        num_instance_columns: 1,
        num_challenges: 0,
        unblinded_advice_columns: Vec::new(),
        advice_column_phase: vec![0, 0],
        challenge_phase: Vec::new(),
        gates: vec![
            GateV2Backend {
                name: "mul".to_string(),
                poly: prod(mid_fixed(0, 0), add(prod(mid_advice(0, 0), mid_advice(1, 0)), mid_advice(0, 1))),
            },
            GateV2Backend {
                name: "copy".to_string(),
                poly: add(mid_advice(0, 0), mid_fixed(1, 0)),
            },
        ],
        permutation,
        lookups: vec![lookup::ArgumentV2 {
            name: "range".to_string(),
            input_expressions: vec![mid_advice(1, 0)],
            table_expressions: vec![mid_fixed(2, 0)],
        }],
        shuffles: vec![shuffle::ArgumentV2 {
            name: "shuffle".to_string(),
            input_expressions: vec![mid_advice(1, -1)],
            shuffle_expressions: vec![mid_instance(0, 0)],
        }],
        general_column_annotations: Vec::new(),
    }
}

#[test]
fn column_order_is_instance_advice_fixed() {
    let i = Column::new(0, Any::Instance);
    let a = Column::new(0, Any::advice());
    let a2 = Column::new(0, Any::advice_in(SecondPhase));
    let f = Column::new(0, Any::Fixed);
    assert!(i < a);
    assert!(a < a2);
    assert!(a2 < f);
    assert!(i < f);
    assert!(Column::new(1, Any::Instance) < a);
    assert!(Column::new(0, Any::Fixed) < Column::new(1, Any::Fixed));
    assert_eq!(i.partial_cmp(&i), Some(std::cmp::Ordering::Equal));
    assert_eq!(f.partial_cmp(&a), Some(std::cmp::Ordering::Greater));
    // the derived total order agrees
    let mut v = vec![f, a2, i, a];
    v.sort();
    assert_eq!(v, vec![i, a, a2, f]);
    assert!(Any::Instance < Any::advice());
    assert!(Any::advice() < Any::Fixed);
}

#[test]
fn column_conversions() {
    let a: Column<Any> = Column::new(2, Advice::new(ThirdPhase)).into();
    assert_eq!(a, Column::new(2, Any::advice_in(ThirdPhase)));
    let f: Column<Any> = Column::new(5, Fixed).into();
    assert_eq!(f, Column::new(5, Any::Fixed));
    let i: Column<Any> = Column::new(7, Instance).into();
    assert_eq!(i, Column::new(7, Any::Instance));
    assert_eq!(a.to_advice(), Ok(Column::new(2, Advice::new(ThirdPhase))));
    assert_eq!(a.to_fixed(), Err(KindMismatch));
    assert_eq!(f.to_fixed(), Ok(Column::new(5, Fixed)));
    assert_eq!(f.to_instance(), Err(KindMismatch));
    assert_eq!(i.to_instance(), Ok(Column::new(7, Instance)));
    assert_eq!(i.to_advice(), Err(KindMismatch));
    assert_eq!(a.index(), 2);
    assert_eq!(*f.column_type(), Any::Fixed);
}

#[test]
fn phases_and_advice() {
    assert_eq!(Advice::default().phase(), 0);
    assert_eq!(Advice::new(SecondPhase).phase(), 1);
    assert_eq!(Advice::new(ThirdPhase).phase(), 2);
    assert_eq!(ThirdPhase.to_sealed().prev(), Some(SecondPhase.to_sealed()));
    assert_eq!(FirstPhase.to_sealed().prev(), None);
}

#[test]
fn argument_adds_each_column_once() {
    let mut p = Argument::new();
    let c0 = Column::new(0, Any::advice());
    let c1 = Column::new(1, Any::Fixed);
    p.add_column(c0);
    p.add_column(c1);
    p.add_column(c0);
    assert_eq!(p.get_columns(), vec![c0, c1]);
    assert_eq!(p.required_degree(), 3);
}

#[test]
fn copy_on_unknown_column_fails() {
    let mut p = Argument::new();
    let c0 = Column::new(0, Any::advice());
    p.add_column(c0);
    let other = Column::new(1, Any::advice());
    let mut assembly = AssemblyFront::new(4, &p);
    assert_eq!(assembly.copy(other, 0, c0, 0), Err(Error::ColumnNotInPermutation(other)));
    assert_eq!(assembly.copy(c0, 0, other, 0), Err(Error::ColumnNotInPermutation(other)));
    assert!(assembly.copies().is_empty());
}

#[test]
fn copy_out_of_bounds_fails() {
    let mut p = Argument::new();
    let c0 = Column::new(0, Any::advice());
    p.add_column(c0);
    let mut assembly = AssemblyFront::new(4, &p);
    assert_eq!(assembly.copy(c0, 4, c0, 0), Err(Error::BoundsFailure));
    assert_eq!(assembly.copy(c0, 0, c0, 9), Err(Error::BoundsFailure));
    assert_eq!(assembly.copy(c0, 3, c0, 0), Ok(()));
}

#[test]
fn two_column_assembly_scenario() {
    let mut p = Argument::new();
    let col0 = Column::new(0, Any::advice());
    let col1 = Column::new(1, Any::advice());
    p.add_column(col0);
    p.add_column(col1);
    let mut assembly = AssemblyFront::new(4, &p);
    assert_eq!(assembly.copy(col0, 1, col1, 2), Ok(()));
    assert_eq!(assembly.copy(col0, 3, col0, 0), Ok(()));
    assert_eq!(assembly.n(), 4);
    assert_eq!(
        assembly.copies().clone(),
        vec![
            (Cell { column: col0, row: 1 }, Cell { column: col1, row: 2 }),
            (Cell { column: col0, row: 3 }, Cell { column: col0, row: 0 }),
        ]
    );
}

#[test]
fn default_constraint_system_rows() {
    let cs: ConstraintSystem<u64> = ConstraintSystem::default();
    assert_eq!(cs.blinding_factors(), 5);
    assert_eq!(cs.minimum_rows(), 8);
    assert_eq!(cs.degree(), 3);
    assert_eq!(cs.phases().len(), 1);
}

#[test]
fn blinding_factors_follow_advice_queries() {
    let mut cs: ConstraintSystem<u64> = ConstraintSystem::default();
    cs.num_advice_queries = vec![2, 7, 1];
    assert_eq!(cs.blinding_factors(), 9);
    assert_eq!(cs.minimum_rows(), 12);
    cs.num_advice_queries = vec![0, 3];
    assert_eq!(cs.blinding_factors(), 5);
    assert_eq!(cs.minimum_rows(), cs.blinding_factors() + 3);
}

#[test]
fn collector_indexes_in_first_seen_order() {
    let cs2 = sample_backend();
    let (queries, gates, lookups, shuffles) = cs2.collect_queries();
    let adv = |i: usize, r: i32| (Column::new(i, Advice::default()), Rotation(r));
    assert_eq!(queries.advice, vec![adv(0, 0), adv(1, 0), adv(0, 1), adv(1, -1)]);
    assert_eq!(
        queries.fixed,
        vec![
            (Column::new(0, Fixed), Rotation(0)),
            (Column::new(1, Fixed), Rotation(0)),
            (Column::new(2, Fixed), Rotation(0)),
            (Column::new(3, Fixed), Rotation(0)),
        ]
    );
    assert_eq!(queries.instance, vec![(Column::new(0, Instance), Rotation(0))]);
    assert_eq!(queries.num_advice_queries, vec![2, 2]);
    assert_eq!(gates.len(), 2);
    assert_eq!(gates[0].name(), "mul");
    assert_eq!(gates[0].polynomials().len(), 1);
    assert_eq!(gates[0].polynomials()[0].to_mid(), cs2.gates[0].poly);
    assert_eq!(gates[1].polynomials()[0].to_mid(), cs2.gates[1].poly);
    match &gates[1].polynomials()[0] {
        Expression::Sum(a, b) => {
            match (&**a, &**b) {
                (Expression::Advice(q), Expression::Fixed(f)) => {
                    assert_eq!(q.index(), Some(0));
                    assert_eq!(f.index(), Some(1));
                }
                _ => panic!("unexpected shape"),
            }
        }
        _ => panic!("unexpected shape"),
    }
    assert_eq!(lookups[0].name, "range");
    assert_eq!(lookups[0].input_expressions[0].to_mid(), mid_advice(1, 0));
    assert_eq!(shuffles[0].shuffle_expressions[0].to_mid(), mid_instance(0, 0));
}

#[test]
fn collector_is_deterministic() {
    let cs2 = sample_backend();
    let (q1, g1, _, _) = cs2.collect_queries();
    let (q2, g2, _, _) = cs2.collect_queries();
    assert_eq!(q1.advice, q2.advice);
    assert_eq!(q1.fixed, q2.fixed);
    assert_eq!(q1.instance, q2.instance);
    assert_eq!(q1.num_advice_queries, q2.num_advice_queries);
    for (a, b) in g1.iter().zip(g2.iter()) {
        assert_eq!(a.polynomials(), b.polynomials());
    }
}

#[test]
fn indexing_keeps_degree() {
    let cs2 = sample_backend();
    let cs = ConstraintSystem::from_backend(sample_backend());
    for (g, m) in cs.gates().iter().zip(cs2.gates.iter()) {
        assert_eq!(g.polynomials()[0].degree(), m.poly.degree());
        assert_eq!(g.polynomials()[0].to_mid().degree(), m.poly.degree());
    }
}

#[test]
fn constraint_system_from_backend() {
    let cs = ConstraintSystem::from_backend(sample_backend());
    assert_eq!(cs.num_fixed_columns(), 4);
    assert_eq!(cs.num_advice_columns(), 2);
    assert_eq!(cs.num_instance_columns(), 1);
    assert_eq!(cs.num_selectors(), 0);
    assert_eq!(cs.num_challenges(), 0);
    assert_eq!(cs.advice_column_phase(), vec![0, 0]);
    assert_eq!(cs.challenge_phase(), Vec::<u8>::new());
    // gate degree 3, lookup 2 + 1 + 1 = 4, shuffle 2 + 1 = 3
    assert_eq!(cs.degree(), 4);
    assert_eq!(cs.blinding_factors(), 5);
    assert_eq!(cs.minimum_rows(), 8);
    assert_eq!(cs.get_advice_query_index(Column::new(1, Advice::default()), Rotation(-1)), 3);
    assert_eq!(cs.get_fixed_query_index(Column::new(3, Fixed), Rotation(0)), 3);
    assert_eq!(cs.get_instance_query_index(Column::new(0, Instance), Rotation(0)), 0);
    assert_eq!(cs.get_any_query_index(Column::new(0, Any::advice()), Rotation(1)), 2);
    assert_eq!(cs.permutation().get_columns().len(), 3);
    assert_eq!(cs.lookups()[0].required_degree(), 4);
    assert_eq!(cs.shuffles()[0].required_degree(), 3);
    assert_eq!(cs.phases(), vec![FirstPhase.to_sealed()]);
}

#[test]
fn explicit_minimum_degree_counts() {
    let mut cs = ConstraintSystem::from_backend(sample_backend());
    cs.minimum_degree = Some(9);
    assert_eq!(cs.degree(), 9);
}

#[test]
fn selector_multiplies_every_constraint() {
    let s: Expression<u64> = Column::new(0, Fixed).cur();
    let a: Expression<u64> = Column::new(0, Advice::default()).cur();
    let b: Expression<u64> = Column::new(1, Advice::default()).cur();
    let cs = Constraints::with_selector(
        s.clone(),
        vec![Constraint::named("first".to_string(), a.clone()), Constraint::from_poly(b.clone())],
    );
    let out = cs.into_constraints();
    assert_eq!(out.len(), 2);
    assert_eq!(out[0].name, "first");
    assert_eq!(out[0].poly, s.clone() * a);
    assert_eq!(out[1].name, "");
    assert_eq!(out[1].poly, s * b);
}

#[test]
fn into_backend_names_each_polynomial() {
    let mut cs = ConstraintSystem::from_backend(sample_backend());
    cs.gates[0].constraint_names = vec!["".to_string()];
    cs.gates[1].constraint_names = vec!["eq".to_string()];
    let back = cs.into_backend();
    assert_eq!(back.gates.len(), 2);
    assert_eq!(back.gates[0].name(), "mul");
    assert_eq!(back.gates[1].name(), "copy:eq");
    assert_eq!(*back.gates[0].polynomial(), sample_backend().gates[0].poly);
    assert_eq!(back.lookups[0].input_expressions, vec![mid_advice(1, 0)]);
    assert_eq!(back.shuffles[0].shuffle_expressions, vec![mid_instance(0, 0)]);
    assert_eq!(back.permutation.get_columns().len(), 3);
}

fn follow(mapping: &[Vec<(usize, usize)>], start: (usize, usize)) -> Vec<(usize, usize)> {
    let mut cycle = vec![start];
    let mut cur = mapping[start.0][start.1];
    while cur != start {
        cycle.push(cur);
        cur = mapping[cur.0][cur.1];
    }
    cycle
}

#[test]
fn two_column_scenario_builds_the_permutation() {
    let mut p = Argument::new();
    let col0 = Column::new(0, Any::advice());
    let col1 = Column::new(1, Any::advice());
    p.add_column(col0);
    p.add_column(col1);
    let mut front = AssemblyFront::new(4, &p);
    assert_eq!(front.copy(col0, 1, col1, 2), Ok(()));
    assert_eq!(front.copy(col0, 3, col0, 0), Ok(()));
    let assembly = halo2_backend::permutation::Assembly::from_copies(4, &p, front.copies()).unwrap();
    let mapping = assembly.mapping();
    assert_eq!(mapping.len(), 2);
    assert!(mapping.iter().all(|column| column.len() == 4));
    // the mapping is a permutation of the eight cells
    let mut images: Vec<(usize, usize)> = mapping.iter().flatten().copied().collect();
    images.sort();
    let cells: Vec<(usize, usize)> = (0..2).flat_map(|c| (0..4).map(move |r| (c, r))).collect();
    assert_eq!(images, cells);
    // copied cells share a cycle, others stay fixed points
    let c = follow(&mapping, (0, 1));
    assert_eq!(c.len(), 2);
    assert!(c.contains(&(1, 2)));
    let c = follow(&mapping, (0, 3));
    assert_eq!(c.len(), 2);
    assert!(c.contains(&(0, 0)));
    assert_eq!(mapping[0][2], (0, 2));
    assert_eq!(mapping[1][0], (1, 0));
}

#[test]
fn assembly_merges_cycles_transitively() {
    let mut p = Argument::new();
    let a = Column::new(0, Any::advice());
    let f = Column::new(0, Any::Fixed);
    p.add_column(a);
    p.add_column(f);
    let copies = vec![
        (Cell { column: a, row: 0 }, Cell { column: f, row: 1 }),
        (Cell { column: f, row: 1 }, Cell { column: a, row: 2 }),
        (Cell { column: a, row: 2 }, Cell { column: a, row: 0 }),
    ];
    let assembly = halo2_backend::permutation::Assembly::from_copies(3, &p, &copies).unwrap();
    let mapping = assembly.mapping();
    let c = follow(&mapping, (0, 0));
    assert_eq!(c.len(), 3);
    assert!(c.contains(&(1, 1)));
    assert!(c.contains(&(0, 2)));
}

#[test]
fn assembly_rejects_bad_copies() {
    let mut p = Argument::new();
    let a = Column::new(0, Any::advice());
    p.add_column(a);
    let stranger = Column::new(5, Any::Instance);
    let bad_column = vec![(Cell { column: a, row: 0 }, Cell { column: stranger, row: 0 })];
    assert_eq!(
        halo2_backend::permutation::Assembly::from_copies(2, &p, &bad_column).err(),
        Some(Error::ColumnNotInPermutation(stranger))
    );
    let bad_row = vec![(Cell { column: a, row: 0 }, Cell { column: a, row: 2 })];
    assert_eq!(
        halo2_backend::permutation::Assembly::from_copies(2, &p, &bad_row).err(),
        Some(Error::BoundsFailure)
    );
}

#[test]
fn virtual_cell_from_column_and_rotation() {
    let c = Column::new(2, Any::Fixed);
    let cell: halo2_backend::gate::VirtualCell = (c, Rotation(-1)).into();
    assert_eq!(cell.column, c);
    assert_eq!(cell.rotation, Rotation(-1));
}

#[test]
fn pinned_borrows_the_parameters() {
    let cs = ConstraintSystem::from_backend(sample_backend());
    let pinned = cs.pinned();
    assert_eq!(*pinned.num_advice_columns, 2);
    assert_eq!(*pinned.num_fixed_columns, 4);
    assert_eq!(pinned.advice_queries.len(), 4);
    assert_eq!(*pinned.minimum_degree, None);
    assert_eq!(pinned.gates.len(), 2);
}

#[test]
fn fresh_assembly_is_the_identity() {
    let mut p = Argument::new();
    p.add_column(Column::new(0, Any::advice()));
    p.add_column(Column::new(1, Any::Instance));
    let assembly = halo2_backend::permutation::Assembly::new(3, &p);
    let mapping = assembly.mapping();
    assert_eq!(mapping, vec![vec![(0, 0), (0, 1), (0, 2)], vec![(1, 0), (1, 1), (1, 2)]]);
}

#[test]
fn verifying_key_commitments_round_trip() {
    let g = G1Affine::generator();
    let points = vec![g, (g + g).into(), (g + g + g).into()];
    let encodings: Vec<Vec<u8>> = points.iter().map(|p| p.to_bytes().as_ref().to_vec()).collect();
    let point_len = encodings[0].len();
    let mut bytes = halo2_backend::permutation::write_commitments(&encodings);
    assert_eq!(bytes.len(), 3 * point_len);
    bytes.extend_from_slice(&[7, 7, 7]);
    let parts = halo2_backend::permutation::read_commitments(&bytes, 3, point_len).unwrap();
    assert_eq!(parts, encodings);
    let decoded: Vec<G1Affine> = parts
        .iter()
        .map(|b| {
            let mut repr = <G1Affine as GroupEncoding>::Repr::default();
            repr.as_mut().copy_from_slice(b);
            G1Affine::from_bytes(&repr).unwrap()
        })
        .collect();
    assert_eq!(decoded, points);
}

#[test]
fn reading_too_few_bytes_fails() {
    let bytes = vec![1u8, 2, 3, 4, 5];
    assert_eq!(halo2_backend::permutation::read_commitments(&bytes, 2, 3), None);
    assert_eq!(
        halo2_backend::permutation::read_commitments(&bytes, 2, 2),
        Some(vec![vec![1, 2], vec![3, 4]])
    );
}
