use halo2_backend::column::{Advice, Any, Column, Fixed, Instance, Rotation, SecondPhase};
use halo2_backend::expression::{AdviceQuery, Challenge, Expression, FixedQuery, InstanceQuery};
use halo2_backend::sealed::SealedPhase;
use halo2curves::bn256::Fr;

fn fixed(col: usize, rot: i32) -> Expression<u64> {
    Column::new(col, Fixed).rot(rot)
}

fn advice(col: usize, rot: i32) -> Expression<u64> {
    Column::new(col, Advice::default()).rot(rot)
}

#[test]
fn iter_sum() {
    let exprs: Vec<Expression<Fr>> = vec![
        Expression::Constant(1.into()),
        Expression::Constant(2.into()),
        Expression::Constant(3.into()),
    ];
    let happened: Expression<Fr> = Expression::sum_of(exprs);
    let expected: Expression<Fr> = Expression::Sum(
        Box::new(Expression::Sum(
            Box::new(Expression::Constant(1.into())),
            Box::new(Expression::Constant(2.into())),
        )),
        Box::new(Expression::Constant(3.into())),
    );

    assert_eq!(happened, expected);
}

#[test]
fn iter_product() {
    let exprs: Vec<Expression<Fr>> = vec![
        Expression::Constant(1.into()),
        Expression::Constant(2.into()),
        Expression::Constant(3.into()),
    ];
    let happened: Expression<Fr> = Expression::product_of(exprs);
    let expected: Expression<Fr> = Expression::Product(
        Box::new(Expression::Product(
            Box::new(Expression::Constant(1.into())),
            Box::new(Expression::Constant(2.into())),
        )),
        Box::new(Expression::Constant(3.into())),
    );

    assert_eq!(happened, expected);
}

#[test]
fn empty_sum_and_product_are_identities() {
    let zero: Expression<Fr> = Expression::sum_of(Vec::new());
    let one: Expression<Fr> = Expression::product_of(Vec::new());
    assert_eq!(zero, Expression::Constant(Fr::from(0u64)));
    assert_eq!(one, Expression::Constant(Fr::from(1u64)));
}

#[test]
fn degree_of_each_form() {
    let a = advice(0, 0);
    let f = fixed(1, 1);
    assert_eq!(Expression::<u64>::Constant(5).degree(), 0);
    assert_eq!(a.degree(), 1);
    assert_eq!(Challenge { index: 0, phase: SecondPhase.to_sealed() }.expr::<u64>().degree(), 0);
    assert_eq!((a.clone() + f.clone()).degree(), 1);
    assert_eq!((a.clone() * f.clone()).degree(), 2);
    assert_eq!((a.clone() * f.clone() * a.clone()).degree(), 3);
    assert_eq!((-(a.clone() * f.clone())).degree(), 2);
    assert_eq!(((a.clone() * f.clone()) * 7u64).degree(), 2);
    assert_eq!((a.clone() - f.clone()).degree(), 1);
    assert_eq!(a.clone().square().degree(), 2);
}

#[test]
fn complexity_of_each_form() {
    let a = advice(0, 0);
    let f = fixed(1, 1);
    assert_eq!(Expression::<u64>::Constant(5).complexity(), 0);
    assert_eq!(a.complexity(), 1);
    assert_eq!((-a.clone()).complexity(), 6);
    assert_eq!((a.clone() + f.clone()).complexity(), 17);
    assert_eq!((a.clone() * f.clone()).complexity(), 32);
    assert_eq!((a.clone() * 3u64).complexity(), 31);
    assert_eq!((a.clone() - f.clone()).complexity(), 1 + 6 + 15);
}

#[test]
fn operators_build_nodes() {
    let a = advice(0, 0);
    let f = fixed(1, -1);
    assert_eq!(
        a.clone() - f.clone(),
        Expression::Sum(Box::new(a.clone()), Box::new(Expression::Negated(Box::new(f.clone()))))
    );
    assert_eq!(
        a.clone().square(),
        Expression::Product(Box::new(a.clone()), Box::new(a.clone()))
    );
    assert_eq!(a.clone() * 4u64, Expression::Scaled(Box::new(a.clone()), 4));
}

#[test]
fn query_cell_tags_the_kind() {
    let e: Expression<u64> = Column::new(3, Any::Fixed).next();
    assert_eq!(
        e,
        Expression::Fixed(FixedQuery { index: None, column_index: 3, rotation: Rotation(1) })
    );
    let e: Expression<u64> = Column::new(2, Any::Instance).prev();
    assert_eq!(
        e,
        Expression::Instance(InstanceQuery { index: None, column_index: 2, rotation: Rotation(-1) })
    );
    let e: Expression<u64> = Column::new(1, Any::advice_in(SecondPhase)).cur();
    match e {
        Expression::Advice(AdviceQuery { index, column_index, rotation, phase }) => {
            assert_eq!(index, None);
            assert_eq!(column_index, 1);
            assert_eq!(rotation, Rotation(0));
            assert_eq!(phase, SecondPhase.to_sealed());
        }
        _ => panic!("expected an advice query"),
    }
    let e: Expression<u64> = Column::new(4, Instance).query_cell(Rotation(5));
    assert_eq!(
        e,
        Expression::Instance(InstanceQuery { index: None, column_index: 4, rotation: Rotation(5) })
    );
}

fn eval(e: &Expression<u64>, values: &[u64]) -> u64 {
    e.evaluate(
        &|c| c,
        &|q: FixedQuery| values[q.column_index],
        &|q: AdviceQuery| values[q.column_index],
        &|q: InstanceQuery| values[q.column_index],
        &|_c: Challenge| 11,
        &|a: u64| 1000 - a,
        &|a: u64, b: u64| a + b,
        &|a: u64, b: u64| a * b,
        &|a: u64, f: u64| a * f,
    )
}

fn eval_lazy(e: &Expression<u64>, values: &[u64]) -> u64 {
    e.evaluate_lazy(
        &|c| c,
        &|q: FixedQuery| values[q.column_index],
        &|q: AdviceQuery| values[q.column_index],
        &|q: InstanceQuery| values[q.column_index],
        &|_c: Challenge| 11,
        &|a: u64| 1000 - a,
        &|a: u64, b: u64| a + b,
        &|a: u64, b: u64| a * b,
        &|a: u64, f: u64| a * f,
        &0,
    )
}

#[test]
fn evaluate_folds_bottom_up() {
    // (a0 + f1) * a2 * 3, with a0 = 2, f1 = 5, a2 = 4
    let e = (advice(0, 0) + fixed(1, 0)) * advice(2, 0) * 3u64;
    assert_eq!(eval(&e, &[2, 5, 4]), 84);
    let n = -advice(0, 0);
    assert_eq!(eval(&n, &[2]), 998);
}

#[test]
fn lazy_evaluation_agrees_with_plain_evaluation() {
    let s = advice(0, 0);
    let body = (advice(1, 0) + fixed(2, 0)) * (advice(1, 1) + Expression::Constant(7));
    let gated = s.clone() * body.clone();
    for values in [[0u64, 3, 4], [1, 3, 4], [2, 0, 9]] {
        assert_eq!(eval(&gated, &values), eval_lazy(&gated, &values));
        assert_eq!(eval(&body, &values), eval_lazy(&body, &values));
    }
}

#[test]
fn lazy_evaluation_skips_the_costly_factor_after_zero() {
    // The selector is cheaper than the body: with a zero selector, the body is
    // not evaluated, so a handler that would panic on it is never reached.
    let gated = advice(0, 0) * (fixed(9, 0) + fixed(9, 1));
    let r = gated.evaluate_lazy(
        &|c: u64| c,
        &|_q: FixedQuery| -> u64 { panic!("fixed column evaluated") },
        &|q: AdviceQuery| [0u64][q.column_index],
        &|_q: InstanceQuery| 0,
        &|_c: Challenge| 0,
        &|a: u64| a,
        &|a: u64, b: u64| a + b,
        &|a: u64, b: u64| a * b,
        &|a: u64, f: u64| a * f,
        &0,
    );
    assert_eq!(r, 0);
}

#[test]
fn to_mid_drops_indices_only() {
    let e = advice(0, 1) * fixed(2, 0) + Expression::Constant(3);
    let m = e.to_mid();
    assert_eq!(m.degree(), e.degree());
    assert_eq!(m.degree(), 2);
}

#[test]
fn identifier_is_prefix_form() {
    let e = advice(0, 0) + fixed(1, -1) * 3u64;
    assert_eq!(e.identifier(), "(advice[0][0]+fixed[1][-1]*3)");
    let p = -(advice(2, 1) * Expression::Constant(5));
    assert_eq!(p.identifier(), "(-(advice[2][1]*5))");
    let c: Expression<u64> = Challenge { index: 4, phase: SecondPhase.to_sealed() }.expr();
    assert_eq!(c.identifier(), "challenge[4]");
    let i: Expression<u64> = Column::new(12, Instance).rot(-10);
    assert_eq!(i.identifier(), "instance[12][-10]");
}

#[test]
fn identifier_depends_on_operand_order() {
    let ab = advice(0, 0) + fixed(1, 0);
    let ba = fixed(1, 0) + advice(0, 0);
    assert_ne!(ab.identifier(), ba.identifier());
    assert_eq!(ab.identifier(), (advice(0, 0) + fixed(1, 0)).identifier());
}
