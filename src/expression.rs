use vstd::prelude::*;

use crate::column::{Any, Rotation};
use crate::sealed;
use vstd::std_specs::cmp::PartialEqSpec;
use vstd::string::StringExecFns;

verus! {

/// Query of a fixed column at a relative location, before indexing.
#[derive(Copy, Clone, Debug, PartialEq, Eq, Structural)]
pub struct FixedQueryMid {
    /// Column index
    pub column_index: usize,
    /// Rotation of this query
    pub rotation: Rotation,
}

/// Query of a fixed column at a relative location.
#[derive(Copy, Clone, Debug, PartialEq, Eq, Structural)]
pub struct FixedQuery {
    /// Query index
    pub index: Option<usize>,
    /// Column index
    pub column_index: usize,
    /// Rotation of this query
    pub rotation: Rotation,
}

impl FixedQuery {
    /// Column index
    pub fn column_index(&self) -> (r: usize)
        ensures
            r == self.column_index,
    {
        self.column_index
    }

    /// Rotation of this query
    pub fn rotation(&self) -> (r: Rotation)
        ensures
            r == self.rotation,
    {
        self.rotation
    }

    /// Dense index of this query, once it has been indexed.
    pub fn index(&self) -> (r: Option<usize>)
        ensures
            r == self.index,
    {
        self.index
    }
}

/// Query of an advice column at a relative location, before indexing.
#[derive(Copy, Clone, Debug, PartialEq, Eq, Structural)]
pub struct AdviceQueryMid {
    /// Column index
    pub column_index: usize,
    /// Rotation of this query
    pub rotation: Rotation,
    /// Phase of this advice column
    pub phase: sealed::Phase,
}

/// Query of an advice column at a relative location.
#[derive(Copy, Clone, Debug, PartialEq, Eq, Structural)]
pub struct AdviceQuery {
    /// Query index
    pub index: Option<usize>,
    /// Column index
    pub column_index: usize,
    /// Rotation of this query
    pub rotation: Rotation,
    /// Phase of this advice column
    pub phase: sealed::Phase,
}

impl AdviceQuery {
    /// Column index
    pub fn column_index(&self) -> (r: usize)
        ensures
            r == self.column_index,
    {
        self.column_index
    }

    /// Rotation of this query
    pub fn rotation(&self) -> (r: Rotation)
        ensures
            r == self.rotation,
    {
        self.rotation
    }

    /// Phase of this advice column
    pub fn phase(&self) -> (r: u8)
        ensures
            r == self.phase.number(),
    {
        self.phase.0
    }

    /// Dense index of this query, once it has been indexed.
    pub fn index(&self) -> (r: Option<usize>)
        ensures
            r == self.index,
    {
        self.index
    }
}

/// Query of an instance column at a relative location, before indexing.
#[derive(Copy, Clone, Debug, PartialEq, Eq, Structural)]
pub struct InstanceQueryMid {
    /// Column index
    pub column_index: usize,
    /// Rotation of this query
    pub rotation: Rotation,
}

/// Query of an instance column at a relative location.
#[derive(Copy, Clone, Debug, PartialEq, Eq, Structural)]
pub struct InstanceQuery {
    /// Query index
    pub index: Option<usize>,
    /// Column index
    pub column_index: usize,
    /// Rotation of this query
    pub rotation: Rotation,
}

impl InstanceQuery {
    /// Column index
    pub fn column_index(&self) -> (r: usize)
        ensures
            r == self.column_index,
    {
        self.column_index
    }

    /// Rotation of this query
    pub fn rotation(&self) -> (r: Rotation)
        ensures
            r == self.rotation,
    {
        self.rotation
    }

    /// Dense index of this query, once it has been indexed.
    pub fn index(&self) -> (r: Option<usize>)
        ensures
            r == self.index,
    {
        self.index
    }
}

/// A challenge squeezed from the transcript after the advice columns of its
/// phase have been committed.
#[derive(Clone, Copy, Debug, PartialEq, Eq, Structural, Hash)]
pub struct Challenge {
    pub index: usize,
    pub phase: sealed::Phase,
}

impl Challenge {
    /// Index of this challenge.
    pub fn index(&self) -> (r: usize)
        ensures
            r == self.index,
    {
        self.index
    }

    /// Phase of this challenge.
    pub fn phase(&self) -> (r: u8)
        ensures
            r == self.phase.number(),
    {
        self.phase.0
    }

    /// Expression made of this challenge alone.
    pub fn expr<F>(&self) -> (r: Expression<F>)
        ensures
            r == Expression::<F>::Challenge(*self),
    {
        Expression::Challenge(*self)
    }
}

/// Polynomial identity over column queries, as the frontend produces it.
#[verifier::reject_recursive_types(F)]
#[derive(Debug, PartialEq, Eq)]
pub enum ExpressionMid<F> {
    /// This is a constant polynomial
    Constant(F),
    /// This is a fixed column queried at a certain relative location
    Fixed(FixedQueryMid),
    /// This is an advice (witness) column queried at a certain relative location
    Advice(AdviceQueryMid),
    /// This is an instance (external) column queried at a certain relative location
    Instance(InstanceQueryMid),
    /// This is a challenge
    Challenge(Challenge),
    /// This is a negated polynomial
    Negated(Box<ExpressionMid<F>>),
    /// This is the sum of two polynomials
    Sum(Box<ExpressionMid<F>>, Box<ExpressionMid<F>>),
    /// This is the product of two polynomials
    Product(Box<ExpressionMid<F>>, Box<ExpressionMid<F>>),
    /// This is a scaled polynomial
    Scaled(Box<ExpressionMid<F>>, F),
}

/// Polynomial identity over column queries whose leaves carry dense query
/// indices.
#[verifier::reject_recursive_types(F)]
#[derive(Debug, PartialEq, Eq)]
pub enum Expression<F> {
    /// This is a constant polynomial
    Constant(F),
    /// This is a fixed column queried at a certain relative location
    Fixed(FixedQuery),
    /// This is an advice (witness) column queried at a certain relative location
    Advice(AdviceQuery),
    /// This is an instance (external) column queried at a certain relative location
    Instance(InstanceQuery),
    /// This is a challenge
    Challenge(Challenge),
    /// This is a negated polynomial
    Negated(Box<Expression<F>>),
    /// This is the sum of two polynomials
    Sum(Box<Expression<F>>, Box<Expression<F>>),
    /// This is the product of two polynomials
    Product(Box<Expression<F>>, Box<Expression<F>>),
    /// This is a scaled polynomial
    Scaled(Box<Expression<F>>, F),
}

/// The not yet indexed query of column `index` of kind `kind` at `at`.
pub open spec fn query_expression<F>(kind: Any, index: usize, at: Rotation) -> Expression<F> {
    match kind {
        Any::Advice(a) => Expression::Advice(
            AdviceQuery { index: None, column_index: index, rotation: at, phase: a.phase },
        ),
        Any::Fixed => Expression::Fixed(
            FixedQuery { index: None, column_index: index, rotation: at },
        ),
        Any::Instance => Expression::Instance(
            InstanceQuery { index: None, column_index: index, rotation: at },
        ),
    }
}

impl<F> ExpressionMid<F> {
    /// Degree of the polynomial: queries count one, products add.
    pub open spec fn spec_degree(&self) -> nat
        decreases self,
    {
        match self {
            ExpressionMid::Constant(_) => 0,
            ExpressionMid::Fixed(_) => 1,
            ExpressionMid::Advice(_) => 1,
            ExpressionMid::Instance(_) => 1,
            ExpressionMid::Challenge(_) => 0,
            ExpressionMid::Negated(a) => a.spec_degree(),
            ExpressionMid::Sum(a, b) => if a.spec_degree() >= b.spec_degree() {
                a.spec_degree()
            } else {
                b.spec_degree()
            },
            ExpressionMid::Product(a, b) => a.spec_degree() + b.spec_degree(),
            ExpressionMid::Scaled(a, _) => a.spec_degree(),
        }
    }

    /// Compute the degree of this polynomial.
    pub fn degree(&self) -> (r: usize)
        requires
            self.spec_degree() <= usize::MAX,
        ensures
            r == self.spec_degree(),
        decreases self,
    {
        match self {
            ExpressionMid::Constant(_) => 0,
            ExpressionMid::Fixed(_) => 1,
            ExpressionMid::Advice(_) => 1,
            ExpressionMid::Instance(_) => 1,
            ExpressionMid::Challenge(_) => 0,
            ExpressionMid::Negated(poly) => poly.degree(),
            ExpressionMid::Sum(a, b) => {
                let da = a.degree();
                let db = b.degree();
                if da >= db {
                    da
                } else {
                    db
                }
            },
            ExpressionMid::Product(a, b) => a.degree() + b.degree(),
            ExpressionMid::Scaled(poly, _) => poly.degree(),
        }
    }
}

impl<F> Expression<F> {
    /// Degree of the polynomial: queries count one, products add.
    pub open spec fn spec_degree(&self) -> nat
        decreases self,
    {
        match self {
            Expression::Constant(_) => 0,
            Expression::Fixed(_) => 1,
            Expression::Advice(_) => 1,
            Expression::Instance(_) => 1,
            Expression::Challenge(_) => 0,
            Expression::Negated(a) => a.spec_degree(),
            Expression::Sum(a, b) => if a.spec_degree() >= b.spec_degree() {
                a.spec_degree()
            } else {
                b.spec_degree()
            },
            Expression::Product(a, b) => a.spec_degree() + b.spec_degree(),
            Expression::Scaled(a, _) => a.spec_degree(),
        }
    }

    /// Cost estimate used to choose the order of evaluation.
    pub open spec fn spec_complexity(&self) -> nat
        decreases self,
    {
        match self {
            Expression::Constant(_) => 0,
            Expression::Fixed(_) => 1,
            Expression::Advice(_) => 1,
            Expression::Instance(_) => 1,
            Expression::Challenge(_) => 0,
            Expression::Negated(a) => a.spec_complexity() + 5,
            Expression::Sum(a, b) => a.spec_complexity() + b.spec_complexity() + 15,
            Expression::Product(a, b) => a.spec_complexity() + b.spec_complexity() + 30,
            Expression::Scaled(a, _) => a.spec_complexity() + 30,
        }
    }

    /// The same identity with the query indices dropped.
    pub open spec fn spec_to_mid(&self) -> ExpressionMid<F>
        decreases self,
    {
        match self {
            Expression::Constant(c) => ExpressionMid::Constant(*c),
            Expression::Fixed(q) => ExpressionMid::Fixed(
                FixedQueryMid { column_index: q.column_index, rotation: q.rotation },
            ),
            Expression::Advice(q) => ExpressionMid::Advice(
                AdviceQueryMid {
                    column_index: q.column_index,
                    rotation: q.rotation,
                    phase: q.phase,
                },
            ),
            Expression::Instance(q) => ExpressionMid::Instance(
                InstanceQueryMid { column_index: q.column_index, rotation: q.rotation },
            ),
            Expression::Challenge(c) => ExpressionMid::Challenge(*c),
            Expression::Negated(a) => ExpressionMid::Negated(Box::new(a.spec_to_mid())),
            Expression::Sum(a, b) => ExpressionMid::Sum(
                Box::new(a.spec_to_mid()),
                Box::new(b.spec_to_mid()),
            ),
            Expression::Product(a, b) => ExpressionMid::Product(
                Box::new(a.spec_to_mid()),
                Box::new(b.spec_to_mid()),
            ),
            Expression::Scaled(a, c) => ExpressionMid::Scaled(Box::new(a.spec_to_mid()), *c),
        }
    }

    /// Compute the degree of this polynomial.
    pub fn degree(&self) -> (r: usize)
        requires
            self.spec_degree() <= usize::MAX,
        ensures
            r == self.spec_degree(),
        decreases self,
    {
        match self {
            Expression::Constant(_) => 0,
            Expression::Fixed(_) => 1,
            Expression::Advice(_) => 1,
            Expression::Instance(_) => 1,
            Expression::Challenge(_) => 0,
            Expression::Negated(poly) => poly.degree(),
            Expression::Sum(a, b) => {
                let da = a.degree();
                let db = b.degree();
                if da >= db {
                    da
                } else {
                    db
                }
            },
            Expression::Product(a, b) => a.degree() + b.degree(),
            Expression::Scaled(poly, _) => poly.degree(),
        }
    }

    /// Approximate the computational complexity of this expression.
    pub fn complexity(&self) -> (r: usize)
        requires
            self.spec_complexity() <= usize::MAX,
        ensures
            r == self.spec_complexity(),
        decreases self,
    {
        match self {
            Expression::Constant(_) => 0,
            Expression::Fixed(_) => 1,
            Expression::Advice(_) => 1,
            Expression::Instance(_) => 1,
            Expression::Challenge(_) => 0,
            Expression::Negated(poly) => poly.complexity() + 5,
            Expression::Sum(a, b) => a.complexity() + b.complexity() + 15,
            Expression::Product(a, b) => a.complexity() + b.complexity() + 30,
            Expression::Scaled(poly, _) => poly.complexity() + 30,
        }
    }
}

impl<F: Copy> Expression<F> {
    /// The same identity with the query indices dropped.
    pub fn to_mid(&self) -> (r: ExpressionMid<F>)
        ensures
            r == self.spec_to_mid(),
        decreases self,
    {
        match self {
            Expression::Constant(c) => ExpressionMid::Constant(*c),
            Expression::Fixed(q) => ExpressionMid::Fixed(
                FixedQueryMid { column_index: q.column_index, rotation: q.rotation },
            ),
            Expression::Advice(q) => ExpressionMid::Advice(
                AdviceQueryMid {
                    column_index: q.column_index,
                    rotation: q.rotation,
                    phase: q.phase,
                },
            ),
            Expression::Instance(q) => ExpressionMid::Instance(
                InstanceQueryMid { column_index: q.column_index, rotation: q.rotation },
            ),
            Expression::Challenge(c) => ExpressionMid::Challenge(*c),
            Expression::Negated(a) => ExpressionMid::Negated(Box::new(a.to_mid())),
            Expression::Sum(a, b) => ExpressionMid::Sum(Box::new(a.to_mid()), Box::new(b.to_mid())),
            Expression::Product(a, b) => ExpressionMid::Product(
                Box::new(a.to_mid()),
                Box::new(b.to_mid()),
            ),
            Expression::Scaled(a, c) => ExpressionMid::Scaled(Box::new(a.to_mid()), *c),
        }
    }
}

/// Whether `eq_spec` of `T`, where `T` obeys it, says `a == b` is `outcome`.
pub open spec fn compares_as<T: PartialEq>(a: T, b: T, outcome: bool) -> bool {
    T::obeys_eq_spec() ==> a.eq_spec(&b) == outcome
}

impl<F> Expression<F> {
    /// Whether `r` is an outcome of folding this expression bottom-up with the
    /// given handlers: children first, then the handler of the node.
    pub open spec fn evaluates_to<
        T, CF: Fn(F) -> T, FX: Fn(FixedQuery) -> T, AX: Fn(AdviceQuery) -> T,
        IX: Fn(InstanceQuery) -> T, CH: Fn(Challenge) -> T, NG: Fn(T) -> T, SM: Fn(T, T) -> T,
        PR: Fn(T, T) -> T, SC: Fn(T, F) -> T,
    >(
        &self,
        r: T,
        constant: CF,
        fixed_column: FX,
        advice_column: AX,
        instance_column: IX,
        challenge: CH,
        negated: NG,
        sum: SM,
        product: PR,
        scaled: SC,
    ) -> bool
        decreases self,
    {
        match self {
            Expression::Constant(c) => call_ensures(constant, (*c,), r),
            Expression::Fixed(q) => call_ensures(fixed_column, (*q,), r),
            Expression::Advice(q) => call_ensures(advice_column, (*q,), r),
            Expression::Instance(q) => call_ensures(instance_column, (*q,), r),
            Expression::Challenge(c) => call_ensures(challenge, (*c,), r),
            Expression::Negated(a) => exists|ra: T|
                #![trigger call_ensures(negated, (ra,), r)]
                a.evaluates_to(
                        ra, constant, fixed_column, advice_column, instance_column, challenge,
                        negated, sum, product, scaled,
                    )
                        && call_ensures(negated, (ra,), r),
            Expression::Sum(a, b) => exists|ra: T, rb: T|
                a.evaluates_to(
                        ra, constant, fixed_column, advice_column, instance_column, challenge,
                        negated, sum, product, scaled,
                    )
                        && b.evaluates_to(
                        rb, constant, fixed_column, advice_column, instance_column, challenge,
                        negated, sum, product, scaled,
                    )
                        && call_ensures(sum, (ra, rb), r),
            Expression::Product(a, b) => exists|ra: T, rb: T|
                a.evaluates_to(
                        ra, constant, fixed_column, advice_column, instance_column, challenge,
                        negated, sum, product, scaled,
                    )
                        && b.evaluates_to(
                        rb, constant, fixed_column, advice_column, instance_column, challenge,
                        negated, sum, product, scaled,
                    )
                        && call_ensures(product, (ra, rb), r),
            Expression::Scaled(a, f) => exists|ra: T|
                #![trigger call_ensures(scaled, (ra, *f), r)]
                a.evaluates_to(
                        ra, constant, fixed_column, advice_column, instance_column, challenge,
                        negated, sum, product, scaled,
                    )
                        && call_ensures(scaled, (ra, *f), r),
        }
    }

    /// Whether `r` is an outcome of the lazy fold: as `evaluates_to`, but a
    /// product evaluates its cheaper factor first (the left one on a tie) and
    /// returns it, without evaluating the other one, when it compares equal to
    /// `zero`.
    pub open spec fn lazily_evaluates_to<
        T: PartialEq, CF: Fn(F) -> T, FX: Fn(FixedQuery) -> T, AX: Fn(AdviceQuery) -> T,
        IX: Fn(InstanceQuery) -> T, CH: Fn(Challenge) -> T, NG: Fn(T) -> T, SM: Fn(T, T) -> T,
        PR: Fn(T, T) -> T, SC: Fn(T, F) -> T,
    >(
        &self,
        r: T,
        constant: CF,
        fixed_column: FX,
        advice_column: AX,
        instance_column: IX,
        challenge: CH,
        negated: NG,
        sum: SM,
        product: PR,
        scaled: SC,
        zero: T,
    ) -> bool
        decreases self,
    {
        match self {
            Expression::Constant(c) => call_ensures(constant, (*c,), r),
            Expression::Fixed(q) => call_ensures(fixed_column, (*q,), r),
            Expression::Advice(q) => call_ensures(advice_column, (*q,), r),
            Expression::Instance(q) => call_ensures(instance_column, (*q,), r),
            Expression::Challenge(c) => call_ensures(challenge, (*c,), r),
            Expression::Negated(a) => exists|ra: T|
                #![trigger call_ensures(negated, (ra,), r)]
                a.lazily_evaluates_to(
                        ra, constant, fixed_column, advice_column, instance_column, challenge,
                        negated, sum, product, scaled, zero,
                    )
                        && call_ensures(negated, (ra,), r),
            Expression::Sum(a, b) => exists|ra: T, rb: T|
                a.lazily_evaluates_to(
                        ra, constant, fixed_column, advice_column, instance_column, challenge,
                        negated, sum, product, scaled, zero,
                    )
                        && b.lazily_evaluates_to(
                        rb, constant, fixed_column, advice_column, instance_column, challenge,
                        negated, sum, product, scaled, zero,
                    )
                        && call_ensures(sum, (ra, rb), r),
            Expression::Product(a, b) => {
                let (x, y) = if a.spec_complexity() <= b.spec_complexity() {
                    (a, b)
                } else {
                    (b, a)
                };
                exists|rx: T|
                    #![trigger compares_as(rx, zero, true)]
                    #![trigger compares_as(rx, zero, false)]
                    x.lazily_evaluates_to(
                            rx, constant, fixed_column, advice_column, instance_column,
                            challenge, negated, sum, product, scaled, zero,
                        )
                            && (
                    (compares_as(rx, zero, true) && r == rx) || (compares_as(rx, zero, false)
                        && exists|ry: T|
                        #![trigger call_ensures(product, (rx, ry), r)]
                        y.lazily_evaluates_to(
                                ry, constant, fixed_column, advice_column, instance_column,
                                challenge, negated, sum, product, scaled, zero,
                            )
                                && call_ensures(product, (rx, ry), r)))
            },
            Expression::Scaled(a, f) => exists|ra: T|
                #![trigger call_ensures(scaled, (ra, *f), r)]
                a.lazily_evaluates_to(
                        ra, constant, fixed_column, advice_column, instance_column, challenge,
                        negated, sum, product, scaled, zero,
                    )
                        && call_ensures(scaled, (ra, *f), r),
        }
    }
}

impl<F: Copy> Expression<F> {
    /// Square this expression.
    pub fn square(self) -> (r: Self)
        ensures
            r == Expression::Product(Box::new(self), Box::new(self)),
    {
        self.clone() * self
    }

    /// Evaluate the polynomial using the provided closures to perform the
    /// operations.
    pub fn evaluate<T>(
        &self,
        constant: &impl Fn(F) -> T,
        fixed_column: &impl Fn(FixedQuery) -> T,
        advice_column: &impl Fn(AdviceQuery) -> T,
        instance_column: &impl Fn(InstanceQuery) -> T,
        challenge: &impl Fn(Challenge) -> T,
        negated: &impl Fn(T) -> T,
        sum: &impl Fn(T, T) -> T,
        product: &impl Fn(T, T) -> T,
        scaled: &impl Fn(T, F) -> T,
    ) -> (r: T)
        requires
            forall|x: F| call_requires(*constant, (x,)),
            forall|q: FixedQuery| call_requires(*fixed_column, (q,)),
            forall|q: AdviceQuery| call_requires(*advice_column, (q,)),
            forall|q: InstanceQuery| call_requires(*instance_column, (q,)),
            forall|c: Challenge| call_requires(*challenge, (c,)),
            forall|a: T| call_requires(*negated, (a,)),
            forall|a: T, b: T| call_requires(*sum, (a, b)),
            forall|a: T, b: T| call_requires(*product, (a, b)),
            forall|a: T, f: F| call_requires(*scaled, (a, f)),
        ensures
            self.evaluates_to(
                    r, *constant, *fixed_column, *advice_column, *instance_column, *challenge,
                    *negated, *sum, *product, *scaled,
                ),
        decreases self,
    {
        match self {
            Expression::Constant(scalar) => constant(*scalar),
            Expression::Fixed(query) => fixed_column(*query),
            Expression::Advice(query) => advice_column(*query),
            Expression::Instance(query) => instance_column(*query),
            Expression::Challenge(value) => challenge(*value),
            Expression::Negated(a) => {
                let ra = a.evaluate(
                    constant, fixed_column, advice_column, instance_column, challenge,
                    negated, sum, product, scaled,
                );
                negated(ra)
            },
            Expression::Sum(a, b) => {
                let ra = a.evaluate(
                    constant, fixed_column, advice_column, instance_column, challenge,
                    negated, sum, product, scaled,
                );
                let rb = b.evaluate(
                    constant, fixed_column, advice_column, instance_column, challenge,
                    negated, sum, product, scaled,
                );
                sum(ra, rb)
            },
            Expression::Product(a, b) => {
                let ra = a.evaluate(
                    constant, fixed_column, advice_column, instance_column, challenge,
                    negated, sum, product, scaled,
                );
                let rb = b.evaluate(
                    constant, fixed_column, advice_column, instance_column, challenge,
                    negated, sum, product, scaled,
                );
                product(ra, rb)
            },
            Expression::Scaled(a, f) => {
                let ra = a.evaluate(
                    constant, fixed_column, advice_column, instance_column, challenge,
                    negated, sum, product, scaled,
                );
                scaled(ra, *f)
            },
        }
    }

    /// Evaluate the polynomial lazily using the provided closures to perform
    /// the operations: a product whose cheaper factor equals `zero` is `zero`
    /// and its other factor is not evaluated.
    pub fn evaluate_lazy<T: PartialEq>(
        &self,
        constant: &impl Fn(F) -> T,
        fixed_column: &impl Fn(FixedQuery) -> T,
        advice_column: &impl Fn(AdviceQuery) -> T,
        instance_column: &impl Fn(InstanceQuery) -> T,
        challenge: &impl Fn(Challenge) -> T,
        negated: &impl Fn(T) -> T,
        sum: &impl Fn(T, T) -> T,
        product: &impl Fn(T, T) -> T,
        scaled: &impl Fn(T, F) -> T,
        zero: &T,
    ) -> (r: T)
        requires
            forall|x: F| call_requires(*constant, (x,)),
            forall|q: FixedQuery| call_requires(*fixed_column, (q,)),
            forall|q: AdviceQuery| call_requires(*advice_column, (q,)),
            forall|q: InstanceQuery| call_requires(*instance_column, (q,)),
            forall|c: Challenge| call_requires(*challenge, (c,)),
            forall|a: T| call_requires(*negated, (a,)),
            forall|a: T, b: T| call_requires(*sum, (a, b)),
            forall|a: T, b: T| call_requires(*product, (a, b)),
            forall|a: T, f: F| call_requires(*scaled, (a, f)),
            self.spec_complexity() <= usize::MAX,
        ensures
            self.lazily_evaluates_to(
                    r, *constant, *fixed_column, *advice_column, *instance_column, *challenge,
                    *negated, *sum, *product, *scaled, *zero,
                ),
        decreases self,
    {
        match self {
            Expression::Constant(scalar) => constant(*scalar),
            Expression::Fixed(query) => fixed_column(*query),
            Expression::Advice(query) => advice_column(*query),
            Expression::Instance(query) => instance_column(*query),
            Expression::Challenge(value) => challenge(*value),
            Expression::Negated(a) => {
                let a = a.evaluate_lazy(
                constant, fixed_column, advice_column, instance_column, challenge, negated, sum, product, scaled, zero,
            );
                negated(a)
            },
            Expression::Sum(a, b) => {
                let a = a.evaluate_lazy(
                constant, fixed_column, advice_column, instance_column, challenge, negated, sum, product, scaled, zero,
            );
                let b = b.evaluate_lazy(
                constant, fixed_column, advice_column, instance_column, challenge, negated, sum, product, scaled, zero,
            );
                sum(a, b)
            },
            Expression::Product(a, b) => {
                let (a, b) = if a.complexity() <= b.complexity() {
                    (a, b)
                } else {
                    (b, a)
                };
                let ra = a.evaluate_lazy(
                    constant, fixed_column, advice_column, instance_column, challenge,
                    negated, sum, product, scaled, zero,
                );
                let is_zero = ra == *zero;
                proof {
                    assert(compares_as(ra, *zero, is_zero));
                }
                if is_zero {
                    assert(compares_as(ra, *zero, true));
                    ra
                } else {
                    assert(compares_as(ra, *zero, false));
                    let rb = b.evaluate_lazy(
                        constant, fixed_column, advice_column, instance_column, challenge,
                        negated, sum, product, scaled, zero,
                    );
                    let r = product(ra, rb);
                    proof {
                        assert(b.lazily_evaluates_to(
                                rb, *constant, *fixed_column, *advice_column, *instance_column,
                                *challenge, *negated, *sum, *product, *scaled, *zero,
                            ));
                    }
                    r
                }
            },
            Expression::Scaled(a, f) => {
                let a = a.evaluate_lazy(
                constant, fixed_column, advice_column, instance_column, challenge, negated, sum, product, scaled, zero,
            );
                scaled(a, *f)
            },
        }
    }
}

/// Every handler gives at most one result for each argument.
pub open spec fn deterministic_handlers<
    F, T, CF: Fn(F) -> T, FX: Fn(FixedQuery) -> T, AX: Fn(AdviceQuery) -> T,
    IX: Fn(InstanceQuery) -> T, CH: Fn(Challenge) -> T, NG: Fn(T) -> T, SM: Fn(T, T) -> T,
    PR: Fn(T, T) -> T, SC: Fn(T, F) -> T,
>(
    constant: CF,
    fixed_column: FX,
    advice_column: AX,
    instance_column: IX,
    challenge: CH,
    negated: NG,
    sum: SM,
    product: PR,
    scaled: SC,
) -> bool {
    &&& forall|x: F, r: T, s: T|
        call_ensures(constant, (x,), r) && call_ensures(constant, (x,), s) ==> r == s
    &&& forall|q: FixedQuery, r: T, s: T|
        call_ensures(fixed_column, (q,), r) && call_ensures(fixed_column, (q,), s) ==> r == s
    &&& forall|q: AdviceQuery, r: T, s: T|
        call_ensures(advice_column, (q,), r) && call_ensures(advice_column, (q,), s) ==> r == s
    &&& forall|q: InstanceQuery, r: T, s: T|
        call_ensures(instance_column, (q,), r) && call_ensures(instance_column, (q,), s) ==> r == s
    &&& forall|c: Challenge, r: T, s: T|
        call_ensures(challenge, (c,), r) && call_ensures(challenge, (c,), s) ==> r == s
    &&& forall|a: T, r: T, s: T|
        call_ensures(negated, (a,), r) && call_ensures(negated, (a,), s) ==> r == s
    &&& forall|a: T, b: T, r: T, s: T|
        call_ensures(sum, (a, b), r) && call_ensures(sum, (a, b), s) ==> r == s
    &&& forall|a: T, b: T, r: T, s: T|
        call_ensures(product, (a, b), r) && call_ensures(product, (a, b), s) ==> r == s
    &&& forall|a: T, f: F, r: T, s: T|
        call_ensures(scaled, (a, f), r) && call_ensures(scaled, (a, f), s) ==> r == s
}

/// `zero` is a correct zero for `product`: it absorbs either factor, and
/// `product` does not depend on the order of its factors.
pub open spec fn zero_absorbs<T: PartialEq, PR: Fn(T, T) -> T>(product: PR, zero: T) -> bool {
    &&& forall|y: T, r: T| call_ensures(product, (zero, y), r) ==> r == zero
    &&& forall|x: T, r: T| call_ensures(product, (x, zero), r) ==> r == zero
    &&& forall|x: T, y: T, r: T, s: T|
        call_ensures(product, (x, y), r) && call_ensures(product, (y, x), s) ==> r == s
    &&& T::obeys_eq_spec()
    &&& forall|a: T, b: T| a.eq_spec(&b) <==> a == b
}

/// The lazy fold agrees with the plain fold: with deterministic handlers and a
/// correct zero for `product`, both give the same result on every expression.
pub proof fn lemma_lazy_evaluation_agrees<
    F, T: PartialEq, CF: Fn(F) -> T, FX: Fn(FixedQuery) -> T, AX: Fn(AdviceQuery) -> T,
    IX: Fn(InstanceQuery) -> T, CH: Fn(Challenge) -> T, NG: Fn(T) -> T, SM: Fn(T, T) -> T,
    PR: Fn(T, T) -> T, SC: Fn(T, F) -> T,
>(
    e: Expression<F>,
    eager: T,
    lazy: T,
    constant: CF,
    fixed_column: FX,
    advice_column: AX,
    instance_column: IX,
    challenge: CH,
    negated: NG,
    sum: SM,
    product: PR,
    scaled: SC,
    zero: T,
)
    requires
        deterministic_handlers(
                constant, fixed_column, advice_column, instance_column, challenge, negated, sum,
                product, scaled,
            ),
        zero_absorbs(product, zero),
        e.evaluates_to(
                eager, constant, fixed_column, advice_column, instance_column, challenge,
                negated, sum, product, scaled,
            ),
        e.lazily_evaluates_to(
                lazy, constant, fixed_column, advice_column, instance_column, challenge,
                negated, sum, product, scaled, zero,
            ),
    ensures
        eager == lazy,
    decreases e,
{
    match e {
        Expression::Negated(a) => {
            let ra = choose|ra: T|
                #![trigger call_ensures(negated, (ra,), eager)]
                a.evaluates_to(
                        ra, constant, fixed_column, advice_column, instance_column, challenge,
                        negated, sum, product, scaled,
                    )
                        && call_ensures(negated, (ra,), eager);
            let la = choose|la: T|
                #![trigger call_ensures(negated, (la,), lazy)]
                a.lazily_evaluates_to(
                        la, constant, fixed_column, advice_column, instance_column, challenge,
                        negated, sum, product, scaled, zero,
                    )
                        && call_ensures(negated, (la,), lazy);
            lemma_lazy_evaluation_agrees(
                    *a, ra, la, constant, fixed_column, advice_column, instance_column,
                    challenge, negated, sum, product, scaled, zero,
                );
        },
        Expression::Scaled(a, f) => {
            let ra = choose|ra: T|
                #![trigger call_ensures(scaled, (ra, f), eager)]
                a.evaluates_to(
                        ra, constant, fixed_column, advice_column, instance_column, challenge,
                        negated, sum, product, scaled,
                    )
                        && call_ensures(scaled, (ra, f), eager);
            let la = choose|la: T|
                #![trigger call_ensures(scaled, (la, f), lazy)]
                a.lazily_evaluates_to(
                        la, constant, fixed_column, advice_column, instance_column, challenge,
                        negated, sum, product, scaled, zero,
                    )
                        && call_ensures(scaled, (la, f), lazy);
            lemma_lazy_evaluation_agrees(
                    *a, ra, la, constant, fixed_column, advice_column, instance_column,
                    challenge, negated, sum, product, scaled, zero,
                );
        },
        Expression::Sum(a, b) => {
            let (ra, rb) = choose|ra: T, rb: T|
                #![trigger call_ensures(sum, (ra, rb), eager)]
                a.evaluates_to(
                        ra, constant, fixed_column, advice_column, instance_column, challenge,
                        negated, sum, product, scaled,
                    )
                        && b.evaluates_to(
                        rb, constant, fixed_column, advice_column, instance_column, challenge,
                        negated, sum, product, scaled,
                    )
                        && call_ensures(sum, (ra, rb), eager);
            let (la, lb) = choose|la: T, lb: T|
                #![trigger call_ensures(sum, (la, lb), lazy)]
                a.lazily_evaluates_to(
                        la, constant, fixed_column, advice_column, instance_column, challenge,
                        negated, sum, product, scaled, zero,
                    )
                        && b.lazily_evaluates_to(
                        lb, constant, fixed_column, advice_column, instance_column, challenge,
                        negated, sum, product, scaled, zero,
                    )
                        && call_ensures(sum, (la, lb), lazy);
            lemma_lazy_evaluation_agrees(
                    *a, ra, la, constant, fixed_column, advice_column, instance_column,
                    challenge, negated, sum, product, scaled, zero,
                );
            lemma_lazy_evaluation_agrees(
                    *b, rb, lb, constant, fixed_column, advice_column, instance_column,
                    challenge, negated, sum, product, scaled, zero,
                );
        },
        Expression::Product(a, b) => {
            let (ra, rb) = choose|ra: T, rb: T|
                #![trigger call_ensures(product, (ra, rb), eager)]
                a.evaluates_to(
                        ra, constant, fixed_column, advice_column, instance_column, challenge,
                        negated, sum, product, scaled,
                    )
                        && b.evaluates_to(
                        rb, constant, fixed_column, advice_column, instance_column, challenge,
                        negated, sum, product, scaled,
                    )
                        && call_ensures(product, (ra, rb), eager);
            let a_first = a.spec_complexity() <= b.spec_complexity();
            let (x, y) = if a_first { (a, b) } else { (b, a) };
            let (rx, ry) = if a_first { (ra, rb) } else { (rb, ra) };
            assert(x.evaluates_to(
                    rx, constant, fixed_column, advice_column, instance_column, challenge,
                    negated, sum, product, scaled,
                ));
            assert(y.evaluates_to(
                    ry, constant, fixed_column, advice_column, instance_column, challenge,
                    negated, sum, product, scaled,
                ));
            assert(exists|lx: T|
                #![trigger compares_as(lx, zero, true)]
                #![trigger compares_as(lx, zero, false)]
                x.lazily_evaluates_to(
                        lx, constant, fixed_column, advice_column, instance_column, challenge,
                        negated, sum, product, scaled, zero,
                    )
                        && (
                (compares_as(lx, zero, true) && lazy == lx) || (compares_as(lx, zero, false)
                    && exists|ly: T|
                    #![trigger call_ensures(product, (lx, ly), lazy)]
                    y.lazily_evaluates_to(
                            ly, constant, fixed_column, advice_column, instance_column,
                            challenge, negated, sum, product, scaled, zero,
                        )
                            && call_ensures(product, (lx, ly), lazy))));
            let lx = choose|lx: T|
                #![trigger compares_as(lx, zero, true)]
                #![trigger compares_as(lx, zero, false)]
                x.lazily_evaluates_to(
                        lx, constant, fixed_column, advice_column, instance_column, challenge,
                        negated, sum, product, scaled, zero,
                    )
                        && (
                (compares_as(lx, zero, true) && lazy == lx) || (compares_as(lx, zero, false)
                    && exists|ly: T|
                    #![trigger call_ensures(product, (lx, ly), lazy)]
                    y.lazily_evaluates_to(
                            ly, constant, fixed_column, advice_column, instance_column,
                            challenge, negated, sum, product, scaled, zero,
                        )
                            && call_ensures(product, (lx, ly), lazy)));
            lemma_lazy_evaluation_agrees(
                    *x, rx, lx, constant, fixed_column, advice_column, instance_column,
                    challenge, negated, sum, product, scaled, zero,
                );
            if compares_as(lx, zero, true) && lazy == lx {
                assert(lx.eq_spec(&zero));
                assert(lx == zero);
            } else {
                let ly = choose|ly: T|
                    #![trigger call_ensures(product, (lx, ly), lazy)]
                    y.lazily_evaluates_to(
                            ly, constant, fixed_column, advice_column, instance_column,
                            challenge, negated, sum, product, scaled, zero,
                        )
                            && call_ensures(product, (lx, ly), lazy);
                lemma_lazy_evaluation_agrees(
                        *y, ry, ly, constant, fixed_column, advice_column, instance_column,
                        challenge, negated, sum, product, scaled, zero,
                    );
            }
        },
        _ => {},
    }
}

impl<F: Copy> Clone for ExpressionMid<F> {
    fn clone(&self) -> (r: Self)
        ensures
            r == *self,
        decreases self,
    {
        match self {
            ExpressionMid::Constant(c) => ExpressionMid::Constant(*c),
            ExpressionMid::Fixed(q) => ExpressionMid::Fixed(*q),
            ExpressionMid::Advice(q) => ExpressionMid::Advice(*q),
            ExpressionMid::Instance(q) => ExpressionMid::Instance(*q),
            ExpressionMid::Challenge(c) => ExpressionMid::Challenge(*c),
            ExpressionMid::Negated(a) => ExpressionMid::Negated(Box::new((**a).clone())),
            ExpressionMid::Sum(a, b) => ExpressionMid::Sum(Box::new((**a).clone()), Box::new((**b).clone())),
            ExpressionMid::Product(a, b) => ExpressionMid::Product(Box::new((**a).clone()), Box::new((**b).clone())),
            ExpressionMid::Scaled(a, f) => ExpressionMid::Scaled(Box::new((**a).clone()), *f),
        }
    }
}

impl<F: Copy> Clone for Expression<F> {
    fn clone(&self) -> (r: Self)
        ensures
            r == *self,
        decreases self,
    {
        match self {
            Expression::Constant(c) => Expression::Constant(*c),
            Expression::Fixed(q) => Expression::Fixed(*q),
            Expression::Advice(q) => Expression::Advice(*q),
            Expression::Instance(q) => Expression::Instance(*q),
            Expression::Challenge(c) => Expression::Challenge(*c),
            Expression::Negated(a) => Expression::Negated(Box::new((**a).clone())),
            Expression::Sum(a, b) => Expression::Sum(Box::new((**a).clone()), Box::new((**b).clone())),
            Expression::Product(a, b) => Expression::Product(Box::new((**a).clone()), Box::new((**b).clone())),
            Expression::Scaled(a, f) => Expression::Scaled(Box::new((**a).clone()), *f),
        }
    }
}

impl<F> std::ops::Neg for Expression<F> {
    type Output = Expression<F>;

    fn neg(self) -> (r: Expression<F>) {
        Expression::Negated(Box::new(self))
    }
}

impl<F> vstd::std_specs::ops::NegSpecImpl for Expression<F> {
    open spec fn obeys_neg_spec() -> bool {
        true
    }

    open spec fn neg_req(self) -> bool {
        true
    }

    open spec fn neg_spec(self) -> Expression<F> {
        Expression::Negated(Box::new(self))
    }
}

impl<F> std::ops::Add for Expression<F> {
    type Output = Expression<F>;

    fn add(self, rhs: Expression<F>) -> (r: Expression<F>) {
        Expression::Sum(Box::new(self), Box::new(rhs))
    }
}

impl<F> vstd::std_specs::ops::AddSpecImpl for Expression<F> {
    open spec fn obeys_add_spec() -> bool {
        true
    }

    open spec fn add_req(self, rhs: Expression<F>) -> bool {
        true
    }

    open spec fn add_spec(self, rhs: Expression<F>) -> Expression<F> {
        Expression::Sum(Box::new(self), Box::new(rhs))
    }
}

impl<F> std::ops::Sub for Expression<F> {
    type Output = Expression<F>;

    fn sub(self, rhs: Expression<F>) -> (r: Expression<F>) {
        Expression::Sum(Box::new(self), Box::new(Expression::Negated(Box::new(rhs))))
    }
}

impl<F> vstd::std_specs::ops::SubSpecImpl for Expression<F> {
    open spec fn obeys_sub_spec() -> bool {
        true
    }

    open spec fn sub_req(self, rhs: Expression<F>) -> bool {
        true
    }

    open spec fn sub_spec(self, rhs: Expression<F>) -> Expression<F> {
        Expression::Sum(Box::new(self), Box::new(Expression::Negated(Box::new(rhs))))
    }
}

impl<F> std::ops::Mul for Expression<F> {
    type Output = Expression<F>;

    fn mul(self, rhs: Expression<F>) -> (r: Expression<F>) {
        Expression::Product(Box::new(self), Box::new(rhs))
    }
}

impl<F> vstd::std_specs::ops::MulSpecImpl for Expression<F> {
    open spec fn obeys_mul_spec() -> bool {
        true
    }

    open spec fn mul_req(self, rhs: Expression<F>) -> bool {
        true
    }

    open spec fn mul_spec(self, rhs: Expression<F>) -> Expression<F> {
        Expression::Product(Box::new(self), Box::new(rhs))
    }
}

impl<F: Copy> std::ops::Mul<F> for Expression<F> {
    type Output = Expression<F>;

    fn mul(self, rhs: F) -> (r: Expression<F>) {
        Expression::Scaled(Box::new(self), rhs)
    }
}

impl<F: Copy> vstd::std_specs::ops::MulSpecImpl<F> for Expression<F> {
    open spec fn obeys_mul_spec() -> bool {
        true
    }

    open spec fn mul_req(self, rhs: F) -> bool {
        true
    }

    open spec fn mul_spec(self, rhs: F) -> Expression<F> {
        Expression::Scaled(Box::new(self), rhs)
    }
}

/// Relies on ff::Field::ZERO: the additive identity of the field.
#[verifier::external_body]
fn field_zero<F: ff::Field>() -> F {
    F::ZERO
}

/// Relies on ff::Field::ONE: the multiplicative identity of the field.
#[verifier::external_body]
fn field_one<F: ff::Field>() -> F {
    F::ONE
}

/// Left fold of a non-empty sequence of expressions into nested sums.
pub open spec fn sum_fold<F>(s: Seq<Expression<F>>) -> Expression<F>
    recommends
        s.len() > 0,
    decreases s.len(),
{
    if s.len() <= 1 {
        s[0]
    } else {
        Expression::Sum(Box::new(sum_fold(s.drop_last())), Box::new(s.last()))
    }
}

/// Left fold of a non-empty sequence of expressions into nested products.
pub open spec fn product_fold<F>(s: Seq<Expression<F>>) -> Expression<F>
    recommends
        s.len() > 0,
    decreases s.len(),
{
    if s.len() <= 1 {
        s[0]
    } else {
        Expression::Product(Box::new(product_fold(s.drop_last())), Box::new(s.last()))
    }
}

impl<F: ff::Field> Expression<F> {
    /// Sum of the expressions, folded from the left; the constant zero
    /// when there are none.
    pub fn sum_of(exprs: Vec<Expression<F>>) -> (r: Expression<F>)
        ensures
            exprs@.len() > 0 ==> r == sum_fold(exprs@),
            exprs@.len() == 0 ==> r is Constant,
    {
        let n = exprs.len();
        if n == 0 {
            return Expression::Constant(field_zero());
        }
        let mut acc = exprs[0].clone();
        let mut i: usize = 1;
        proof {
            assert(exprs@.subrange(0, 1).len() == 1);
        }
        while i < n
            invariant
                n == exprs@.len(),
                1 <= i <= n,
                acc == sum_fold(exprs@.subrange(0, i as int)),
            decreases n - i,
        {
            let x = exprs[i].clone();
            acc = acc + x;
            proof {
                let s = exprs@.subrange(0, i + 1);
                assert(s.drop_last() =~= exprs@.subrange(0, i as int));
            }
            i = i + 1;
        }
        proof {
            assert(exprs@.subrange(0, n as int) =~= exprs@);
        }
        acc
    }

    /// Product of the expressions, folded from the left; the constant one
    /// when there are none.
    pub fn product_of(exprs: Vec<Expression<F>>) -> (r: Expression<F>)
        ensures
            exprs@.len() > 0 ==> r == product_fold(exprs@),
            exprs@.len() == 0 ==> r is Constant,
    {
        let n = exprs.len();
        if n == 0 {
            return Expression::Constant(field_one());
        }
        let mut acc = exprs[0].clone();
        let mut i: usize = 1;
        proof {
            assert(exprs@.subrange(0, 1).len() == 1);
        }
        while i < n
            invariant
                n == exprs@.len(),
                1 <= i <= n,
                acc == product_fold(exprs@.subrange(0, i as int)),
            decreases n - i,
        {
            let x = exprs[i].clone();
            acc = acc * x;
            proof {
                let s = exprs@.subrange(0, i + 1);
                assert(s.drop_last() =~= exprs@.subrange(0, i as int));
            }
            i = i + 1;
        }
        proof {
            assert(exprs@.subrange(0, n as int) =~= exprs@);
        }
        acc
    }

}

/// Largest degree among the expressions of `s`, and at least `floor`.
pub open spec fn max_degree<F>(s: Seq<Expression<F>>, floor: nat) -> nat
    decreases s.len(),
{
    if s.len() == 0 {
        floor
    } else {
        let m = max_degree(s.drop_last(), floor);
        if s.last().spec_degree() > m {
            s.last().spec_degree()
        } else {
            m
        }
    }
}

/// Every expression of `s` has a degree that fits in `usize`.
pub open spec fn degrees_fit<F>(s: Seq<Expression<F>>) -> bool {
    forall|i: int| 0 <= i < s.len() ==> (#[trigger] s[i]).spec_degree() <= usize::MAX
}

/// Largest degree among `exprs`, and at least `floor`.
pub fn max_degree_of<F>(exprs: &Vec<Expression<F>>, floor: usize) -> (r: usize)
    requires
        degrees_fit(exprs@),
    ensures
        r == max_degree(exprs@, floor as nat),
{
    let mut m = floor;
    let mut i: usize = 0;
    while i < exprs.len()
        invariant
            i <= exprs@.len(),
            degrees_fit(exprs@),
            m == max_degree(exprs@.subrange(0, i as int), floor as nat),
        decreases exprs@.len() - i,
    {
        let d = exprs[i].degree();
        proof {
            assert(exprs@.subrange(0, i + 1).drop_last() =~= exprs@.subrange(0, i as int));
        }
        if d > m {
            m = d;
        }
        i = i + 1;
    }
    proof {
        assert(exprs@.subrange(0, exprs@.len() as int) =~= exprs@);
    }
    m
}

/// Dropping the query indices keeps the degree.
pub proof fn lemma_to_mid_degree<F>(e: Expression<F>)
    ensures
        e.spec_to_mid().spec_degree() == e.spec_degree(),
    decreases e,
{
    match e {
        Expression::Negated(a) => lemma_to_mid_degree(*a),
        Expression::Sum(a, b) => {
            lemma_to_mid_degree(*a);
            lemma_to_mid_degree(*b);
        },
        Expression::Product(a, b) => {
            lemma_to_mid_degree(*a);
            lemma_to_mid_degree(*b);
        },
        Expression::Scaled(a, _) => lemma_to_mid_degree(*a),
        _ => {},
    }
}

/// Decimal digits of `n`.
pub open spec fn decimal(n: nat) -> Seq<char>
    decreases n,
{
    if n < 10 {
        seq![digit_char(n)]
    } else {
        decimal(n / 10).push(digit_char(n % 10))
    }
}

/// The character of a decimal digit.
pub open spec fn digit_char(d: nat) -> char {
    if d == 0 {
        '0'
    } else if d == 1 {
        '1'
    } else if d == 2 {
        '2'
    } else if d == 3 {
        '3'
    } else if d == 4 {
        '4'
    } else if d == 5 {
        '5'
    } else if d == 6 {
        '6'
    } else if d == 7 {
        '7'
    } else if d == 8 {
        '8'
    } else {
        '9'
    }
}

/// Decimal digits of `n`, after a minus sign when `n` is negative.
pub open spec fn signed_decimal(n: int) -> Seq<char> {
    if n < 0 {
        seq!['-'] + decimal((-n) as nat)
    } else {
        decimal(n as nat)
    }
}

/// Relies on the `Display` of `usize`: its decimal digits.
#[verifier::external_body]
fn usize_text(n: usize) -> (r: String)
    ensures
        r@ == decimal(n as nat),
{
    n.to_string()
}

/// Relies on the `Display` of `i32`: its decimal digits, after a minus sign
/// when it is negative.
#[verifier::external_body]
fn i32_text(n: i32) -> (r: String)
    ensures
        r@ == signed_decimal(n as int),
{
    n.to_string()
}

/// Relies on the `Debug` of the scalar type, for the text of a constant.
#[verifier::external_body]
fn scalar_text<F: std::fmt::Debug>(x: &F) -> String {
    format!("{:?}", x)
}

/// `a` and `b` joined by `op`, in parentheses.
pub open spec fn infix(a: Seq<char>, op: Seq<char>, b: Seq<char>) -> Seq<char> {
    "("@ + a + op + b + ")"@
}

/// Whether `s` is the identifier of `e`: prefix form with parenthesised
/// negations, sums and products, `kind[column][rotation]` for queries and
/// `challenge[index]` for challenges. Only the text of constants is left
/// open: it is the scalar's debug text.
pub open spec fn is_identifier<F>(e: Expression<F>, s: Seq<char>) -> bool
    decreases e,
{
    match e {
        Expression::Constant(_) => true,
        Expression::Fixed(q) => s == "fixed["@ + decimal(q.column_index as nat) + "]["@
            + signed_decimal(q.rotation.0 as int) + "]"@,
        Expression::Advice(q) => s == "advice["@ + decimal(q.column_index as nat) + "]["@
            + signed_decimal(q.rotation.0 as int) + "]"@,
        Expression::Instance(q) => s == "instance["@ + decimal(q.column_index as nat) + "]["@
            + signed_decimal(q.rotation.0 as int) + "]"@,
        Expression::Challenge(c) => s == "challenge["@ + decimal(c.index as nat) + "]"@,
        Expression::Negated(a) => exists|sa: Seq<char>|
            #![trigger infix(Seq::empty(), seq!['-'], sa)]
            is_identifier(*a, sa) && s == infix(Seq::empty(), seq!['-'], sa),
        Expression::Sum(a, b) => exists|sa: Seq<char>, sb: Seq<char>|
            #![trigger infix(sa, seq!['+'], sb)]
            is_identifier(*a, sa) && is_identifier(*b, sb) && s == infix(sa, seq!['+'], sb),
        Expression::Product(a, b) => exists|sa: Seq<char>, sb: Seq<char>|
            #![trigger infix(sa, seq!['*'], sb)]
            is_identifier(*a, sa) && is_identifier(*b, sb) && s == infix(sa, seq!['*'], sb),
        Expression::Scaled(a, _) => exists|sa: Seq<char>|
            #![trigger sa.push('*')]
            is_identifier(*a, sa) && sa.len() < s.len() && s.subrange(0, sa.len() + 1 as int)
                == sa.push('*'),
    }
}

impl<F: Copy + std::fmt::Debug> Expression<F> {
    fn write_identifier(&self) -> (r: String)
        ensures
            is_identifier(*self, r@),
        decreases self,
    {
        let r = match self {
            Expression::Constant(scalar) => scalar_text(scalar),
            Expression::Fixed(query) => {
                let c = usize_text(query.column_index);
                let rot = i32_text(query.rotation.0);
                let r = "fixed[".to_owned().concat(c.as_str()).concat("][").concat(rot.as_str()).concat("]");
                assert(r@ == "fixed["@ + c@ + "]["@ + rot@ + "]"@);
                assert(is_identifier(*self, r@));
                r
            },
            Expression::Advice(query) => {
                let c = usize_text(query.column_index);
                let rot = i32_text(query.rotation.0);
                let r = "advice[".to_owned().concat(c.as_str()).concat("][").concat(rot.as_str()).concat("]");
                assert(r@ == "advice["@ + c@ + "]["@ + rot@ + "]"@);
                assert(is_identifier(*self, r@));
                r
            },
            Expression::Instance(query) => {
                let c = usize_text(query.column_index);
                let rot = i32_text(query.rotation.0);
                let r = "instance[".to_owned().concat(c.as_str()).concat("][").concat(rot.as_str()).concat("]");
                assert(r@ == "instance["@ + c@ + "]["@ + rot@ + "]"@);
                assert(is_identifier(*self, r@));
                r
            },
            Expression::Challenge(challenge) => {
                let c = usize_text(challenge.index);
                let r = "challenge[".to_owned().concat(c.as_str()).concat("]");
                assert(is_identifier(*self, r@));
                r
            },
            Expression::Negated(a) => {
                let sa = a.write_identifier();
                let r = "(-".to_owned().concat(sa.as_str()).concat(")");
                proof {
                    reveal_strlit("(-");
                    reveal_strlit("(");
                    assert("(-"@ =~= "("@ + Seq::<char>::empty() + seq!['-']);
                }
                assert(r@ == infix(Seq::empty(), seq!['-'], sa@));
                assert(is_identifier(**a, sa@));
                assert(is_identifier(*self, r@));
                r
            },
            Expression::Sum(a, b) => {
                let sa = a.write_identifier();
                let sb = b.write_identifier();
                let r = "(".to_owned().concat(sa.as_str()).concat("+").concat(sb.as_str()).concat(")");
                proof {
                    reveal_strlit("+");
                    assert("+"@ =~= seq!['+']);
                }
                assert(r@ == infix(sa@, seq!['+'], sb@));
                assert(is_identifier(**a, sa@) && is_identifier(**b, sb@));
                assert(is_identifier(*self, r@));
                r
            },
            Expression::Product(a, b) => {
                let sa = a.write_identifier();
                let sb = b.write_identifier();
                let r = "(".to_owned().concat(sa.as_str()).concat("*").concat(sb.as_str()).concat(")");
                proof {
                    reveal_strlit("*");
                    assert("*"@ =~= seq!['*']);
                }
                assert(r@ == infix(sa@, seq!['*'], sb@));
                assert(is_identifier(**a, sa@) && is_identifier(**b, sb@));
                assert(is_identifier(*self, r@));
                r
            },
            Expression::Scaled(a, f) => {
                let sa = a.write_identifier();
                let sf = scalar_text(f);
                let r = sa.concat("*").concat(sf.as_str());
                proof {
                    reveal_strlit("*");
                    assert(r@.subrange(0, sa@.len() + 1 as int) =~= sa@.push('*'));
                    assert(is_identifier(**a, sa@));
                    assert(is_identifier(*self, r@));
                }
                r
            },
        };
        r
    }

    /// Identifier for this expression: expressions with the same identifier
    /// compute the same function. The identifier follows the shape of the
    /// expression, so `a + b` and `b + a` differ.
    pub fn identifier(&self) -> (r: String)
        ensures
            is_identifier(*self, r@),
    {
        self.write_identifier()
    }
}

} // verus!
