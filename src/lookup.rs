use vstd::prelude::*;

use crate::expression::{degrees_fit, max_degree, max_degree_of, Expression, ExpressionMid};

verus! {

/// A lookup argument as the frontend describes it: every row of the input
/// expressions must occur among the rows of the table expressions.
#[verifier::reject_recursive_types(F)]
#[derive(Debug)]
pub struct ArgumentV2<F> {
    pub name: String,
    pub input_expressions: Vec<ExpressionMid<F>>,
    pub table_expressions: Vec<ExpressionMid<F>>,
}

/// A lookup argument whose expressions carry indexed queries.
#[verifier::reject_recursive_types(F)]
#[derive(Debug)]
pub struct Argument<F> {
    pub name: String,
    pub input_expressions: Vec<Expression<F>>,
    pub table_expressions: Vec<Expression<F>>,
}

impl<F> Argument<F> {
    /// Degree that the lookup argument asks of the circuit.
    pub open spec fn spec_required_degree(&self) -> nat {
        let d = 2 + max_degree(self.input_expressions@, 1) + max_degree(
            self.table_expressions@,
            1,
        );
        if d > 4 {
            d
        } else {
            4
        }
    }

    /// The degrees of the expressions fit in machine integers.
    pub open spec fn degrees_fit(&self) -> bool {
        &&& degrees_fit(self.input_expressions@)
        &&& degrees_fit(self.table_expressions@)
        &&& 2 + max_degree(self.input_expressions@, 1) + max_degree(self.table_expressions@, 1)
            <= usize::MAX
    }

    /// Returns the minimum circuit degree required by the lookup argument.
    pub fn required_degree(&self) -> (r: usize)
        requires
            self.degrees_fit(),
        ensures
            r == self.spec_required_degree(),
    {
        let input_degree = max_degree_of(&self.input_expressions, 1);
        let table_degree = max_degree_of(&self.table_expressions, 1);
        let d = 2 + input_degree + table_degree;
        if d > 4 {
            d
        } else {
            4
        }
    }
}

} // verus!
