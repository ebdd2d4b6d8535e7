use vstd::prelude::*;

use crate::expression::{degrees_fit, max_degree, max_degree_of, Expression, ExpressionMid};

verus! {

/// A shuffle argument as the frontend describes it: the rows of the input
/// expressions are a permutation of the rows of the shuffle expressions.
#[verifier::reject_recursive_types(F)]
#[derive(Debug)]
pub struct ArgumentV2<F> {
    pub name: String,
    pub input_expressions: Vec<ExpressionMid<F>>,
    pub shuffle_expressions: Vec<ExpressionMid<F>>,
}

/// A shuffle argument whose expressions carry indexed queries.
#[verifier::reject_recursive_types(F)]
#[derive(Debug)]
pub struct Argument<F> {
    pub name: String,
    pub input_expressions: Vec<Expression<F>>,
    pub shuffle_expressions: Vec<Expression<F>>,
}

impl<F> Argument<F> {
    /// Degree that the shuffle argument asks of the circuit.
    pub open spec fn spec_required_degree(&self) -> nat {
        let i = max_degree(self.input_expressions@, 1);
        let s = max_degree(self.shuffle_expressions@, 1);
        if s > i {
            2 + s
        } else {
            2 + i
        }
    }

    /// The degrees of the expressions fit in machine integers.
    pub open spec fn degrees_fit(&self) -> bool {
        &&& degrees_fit(self.input_expressions@)
        &&& degrees_fit(self.shuffle_expressions@)
        &&& 2 + max_degree(self.input_expressions@, 1) <= usize::MAX
        &&& 2 + max_degree(self.shuffle_expressions@, 1) <= usize::MAX
    }

    /// Returns the minimum circuit degree required by the shuffle argument.
    pub fn required_degree(&self) -> (r: usize)
        requires
            self.degrees_fit(),
        ensures
            r == self.spec_required_degree(),
    {
        let input_degree = max_degree_of(&self.input_expressions, 1);
        let shuffle_degree = max_degree_of(&self.shuffle_expressions, 1);
        if shuffle_degree > input_degree {
            2 + shuffle_degree
        } else {
            2 + input_degree
        }
    }
}

} // verus!
