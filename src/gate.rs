use vstd::prelude::*;

use crate::column::{Any, Column, Rotation};
use crate::expression::{Expression, ExpressionMid};

verus! {

/// A cell queried at a relative offset within a custom gate.
#[derive(Clone, Copy, Debug)]
pub struct VirtualCell {
    pub column: Column<Any>,
    pub rotation: Rotation,
}

impl From<(Column<Any>, Rotation)> for VirtualCell {
    fn from(cell: (Column<Any>, Rotation)) -> (r: VirtualCell) {
        VirtualCell { column: cell.0, rotation: cell.1 }
    }
}

impl vstd::std_specs::convert::FromSpecImpl<(Column<Any>, Rotation)> for VirtualCell {
    open spec fn obeys_from_spec() -> bool {
        true
    }

    open spec fn from_spec(cell: (Column<Any>, Rotation)) -> VirtualCell {
        VirtualCell { column: cell.0, rotation: cell.1 }
    }
}

/// An individual polynomial constraint with a name.
#[verifier::reject_recursive_types(F)]
#[derive(Debug)]
pub struct Constraint<F> {
    pub name: String,
    pub poly: Expression<F>,
}

impl<F> Constraint<F> {
    /// A constraint with an empty name.
    pub fn from_poly(poly: Expression<F>) -> (r: Self)
        ensures
            r.name@ == Seq::<char>::empty(),
            r.poly == poly,
    {
        Constraint { name: String::new(), poly }
    }

    /// A constraint with the given name.
    pub fn named(name: String, poly: Expression<F>) -> (r: Self)
        ensures
            r.name == name,
            r.poly == poly,
    {
        Constraint { name, poly }
    }
}

/// A set of polynomial constraints with a common selector.
#[verifier::reject_recursive_types(F)]
#[derive(Debug)]
pub struct Constraints<F> {
    pub selector: Expression<F>,
    pub constraints: Vec<Constraint<F>>,
}

impl<F: Copy> Constraints<F> {
    /// Constructs a set of constraints that are controlled by the given
    /// selector.
    pub fn with_selector(selector: Expression<F>, constraints: Vec<Constraint<F>>) -> (r: Self)
        ensures
            r.selector == selector,
            r.constraints@ == constraints@,
    {
        Constraints { selector, constraints }
    }

    /// The constraints, each multiplied by the selector: a disabled selector
    /// turns every one of them into the zero identity.
    pub fn into_constraints(self) -> (r: Vec<Constraint<F>>)
        ensures
            r@.len() == self.constraints@.len(),
            forall|i: int|
                0 <= i < r@.len() ==> (#[trigger] r@[i]).name == self.constraints@[i].name
                    && r@[i].poly == Expression::Product(
                    Box::new(self.selector),
                    Box::new(self.constraints@[i].poly),
                ),
    {
        let ghost orig = self.constraints@;
        let selector = self.selector;
        let mut constraints = self.constraints;
        let mut out: Vec<Constraint<F>> = Vec::new();
        let n = constraints.len();
        let mut i: usize = n;
        while i > 0
            invariant
                i <= n,
                constraints@ == orig.subrange(0, i as int),
                out@.len() == n - i,
                n == orig.len(),
                forall|k: int|
                    0 <= k < n - i ==> (#[trigger] out@[k]).name == orig[n - 1 - k].name
                        && out@[k].poly == Expression::Product(
                        Box::new(selector),
                        Box::new(orig[n - 1 - k].poly),
                    ),
            decreases i,
        {
            let c = constraints.pop().unwrap();
            proof {
                assert(c == orig[i - 1]);
            }
            out.push(Constraint { name: c.name, poly: selector.clone() * c.poly });
            i = i - 1;
        }
        let mut result: Vec<Constraint<F>> = Vec::new();
        let mut j: usize = n;
        while j > 0
            invariant
                j <= n,
                out@.len() == j,
                result@.len() == n - j,
                n == orig.len(),
                forall|k: int|
                    0 <= k < j ==> (#[trigger] out@[k]).name == orig[n - 1 - k].name
                        && out@[k].poly == Expression::Product(
                        Box::new(selector),
                        Box::new(orig[n - 1 - k].poly),
                    ),
                forall|k: int|
                    0 <= k < n - j ==> (#[trigger] result@[k]).name == orig[k].name
                        && result@[k].poly == Expression::Product(
                        Box::new(selector),
                        Box::new(orig[k].poly),
                    ),
            decreases j,
        {
            let c = out.pop().unwrap();
            result.push(c);
            j = j - 1;
        }
        result
    }
}

/// A gate of the frontend: one named polynomial identity.
#[verifier::reject_recursive_types(F)]
#[derive(Debug)]
pub struct GateV2Backend<F> {
    pub name: String,
    pub poly: ExpressionMid<F>,
}

impl<F> GateV2Backend<F> {
    /// Returns the name of this gate.
    pub fn name(&self) -> (r: &str)
        ensures
            r@ == self.name@,
    {
        self.name.as_str()
    }

    /// Returns the polynomial identity of this gate
    pub fn polynomial(&self) -> (r: &ExpressionMid<F>)
        ensures
            *r == self.poly,
    {
        &self.poly
    }
}

/// A gate: named polynomial identities over indexed queries.
#[verifier::reject_recursive_types(F)]
#[derive(Debug)]
pub struct Gate<F> {
    pub name: String,
    pub constraint_names: Vec<String>,
    pub polys: Vec<Expression<F>>,
    /// Cells that this gate queries, kept for diagnostics.
    pub queried_cells: Vec<VirtualCell>,
}

impl<F> Gate<F> {
    /// Returns the name of this gate.
    pub fn name(&self) -> (r: &str)
        ensures
            r@ == self.name@,
    {
        self.name.as_str()
    }

    /// Returns the name of the constraint at index `constraint_index`.
    pub fn constraint_name(&self, constraint_index: usize) -> (r: &str)
        requires
            constraint_index < self.constraint_names@.len(),
        ensures
            r@ == self.constraint_names@[constraint_index as int]@,
    {
        self.constraint_names[constraint_index].as_str()
    }

    /// Returns constraints of this gate
    pub fn polynomials(&self) -> (r: &[Expression<F>])
        ensures
            r@ == self.polys@,
    {
        self.polys.as_slice()
    }
}

} // verus!
