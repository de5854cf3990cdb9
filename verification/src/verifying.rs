//! The verifying side of a constraint system: it sees commitments only and
//! records what the gadgets ask for, with no value for any variable.

use crate::curve::Point;
use crate::field::{scalar_modulus, CurveId};
use crate::r1cs::{
    gate_input, Assignment, ConstraintSystem, LinearCombination, Terms, Variable,
};
use vstd::prelude::*;

verus! {

/// A constraint system over commitments whose openings are not known.
pub struct Verifier {
    pub curve: CurveId,
    pub commitments: Vec<Point>,
    /// The number of committed variables handed out so far.
    pub committed: usize,
    /// The number of multiplication gates allocated so far.
    pub gate_count: usize,
    pub constraints: Vec<LinearCombination>,
}

impl Verifier {
    /// A verifier with no variables and no constraints.
    pub fn new(curve: CurveId) -> (r: Verifier)
        ensures
            r.wf(),
            r.curve == curve,
            r.committed == 0,
            r.commitments@.len() == 0,
            r.gates() == 0,
            r.constraints() == Seq::<Terms>::empty(),
    {
        let r = Verifier {
            curve,
            commitments: Vec::new(),
            committed: 0,
            gate_count: 0,
            constraints: Vec::new(),
        };
        assert(r.constraints() =~= Seq::<Terms>::empty());
        r
    }

    /// Everything but the commitments and their count is as in `before`.
    pub open spec fn unchanged_but_commitments(&self, before: Verifier) -> bool {
        &&& self.curve == before.curve
        &&& self.gate_count == before.gate_count
        &&& self.constraints == before.constraints
    }

    /// Takes in a commitment to one value and returns the variable that
    /// stands for the value.
    pub fn commit(&mut self, commitment: Point) -> (r: Variable)
        requires
            old(self).wf(),
            old(self).committed < usize::MAX,
        ensures
            final(self).wf(),
            final(self).unchanged_but_commitments(*old(self)),
            final(self).committed == old(self).committed + 1,
            final(self).commitments@ == old(self).commitments@.push(commitment),
            r == Variable::Committed(old(self).committed),
    {
        let variable = Variable::Committed(self.committed);
        self.committed = self.committed + 1;
        self.commitments.push(commitment);
        variable
    }

    /// Takes in a commitment to a vector of `n` values and returns one
    /// variable for each.
    pub fn commit_vec(&mut self, n: usize, commitment: Point) -> (r: Vec<Variable>)
        requires
            old(self).wf(),
            old(self).committed + n <= usize::MAX,
        ensures
            final(self).wf(),
            final(self).unchanged_but_commitments(*old(self)),
            final(self).committed == old(self).committed + n,
            final(self).commitments@ == old(self).commitments@.push(commitment),
            r@.len() == n,
            forall|i: int|
                0 <= i < n ==> #[trigger] r@[i] == Variable::Committed(
                    (old(self).committed + i) as usize,
                ),
    {
        let mut variables: Vec<Variable> = Vec::new();
        let first = self.committed;
        let mut i: usize = 0;
        while i < n
            invariant
                i <= n,
                first + n <= usize::MAX,
                variables@.len() == i,
                forall|j: int|
                    0 <= j < i ==> #[trigger] variables@[j] == Variable::Committed(
                        (first + j) as usize,
                    ),
            decreases n - i,
        {
            variables.push(Variable::Committed(first + i));
            i += 1;
        }
        self.committed = first + n;
        self.commitments.push(commitment);
        variables
    }
}

impl ConstraintSystem for Verifier {
    open spec fn curve(&self) -> CurveId {
        self.curve
    }

    open spec fn wf(&self) -> bool {
        forall|i: int|
            0 <= i < self.constraints@.len() ==> (#[trigger] self.constraints@[i]).wf_in(self.curve)
    }

    open spec fn gates(&self) -> nat {
        self.gate_count as nat
    }

    open spec fn constraints(&self) -> Seq<Terms> {
        Seq::new(self.constraints@.len(), |i: int| self.constraints@[i]@)
    }

    open spec fn witness(&self) -> Option<Assignment> {
        None
    }

    fn curve_id(&self) -> (r: CurveId) {
        self.curve
    }

    fn multiply(&mut self, left: &LinearCombination, right: &LinearCombination) -> (r: (
        Variable,
        Variable,
        Variable,
    ))
        ensures
            final(self).committed == old(self).committed,
            final(self).commitments == old(self).commitments,
    {
        let n = self.gate_count;
        let left_wire = LinearCombination::from_variable(self.curve, Variable::MultiplierLeft(n));
        let right_wire = LinearCombination::from_variable(self.curve, Variable::MultiplierRight(n));
        let left_tie = left.minus(&left_wire, self.curve);
        let right_tie = right.minus(&right_wire, self.curve);
        self.gate_count = n + 1;
        self.constraints.push(left_tie);
        self.constraints.push(right_tie);
        proof {
            let p = scalar_modulus(old(self).curve);
            assert(self.constraints() =~= old(self).constraints().push(
                gate_input(left@, Variable::MultiplierLeft(n), p),
            ).push(gate_input(right@, Variable::MultiplierRight(n), p)));
        }
        (
            Variable::MultiplierLeft(n),
            Variable::MultiplierRight(n),
            Variable::MultiplierOutput(n),
        )
    }

    fn constrain(&mut self, lc: LinearCombination)
        ensures
            final(self).committed == old(self).committed,
            final(self).commitments == old(self).commitments,
            final(self).gate_count == old(self).gate_count,
    {
        self.constraints.push(lc);
        assert(self.constraints() =~= old(self).constraints().push(lc@));
    }
}

} // verus!
