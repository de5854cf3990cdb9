//! A rank-1 constraint system: variables, linear combinations over them, the
//! capability that gadgets are written against, and what it means for an
//! assignment of the variables to satisfy a constraint.

use crate::field::{scalar_modulus, CurveId, Scalar};
use vstd::prelude::*;

verus! {

/// A variable of a constraint system.
#[derive(Clone, Copy, Debug, PartialEq, Eq, Structural)]
pub enum Variable {
    /// An entry of a commitment, by its position among all committed values.
    Committed(usize),
    /// The left input of a multiplication gate.
    MultiplierLeft(usize),
    /// The right input of a multiplication gate.
    MultiplierRight(usize),
    /// The output of a multiplication gate.
    MultiplierOutput(usize),
    /// The constant one.
    One,
}

/// What a linear combination is in contracts: its terms in order, each a
/// variable and the number that its coefficient stands for.
pub type Terms = Seq<(Variable, nat)>;

/// A value for every variable.
pub type Assignment = spec_fn(Variable) -> nat;

/// A weighted sum of variables.
#[derive(Debug)]
pub struct LinearCombination {
    pub terms: Vec<(Variable, Scalar)>,
}

impl View for LinearCombination {
    type V = Terms;

    open spec fn view(&self) -> Terms {
        Seq::new(self.terms@.len(), |i: int| (self.terms@[i].0, self.terms@[i].1@))
    }
}

/// The terms of `a` followed by those of `b`: their sum.
pub open spec fn terms_sum(a: Terms, b: Terms) -> Terms {
    a + b
}

/// Each coefficient multiplied by `k` in the field of order `p`.
pub open spec fn terms_scaled(a: Terms, k: nat, p: nat) -> Terms {
    Seq::new(a.len(), |i: int| (a[i].0, (a[i].1 * k) % p))
}

/// The difference of two linear combinations: `a` and then the terms of `b`,
/// each coefficient multiplied by the additive inverse of one.
pub open spec fn terms_difference(a: Terms, b: Terms, p: nat) -> Terms {
    a + terms_scaled(b, (p - 1) as nat, p)
}

/// The linear combination that is one variable.
pub open spec fn terms_of_variable(v: Variable) -> Terms {
    seq![(v, 1nat)]
}

/// The value of a linear combination under an assignment, in the field of
/// order `p`: the terms are multiplied out and summed from the left.
pub open spec fn terms_value(t: Terms, a: Assignment, p: nat) -> nat
    decreases t.len(),
{
    if t.len() == 0 {
        0
    } else {
        (terms_value(t.drop_last(), a, p) + (t.last().1 * a(t.last().0)) % p) % p
    }
}

/// The constraint holds: the linear combination is zero.
pub open spec fn constraint_holds(t: Terms, a: Assignment, p: nat) -> bool {
    terms_value(t, a, p) == 0
}

/// Every constraint of a list holds.
pub open spec fn constraints_hold(cs: Seq<Terms>, a: Assignment, p: nat) -> bool {
    forall|i: int| 0 <= i < cs.len() ==> constraint_holds(#[trigger] cs[i], a, p)
}

/// The output of each gate from `first` up to `first + count` is the product
/// of its inputs.
pub open spec fn gates_hold(a: Assignment, first: nat, count: nat, p: nat) -> bool {
    forall|i: int|
        first <= i < first + count ==> #[trigger] a(Variable::MultiplierOutput(i as usize))
            % p == (a(Variable::MultiplierLeft(i as usize)) * a(
            Variable::MultiplierRight(i as usize),
        )) % p
}

impl LinearCombination {
    /// Every coefficient is a canonical scalar of the curve.
    pub open spec fn wf_in(&self, curve: CurveId) -> bool {
        forall|i: int| 0 <= i < self.terms@.len() ==> (#[trigger] self.terms@[i]).1.wf_in(curve)
    }

    /// The empty sum.
    pub fn zero() -> (r: LinearCombination)
        ensures
            r@ == Seq::<(Variable, nat)>::empty(),
            forall|c: CurveId| r.wf_in(c),
    {
        let r = LinearCombination { terms: Vec::new() };
        assert(r@ =~= Seq::<(Variable, nat)>::empty());
        r
    }

    /// One variable with coefficient one.
    pub fn from_variable(curve: CurveId, v: Variable) -> (r: LinearCombination)
        ensures
            r@ == terms_of_variable(v),
            r.wf_in(curve),
    {
        let mut terms: Vec<(Variable, Scalar)> = Vec::new();
        terms.push((v, Scalar::one(curve)));
        let r = LinearCombination { terms };
        assert(r@ =~= terms_of_variable(v));
        r
    }

    /// A constant: the variable `One` with the given coefficient.
    pub fn constant(k: Scalar) -> (r: LinearCombination)
        requires
            k.wf(),
        ensures
            r@ == seq![(Variable::One, k@)],
            r.wf_in(k.curve),
    {
        let mut terms: Vec<(Variable, Scalar)> = Vec::new();
        terms.push((Variable::One, k));
        let r = LinearCombination { terms };
        assert(r@ =~= seq![(Variable::One, k@)]);
        r
    }

    /// A copy.
    pub fn duplicate(&self) -> (r: LinearCombination)
        ensures
            r@ == self@,
            r.terms@ == self.terms@,
    {
        let mut terms: Vec<(Variable, Scalar)> = Vec::new();
        let mut i: usize = 0;
        while i < self.terms.len()
            invariant
                i <= self.terms@.len(),
                terms@ == self.terms@.subrange(0, i as int),
            decreases self.terms@.len() - i,
        {
            terms.push(self.terms[i]);
            assert(terms@ =~= self.terms@.subrange(0, i + 1));
            i += 1;
        }
        assert(terms@ =~= self.terms@);
        LinearCombination { terms }
    }

    /// The sum of two linear combinations.
    pub fn plus(&self, other: &LinearCombination) -> (r: LinearCombination)
        ensures
            r@ == terms_sum(self@, other@),
            forall|c: CurveId| self.wf_in(c) && other.wf_in(c) ==> r.wf_in(c),
    {
        let mut r = self.duplicate();
        let mut i: usize = 0;
        while i < other.terms.len()
            invariant
                i <= other.terms@.len(),
                r.terms@ == self.terms@ + other.terms@.subrange(0, i as int),
            decreases other.terms@.len() - i,
        {
            r.terms.push(other.terms[i]);
            assert(r.terms@ =~= self.terms@ + other.terms@.subrange(0, i + 1));
            i += 1;
        }
        assert(r.terms@ =~= self.terms@ + other.terms@);
        assert(r@ =~= terms_sum(self@, other@));
        r
    }

    /// The linear combination with each coefficient multiplied by `k`.
    pub fn scaled(&self, k: &Scalar) -> (r: LinearCombination)
        requires
            k.wf(),
            self.wf_in(k.curve),
        ensures
            r@ == terms_scaled(self@, k@, scalar_modulus(k.curve)),
            r.wf_in(k.curve),
    {
        let mut terms: Vec<(Variable, Scalar)> = Vec::new();
        let mut i: usize = 0;
        while i < self.terms.len()
            invariant
                i <= self.terms@.len(),
                k.wf(),
                self.wf_in(k.curve),
                terms@.len() == i,
                forall|j: int|
                    0 <= j < i ==> (#[trigger] terms@[j]).0 == self.terms@[j].0 && terms@[j].1.wf_in(
                        k.curve,
                    ) && terms@[j].1@ == (self.terms@[j].1@ * k@) % scalar_modulus(k.curve),
            decreases self.terms@.len() - i,
        {
            let t = self.terms[i];
            assert(t.1.wf_in(k.curve));
            terms.push((t.0, t.1.mul(k)));
            i += 1;
        }
        let r = LinearCombination { terms };
        assert(r@ =~= terms_scaled(self@, k@, scalar_modulus(k.curve)));
        r
    }

    /// The difference of two linear combinations of one curve.
    pub fn minus(&self, other: &LinearCombination, curve: CurveId) -> (r: LinearCombination)
        requires
            self.wf_in(curve),
            other.wf_in(curve),
        ensures
            r@ == terms_difference(self@, other@, scalar_modulus(curve)),
            r.wf_in(curve),
    {
        let negated = other.scaled(&Scalar::minus_one(curve));
        self.plus(&negated)
    }
}

/// The variable is one of the three wires of gate `n`.
pub open spec fn is_wire_of(v: Variable, n: usize) -> bool {
    v == Variable::MultiplierLeft(n) || v == Variable::MultiplierRight(n) || v
        == Variable::MultiplierOutput(n)
}

/// The assignment `after` is `before` with the wires of gate `n` set as a
/// prover sets them: the inputs to the values that the linear combinations
/// `left` and `right` have under `before`, and the output to their product.
pub open spec fn extends_by_gate(
    before: Assignment,
    after: Assignment,
    n: usize,
    left: Terms,
    right: Terms,
    p: nat,
) -> bool {
    &&& forall|v: Variable| !is_wire_of(v, n) ==> #[trigger] after(v) == before(v)
    &&& after(Variable::MultiplierLeft(n)) == terms_value(left, before, p)
    &&& after(Variable::MultiplierRight(n)) == terms_value(right, before, p)
    &&& after(Variable::MultiplierOutput(n)) == (after(Variable::MultiplierLeft(n)) * after(
        Variable::MultiplierRight(n),
    )) % p
}

/// The constraint that ties a gate's input wire to the linear combination
/// that feeds it.
pub open spec fn gate_input(t: Terms, wire: Variable, p: nat) -> Terms {
    terms_difference(t, terms_of_variable(wire), p)
}

/// What a gadget may do to a constraint system. A prover, which knows the
/// values, and a verifier, which does not, both offer it, and a gadget
/// written against it records the same constraints in either.
pub trait ConstraintSystem {
    /// The curve whose scalars the system is over.
    spec fn curve(&self) -> CurveId;

    /// The system's own invariant.
    spec fn wf(&self) -> bool;

    /// The number of multiplication gates.
    spec fn gates(&self) -> nat;

    /// The linear constraints, in the order in which they were added.
    spec fn constraints(&self) -> Seq<Terms>;

    /// The values of the variables, where the system knows them: a prover
    /// does, a verifier does not.
    spec fn witness(&self) -> Option<Assignment>;

    /// The curve whose scalars the system is over.
    fn curve_id(&self) -> (r: CurveId)
        ensures
            r == self.curve(),
    ;

    /// Adds a multiplication gate whose inputs are tied to `left` and
    /// `right`, and returns its three wires.
    fn multiply(&mut self, left: &LinearCombination, right: &LinearCombination) -> (r: (
        Variable,
        Variable,
        Variable,
    ))
        requires
            old(self).wf(),
            left.wf_in(old(self).curve()),
            right.wf_in(old(self).curve()),
            old(self).gates() < usize::MAX,
        ensures
            final(self).wf(),
            final(self).curve() == old(self).curve(),
            final(self).gates() == old(self).gates() + 1,
            r.0 == Variable::MultiplierLeft(old(self).gates() as usize),
            r.1 == Variable::MultiplierRight(old(self).gates() as usize),
            r.2 == Variable::MultiplierOutput(old(self).gates() as usize),
            final(self).constraints() == old(self).constraints().push(
                gate_input(left@, r.0, scalar_modulus(old(self).curve())),
            ).push(gate_input(right@, r.1, scalar_modulus(old(self).curve()))),
            old(self).witness() is None ==> final(self).witness() is None,
            old(self).witness() matches Some(before) ==> final(self).witness() matches Some(after)
                && extends_by_gate(
                before,
                after,
                old(self).gates() as usize,
                left@,
                right@,
                scalar_modulus(old(self).curve()),
            ),
    ;

    /// Adds the constraint that a linear combination is zero.
    fn constrain(&mut self, lc: LinearCombination)
        requires
            old(self).wf(),
            lc.wf_in(old(self).curve()),
        ensures
            final(self).wf(),
            final(self).curve() == old(self).curve(),
            final(self).gates() == old(self).gates(),
            final(self).constraints() == old(self).constraints().push(lc@),
            final(self).witness() == old(self).witness(),
    ;
}

} // verus!
