//! The proving side of a constraint system: it knows the value of every
//! variable, forms the commitments, and can tell whether its values satisfy
//! what the gadgets have recorded.

use crate::curve::{point_product, point_sum, Point, PointView};
use crate::field::{scalar_modulus, CurveId, Scalar};
use crate::r1cs::{
    constraints_hold, extends_by_gate, gate_input, gates_hold, is_wire_of, terms_value, Assignment, ConstraintSystem, LinearCombination,
    Terms, Variable,
};
use vstd::prelude::*;

verus! {

/// The commitment to one value: the value's multiple of the generator `b`
/// plus the blinding's multiple of the generator `h`.
pub open spec fn pedersen_commitment(b: PointView, h: PointView, value: nat, blinding: nat)
    -> PointView {
    point_sum(point_product(b, value), point_product(h, blinding))
}

/// The commitment to a vector: the blinding's multiple of `h`, to which the
/// multiple of each generator by its value is added, in order.
pub open spec fn vector_commitment(
    values: Seq<nat>,
    blinding: nat,
    gens: Seq<PointView>,
    h: PointView,
) -> PointView
    decreases values.len(),
{
    if values.len() == 0 {
        point_product(h, blinding)
    } else {
        point_sum(
            vector_commitment(values.drop_last(), blinding, gens, h),
            point_product(gens[values.len() - 1], values.last()),
        )
    }
}

/// The numbers that a list of scalars stands for.
pub open spec fn scalar_values(s: Seq<Scalar>) -> Seq<nat> {
    Seq::new(s.len(), |i: int| s[i]@)
}

/// The views of a list of points.
pub open spec fn point_views(s: Seq<Point>) -> Seq<PointView> {
    Seq::new(s.len(), |i: int| s[i]@)
}

/// Every scalar of a list is a canonical scalar of the curve.
pub open spec fn scalars_wf(s: Seq<Scalar>, curve: CurveId) -> bool {
    forall|i: int| 0 <= i < s.len() ==> (#[trigger] s[i]).wf_in(curve)
}

/// Every point of a list is a canonical point of the curve.
pub open spec fn points_wf(s: Seq<Point>, curve: CurveId) -> bool {
    forall|i: int| 0 <= i < s.len() ==> (#[trigger] s[i]).wf_in(curve)
}

/// Commits to a vector of values under the first generators of `gens`.
pub fn commit_to(values: &Vec<Scalar>, blinding: &Scalar, gens: &Vec<Point>, h: &Point) -> (r:
    Point)
    requires
        h.wf(),
        blinding.wf_in(h.curve),
        scalars_wf(values@, h.curve),
        points_wf(gens@, h.curve),
        values@.len() <= gens@.len(),
    ensures
        r.wf_in(h.curve),
        r@ == vector_commitment(scalar_values(values@), blinding@, point_views(gens@), h@),
{
    let mut acc = h.mul(blinding);
    let mut i: usize = 0;
    assert(scalar_values(values@).subrange(0, 0) =~= Seq::<nat>::empty());
    while i < values.len()
        invariant
            i <= values@.len(),
            values@.len() <= gens@.len(),
            h.wf(),
            scalars_wf(values@, h.curve),
            points_wf(gens@, h.curve),
            acc.wf_in(h.curve),
            acc@ == vector_commitment(
                scalar_values(values@).subrange(0, i as int),
                blinding@,
                point_views(gens@),
                h@,
            ),
        decreases values@.len() - i,
    {
        assert(values@[i as int].wf_in(h.curve));
        assert(gens@[i as int].wf_in(h.curve));
        let term = gens[i].mul(&values[i]);
        proof {
            let next = scalar_values(values@).subrange(0, i + 1);
            assert(next.drop_last() =~= scalar_values(values@).subrange(0, i as int));
            assert(next.last() == values@[i as int]@);
            assert(point_views(gens@)[i as int] == gens@[i as int]@);
        }
        acc = acc.add(&term);
        i += 1;
    }
    assert(scalar_values(values@).subrange(0, i as int) =~= scalar_values(values@));
    acc
}

/// A constraint system together with a value for each of its variables.
pub struct Prover {
    pub curve: CurveId,
    /// The generator that carries a committed value.
    pub b: Point,
    /// The generator that carries a blinding.
    pub b_blinding: Point,
    pub committed: Vec<Scalar>,
    pub commitments: Vec<Point>,
    pub left: Vec<Scalar>,
    pub right: Vec<Scalar>,
    pub output: Vec<Scalar>,
    pub constraints: Vec<LinearCombination>,
}

impl Prover {
    /// The value that the prover holds for a variable; zero for one that it
    /// has not allocated.
    pub open spec fn value(&self, v: Variable) -> nat {
        match v {
            Variable::Committed(i) => if i < self.committed@.len() {
                self.committed@[i as int]@
            } else {
                0
            },
            Variable::MultiplierLeft(i) => if i < self.left@.len() {
                self.left@[i as int]@
            } else {
                0
            },
            Variable::MultiplierRight(i) => if i < self.right@.len() {
                self.right@[i as int]@
            } else {
                0
            },
            Variable::MultiplierOutput(i) => if i < self.output@.len() {
                self.output@[i as int]@
            } else {
                0
            },
            Variable::One => 1,
        }
    }

    /// The prover's values as an assignment.
    pub open spec fn assignment(&self) -> Assignment {
        |v: Variable| self.value(v)
    }

    /// The prover's values satisfy every constraint recorded so far.
    pub open spec fn satisfied(&self) -> bool {
        constraints_hold(self.constraints(), self.assignment(), scalar_modulus(self.curve))
    }

    /// The prover's values respect every gate that it has allocated: each
    /// output is the product of its inputs.
    pub proof fn lemma_gates_hold(&self, first: nat, count: nat)
        requires
            self.wf(),
            first + count <= self.gates(),
        ensures
            gates_hold(self.assignment(), first, count, scalar_modulus(self.curve)),
    {
        let p = scalar_modulus(self.curve);
        let a = self.assignment();
        assert forall|i: int| first <= i < first + count implies #[trigger] a(
            Variable::MultiplierOutput(i as usize),
        ) % p == (a(Variable::MultiplierLeft(i as usize)) * a(
            Variable::MultiplierRight(i as usize),
        )) % p by {
            assert(self.left@.len() == self.left.len());
            assert(i as usize == i);
            assert(a(Variable::MultiplierOutput(i as usize)) == self.output@[i]@);
            assert(a(Variable::MultiplierLeft(i as usize)) == self.left@[i]@);
            assert(a(Variable::MultiplierRight(i as usize)) == self.right@[i]@);
            assert(self.output@[i]@ == (self.left@[i]@ * self.right@[i]@) % p);
            vstd::arithmetic::div_mod::lemma_mod_twice(
                (self.left@[i]@ * self.right@[i]@) as int,
                p as int,
            );
        }
    }

    /// A prover with no variables and no constraints.
    pub fn new(b: Point, b_blinding: Point) -> (r: Prover)
        requires
            b.wf(),
            b_blinding.wf_in(b.curve),
        ensures
            r.wf(),
            r.curve == b.curve,
            r.b == b,
            r.b_blinding == b_blinding,
            r.committed@.len() == 0,
            r.commitments@.len() == 0,
            r.gates() == 0,
            r.constraints() == Seq::<Terms>::empty(),
    {
        let r = Prover {
            curve: b.curve,
            b,
            b_blinding,
            committed: Vec::new(),
            commitments: Vec::new(),
            left: Vec::new(),
            right: Vec::new(),
            output: Vec::new(),
            constraints: Vec::new(),
        };
        assert(r.constraints() =~= Seq::<Terms>::empty());
        r
    }

    /// Commits to one value and returns the commitment and the variable that
    /// stands for the value.
    pub fn commit(&mut self, value: Scalar, blinding: Scalar) -> (r: (Point, Variable))
        requires
            old(self).wf(),
            value.wf_in(old(self).curve),
            blinding.wf_in(old(self).curve),
        ensures
            final(self).wf(),
            final(self).unchanged_but_commitments(*old(self)),
            final(self).committed@ == old(self).committed@.push(value),
            final(self).commitments@ == old(self).commitments@.push(r.0),
            r.0.wf_in(old(self).curve),
            r.0@ == pedersen_commitment(old(self).b@, old(self).b_blinding@, value@, blinding@),
            r.1 == Variable::Committed(old(self).committed.len()),
    {
        let point = self.b.mul(&value).add(&self.b_blinding.mul(&blinding));
        let variable = Variable::Committed(self.committed.len());
        self.committed.push(value);
        self.commitments.push(point);
        (point, variable)
    }

    /// Commits to a vector of values under the given generators and returns
    /// the commitment and one variable for each value.
    pub fn commit_vec(&mut self, values: &Vec<Scalar>, blinding: Scalar, gens: &Vec<Point>) -> (r:
        (Point, Vec<Variable>))
        requires
            old(self).wf(),
            blinding.wf_in(old(self).curve),
            scalars_wf(values@, old(self).curve),
            points_wf(gens@, old(self).curve),
            values@.len() <= gens@.len(),
        ensures
            final(self).wf(),
            final(self).unchanged_but_commitments(*old(self)),
            final(self).committed@ == old(self).committed@ + values@,
            final(self).commitments@ == old(self).commitments@.push(r.0),
            r.0.wf_in(old(self).curve),
            r.0@ == vector_commitment(
                scalar_values(values@),
                blinding@,
                point_views(gens@),
                old(self).b_blinding@,
            ),
            r.1@.len() == values@.len(),
            forall|i: int|
                0 <= i < values@.len() ==> #[trigger] r.1@[i] == Variable::Committed(
                    (old(self).committed@.len() + i) as usize,
                ),
    {
        let point = commit_to(values, &blinding, gens, &self.b_blinding);
        let mut variables: Vec<Variable> = Vec::new();
        let mut i: usize = 0;
        while i < values.len()
            invariant
                i <= values@.len(),
                self.wf(),
                self.unchanged_but_commitments(*old(self)),
                self.commitments@ == old(self).commitments@,
                scalars_wf(values@, self.curve),
                self.committed@ == old(self).committed@ + values@.subrange(0, i as int),
                variables@.len() == i,
                forall|j: int|
                    0 <= j < i ==> #[trigger] variables@[j] == Variable::Committed(
                        (old(self).committed@.len() + j) as usize,
                    ),
            decreases values@.len() - i,
        {
            assert(values@[i as int].wf_in(self.curve));
            variables.push(Variable::Committed(self.committed.len()));
            self.committed.push(values[i]);
            assert(self.committed@ =~= old(self).committed@ + values@.subrange(0, i + 1));
            i += 1;
        }
        assert(values@.subrange(0, i as int) =~= values@);
        self.commitments.push(point);
        (point, variables)
    }

    /// Everything but the committed values and the commitments is as in
    /// `before`.
    pub open spec fn unchanged_but_commitments(&self, before: Prover) -> bool {
        &&& self.curve == before.curve
        &&& self.b == before.b
        &&& self.b_blinding == before.b_blinding
        &&& self.left == before.left
        &&& self.right == before.right
        &&& self.output == before.output
        &&& self.constraints == before.constraints
    }

    /// The value that the prover holds for a variable.
    pub fn value_of(&self, v: Variable) -> (r: Scalar)
        requires
            self.wf(),
        ensures
            r.wf_in(self.curve),
            r@ == self.value(v),
    {
        match v {
            Variable::Committed(i) => if i < self.committed.len() {
                self.committed[i]
            } else {
                Scalar::zero(self.curve)
            },
            Variable::MultiplierLeft(i) => if i < self.left.len() {
                self.left[i]
            } else {
                Scalar::zero(self.curve)
            },
            Variable::MultiplierRight(i) => if i < self.right.len() {
                self.right[i]
            } else {
                Scalar::zero(self.curve)
            },
            Variable::MultiplierOutput(i) => if i < self.output.len() {
                self.output[i]
            } else {
                Scalar::zero(self.curve)
            },
            Variable::One => Scalar::one(self.curve),
        }
    }

    /// The value of a linear combination under the prover's values.
    pub fn evaluate(&self, lc: &LinearCombination) -> (r: Scalar)
        requires
            self.wf(),
            lc.wf_in(self.curve),
        ensures
            r.wf_in(self.curve),
            r@ == terms_value(lc@, self.assignment(), scalar_modulus(self.curve)),
    {
        let mut acc = Scalar::zero(self.curve);
        let mut i: usize = 0;
        assert(lc@.subrange(0, 0) =~= Seq::<(Variable, nat)>::empty());
        while i < lc.terms.len()
            invariant
                i <= lc.terms@.len(),
                self.wf(),
                lc.wf_in(self.curve),
                acc.wf_in(self.curve),
                acc@ == terms_value(
                    lc@.subrange(0, i as int),
                    self.assignment(),
                    scalar_modulus(self.curve),
                ),
            decreases lc.terms@.len() - i,
        {
            let term = lc.terms[i];
            assert(term.1.wf_in(self.curve));
            let value = self.value_of(term.0);
            proof {
                let next = lc@.subrange(0, i + 1);
                assert(next.drop_last() =~= lc@.subrange(0, i as int));
                assert(next.last() == (term.0, term.1@));
            }
            acc = acc.add(&term.1.mul(&value));
            i += 1;
        }
        assert(lc@.subrange(0, i as int) =~= lc@);
        acc
    }

    /// Whether the prover's values satisfy every constraint recorded so far.
    pub fn is_satisfied(&self) -> (r: bool)
        requires
            self.wf(),
        ensures
            r == self.satisfied(),
    {
        let mut i: usize = 0;
        while i < self.constraints.len()
            invariant
                i <= self.constraints@.len(),
                self.wf(),
                forall|j: int|
                    0 <= j < i ==> terms_value(
                        #[trigger] self.constraints()[j],
                        self.assignment(),
                        scalar_modulus(self.curve),
                    ) == 0,
            decreases self.constraints@.len() - i,
        {
            assert(self.constraints@[i as int].wf_in(self.curve));
            let value = self.evaluate(&self.constraints[i]);
            assert(self.constraints()[i as int] == self.constraints@[i as int]@);
            if !value.is_zero() {
                return false;
            }
            i += 1;
        }
        true
    }
}

impl ConstraintSystem for Prover {
    open spec fn curve(&self) -> CurveId {
        self.curve
    }

    open spec fn wf(&self) -> bool {
        &&& self.b.wf_in(self.curve)
        &&& self.b_blinding.wf_in(self.curve)
        &&& scalars_wf(self.committed@, self.curve)
        &&& scalars_wf(self.left@, self.curve)
        &&& scalars_wf(self.right@, self.curve)
        &&& scalars_wf(self.output@, self.curve)
        &&& self.left@.len() == self.right@.len()
        &&& self.left@.len() == self.output@.len()
        &&& forall|i: int|
            0 <= i < self.output@.len() ==> (#[trigger] self.output@[i])@ == (self.left@[i]@
                * self.right@[i]@) % scalar_modulus(self.curve)
        &&& forall|i: int|
            0 <= i < self.constraints@.len() ==> (#[trigger] self.constraints@[i]).wf_in(self.curve)
    }

    open spec fn gates(&self) -> nat {
        self.left@.len()
    }

    open spec fn constraints(&self) -> Seq<Terms> {
        Seq::new(self.constraints@.len(), |i: int| self.constraints@[i]@)
    }

    open spec fn witness(&self) -> Option<Assignment> {
        Some(self.assignment())
    }

    fn curve_id(&self) -> (r: CurveId) {
        self.curve
    }

    fn multiply(&mut self, left: &LinearCombination, right: &LinearCombination) -> (r: (
        Variable,
        Variable,
        Variable,
    ))
        ensures
            final(self).committed == old(self).committed,
            final(self).commitments == old(self).commitments,
            final(self).b == old(self).b,
            final(self).b_blinding == old(self).b_blinding,
            final(self).left@ == old(self).left@.push(final(self).left@.last()),
            final(self).right@ == old(self).right@.push(final(self).right@.last()),
            final(self).output@ == old(self).output@.push(final(self).output@.last()),
            final(self).left@.last()@ == terms_value(
                left@,
                old(self).assignment(),
                scalar_modulus(old(self).curve),
            ),
            final(self).right@.last()@ == terms_value(
                right@,
                old(self).assignment(),
                scalar_modulus(old(self).curve),
            ),
    {
        let l = self.evaluate(left);
        let r = self.evaluate(right);
        let o = l.mul(&r);
        let n = self.left.len();
        let left_wire = LinearCombination::from_variable(self.curve, Variable::MultiplierLeft(n));
        let right_wire = LinearCombination::from_variable(self.curve, Variable::MultiplierRight(n));
        let left_tie = left.minus(&left_wire, self.curve);
        let right_tie = right.minus(&right_wire, self.curve);
        self.left.push(l);
        self.right.push(r);
        self.output.push(o);
        self.constraints.push(left_tie);
        self.constraints.push(right_tie);
        proof {
            let p = scalar_modulus(old(self).curve);
            assert(self.constraints() =~= old(self).constraints().push(
                gate_input(left@, Variable::MultiplierLeft(n), p),
            ).push(gate_input(right@, Variable::MultiplierRight(n), p)));
            assert(self.left@.last() == l);
            assert(self.right@.last() == r);
            assert(self.output@.last() == o);
            let before = old(self).assignment();
            let after = self.assignment();
            assert forall|v: Variable| !is_wire_of(v, n) implies #[trigger] after(v) == before(
                v,
            ) by {
                assert(after(v) == self.value(v));
                assert(before(v) == old(self).value(v));
            }
            assert(after(Variable::MultiplierLeft(n)) == self.value(Variable::MultiplierLeft(n)));
            assert(after(Variable::MultiplierRight(n)) == self.value(
                Variable::MultiplierRight(n),
            ));
            assert(after(Variable::MultiplierOutput(n)) == self.value(
                Variable::MultiplierOutput(n),
            ));
            assert(extends_by_gate(before, after, n, left@, right@, p));
        }
        (
            Variable::MultiplierLeft(n),
            Variable::MultiplierRight(n),
            Variable::MultiplierOutput(n),
        )
    }

    fn constrain(&mut self, lc: LinearCombination)
        ensures
            final(self).committed == old(self).committed,
            final(self).commitments == old(self).commitments,
            final(self).b == old(self).b,
            final(self).b_blinding == old(self).b_blinding,
            final(self).left == old(self).left,
            final(self).right == old(self).right,
            final(self).output == old(self).output,
    {
        self.constraints.push(lc);
        assert(self.constraints() =~= old(self).constraints().push(lc@));
    }
}

} // verus!
