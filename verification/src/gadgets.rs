//! Gadgets that relate several opened entries of commitments by linear
//! equalities. None of them costs a multiplication gate.

use crate::field::scalar_modulus;
use crate::algebra::{
    agree_before_gate, avoids_gates_from, field_product, field_sum,
    lemma_constraints_hold_of_both, lemma_difference_zero, lemma_field_sum_grouping,
    lemma_gate_ties, lemma_sum_value, lemma_variable_value,
};
use crate::algebra::lemma_shift_is_injective;
use crate::field::lemma_modulus_large;
use crate::select::{lemma_select_of_one, select_constraints};
use crate::r1cs::{
    constraint_holds, constraints_hold, gate_input, gates_hold, terms_difference,
    terms_of_variable, terms_sum, terms_value, Assignment, ConstraintSystem, LinearCombination,
    Terms, Variable,
};
use vstd::arithmetic::div_mod::{lemma_add_mod_noop_right, lemma_mod_twice};
use vstd::prelude::*;

verus! {

/// The one constraint of the equality gadgets: `d1 - d2`.
pub open spec fn equality_constraint(d1: Terms, d2: Terms, p: nat) -> Terms {
    terms_difference(d1, d2, p)
}

/// The five constraints of the non-trivial gadget, in order: `a1 - a2`,
/// `a2 - a3`, `a4 - (a1 + a2 + a3)`, `d1 - (a1 + a2 + a3 + a4 + a5)` and
/// `d1 - d2`.
pub open spec fn non_trivial_constraints(
    a1: Terms,
    a2: Terms,
    a3: Terms,
    a4: Terms,
    a5: Terms,
    d1: Terms,
    d2: Terms,
    p: nat,
) -> Seq<Terms> {
    seq![
        terms_difference(a1, a2, p),
        terms_difference(a2, a3, p),
        terms_difference(a4, terms_sum(terms_sum(a1, a2), a3), p),
        terms_difference(
            d1,
            terms_sum(terms_sum(terms_sum(terms_sum(a1, a2), a3), a4), a5),
            p,
        ),
        terms_difference(d1, d2, p),
    ]
}

/// Constrains `d1 = d2` beside an empty vector commitment. The constant `c2`
/// takes no part in it.
pub fn veccom_empty_gadget<CS: ConstraintSystem>(
    cs: &mut CS,
    c2: LinearCombination,
    d1: LinearCombination,
    d2: LinearCombination,
)
    requires
        old(cs).wf(),
        d1.wf_in(old(cs).curve()),
        d2.wf_in(old(cs).curve()),
    ensures
        final(cs).wf(),
        final(cs).curve() == old(cs).curve(),
        final(cs).gates() == old(cs).gates(),
        final(cs).constraints() == old(cs).constraints().push(
            equality_constraint(d1@, d2@, scalar_modulus(old(cs).curve())),
        ),
        final(cs).witness() == old(cs).witness(),
        old(cs).witness() matches Some(w) ==> (constraints_hold(
            final(cs).constraints(),
            w,
            scalar_modulus(old(cs).curve()),
        ) <==> constraints_hold(old(cs).constraints(), w, scalar_modulus(old(cs).curve()))
            && terms_value(d1@, w, scalar_modulus(old(cs).curve())) == terms_value(
            d2@,
            w,
            scalar_modulus(old(cs).curve()),
        )),
{
    let curve = cs.curve_id();
    cs.constrain(d1.minus(&d2, curve));
    proof {
        let p = scalar_modulus(curve);
        lemma_modulus_large(curve);
        if let Some(w) = old(cs).witness() {
            let added = seq![equality_constraint(d1@, d2@, p)];
            assert(cs.constraints() =~= old(cs).constraints() + added);
            lemma_constraints_hold_of_both(old(cs).constraints(), added, w, p);
            lemma_equality_gadget(d1@, d2@, w, p);
            assert(added[0] == equality_constraint(d1@, d2@, p));
        }
    }
}

/// Constrains `d1 = d2` beside a vector commitment whose entries `a1` to
/// `a5` it leaves free.
pub fn veccom_do_nothing_gadget<CS: ConstraintSystem>(
    cs: &mut CS,
    a1: LinearCombination,
    a2: LinearCombination,
    a3: LinearCombination,
    a4: LinearCombination,
    a5: LinearCombination,
    d1: LinearCombination,
    d2: LinearCombination,
)
    requires
        old(cs).wf(),
        d1.wf_in(old(cs).curve()),
        d2.wf_in(old(cs).curve()),
    ensures
        final(cs).wf(),
        final(cs).curve() == old(cs).curve(),
        final(cs).gates() == old(cs).gates(),
        final(cs).constraints() == old(cs).constraints().push(
            equality_constraint(d1@, d2@, scalar_modulus(old(cs).curve())),
        ),
        final(cs).witness() == old(cs).witness(),
        old(cs).witness() matches Some(w) ==> (constraints_hold(
            final(cs).constraints(),
            w,
            scalar_modulus(old(cs).curve()),
        ) <==> constraints_hold(old(cs).constraints(), w, scalar_modulus(old(cs).curve()))
            && terms_value(d1@, w, scalar_modulus(old(cs).curve())) == terms_value(
            d2@,
            w,
            scalar_modulus(old(cs).curve()),
        )),
{
    let curve = cs.curve_id();
    cs.constrain(d1.minus(&d2, curve));
    proof {
        let p = scalar_modulus(curve);
        lemma_modulus_large(curve);
        if let Some(w) = old(cs).witness() {
            let added = seq![equality_constraint(d1@, d2@, p)];
            assert(cs.constraints() =~= old(cs).constraints() + added);
            lemma_constraints_hold_of_both(old(cs).constraints(), added, w, p);
            lemma_equality_gadget(d1@, d2@, w, p);
            assert(added[0] == equality_constraint(d1@, d2@, p));
        }
    }
}

/// Constrains `a1 = a2 = a3`, `a4 = a1 + a2 + a3`,
/// `d1 = a1 + a2 + a3 + a4 + a5` and `d1 = d2`.
pub fn veccom_non_trivial_gadget<CS: ConstraintSystem>(
    cs: &mut CS,
    a1: LinearCombination,
    a2: LinearCombination,
    a3: LinearCombination,
    a4: LinearCombination,
    a5: LinearCombination,
    d1: LinearCombination,
    d2: LinearCombination,
)
    requires
        old(cs).wf(),
        a1.wf_in(old(cs).curve()),
        a2.wf_in(old(cs).curve()),
        a3.wf_in(old(cs).curve()),
        a4.wf_in(old(cs).curve()),
        a5.wf_in(old(cs).curve()),
        d1.wf_in(old(cs).curve()),
        d2.wf_in(old(cs).curve()),
    ensures
        final(cs).wf(),
        final(cs).curve() == old(cs).curve(),
        final(cs).gates() == old(cs).gates(),
        final(cs).constraints() == old(cs).constraints() + non_trivial_constraints(
            a1@,
            a2@,
            a3@,
            a4@,
            a5@,
            d1@,
            d2@,
            scalar_modulus(old(cs).curve()),
        ),
        final(cs).witness() == old(cs).witness(),
        old(cs).witness() matches Some(w) ==> (constraints_hold(
            final(cs).constraints(),
            w,
            scalar_modulus(old(cs).curve()),
        ) <==> constraints_hold(old(cs).constraints(), w, scalar_modulus(old(cs).curve()))
            && non_trivial_relation(
            terms_value(a1@, w, scalar_modulus(old(cs).curve())),
            terms_value(a2@, w, scalar_modulus(old(cs).curve())),
            terms_value(a3@, w, scalar_modulus(old(cs).curve())),
            terms_value(a4@, w, scalar_modulus(old(cs).curve())),
            terms_value(a5@, w, scalar_modulus(old(cs).curve())),
            terms_value(d1@, w, scalar_modulus(old(cs).curve())),
            terms_value(d2@, w, scalar_modulus(old(cs).curve())),
            scalar_modulus(old(cs).curve()),
        )),
{
    let curve = cs.curve_id();
    let ghost p = scalar_modulus(curve);
    cs.constrain(a1.minus(&a2, curve));
    cs.constrain(a2.minus(&a3, curve));
    let three = a1.plus(&a2).plus(&a3);
    cs.constrain(a4.minus(&three, curve));
    let five = three.plus(&a4).plus(&a5);
    cs.constrain(d1.minus(&five, curve));
    cs.constrain(d1.minus(&d2, curve));
    assert(cs.constraints() =~= old(cs).constraints() + non_trivial_constraints(
        a1@,
        a2@,
        a3@,
        a4@,
        a5@,
        d1@,
        d2@,
        p,
    ));
    proof {
        lemma_modulus_large(curve);
        if let Some(w) = old(cs).witness() {
            let added = non_trivial_constraints(a1@, a2@, a3@, a4@, a5@, d1@, d2@, p);
            lemma_constraints_hold_of_both(old(cs).constraints(), added, w, p);
            lemma_non_trivial_gadget(a1@, a2@, a3@, a4@, a5@, d1@, d2@, w, p);
        }
    }
}

/// The relation of the non-trivial gadget, of seven values in the order
/// `a1` to `a5`, `d1`, `d2`.
pub open spec fn non_trivial_relation_of(v: Seq<nat>, p: nat) -> bool {
    non_trivial_relation(v[0], v[1], v[2], v[3], v[4], v[5], v[6], p)
}

/// Seven values in the relation leave it when any one of them is changed:
/// so also when one is raised or lowered by one.
pub proof fn lemma_single_change_breaks_relation(v: Seq<nat>, w: Seq<nat>, k: int, p: nat)
    requires
        p > 1,
        v.len() == 7,
        w.len() == 7,
        forall|i: int| 0 <= i < 7 ==> v[i] < p && w[i] < p,
        non_trivial_relation_of(v, p),
        0 <= k < 7,
        v[k] != w[k],
        forall|i: int| 0 <= i < 7 && i != k ==> v[i] == w[i],
    ensures
        !non_trivial_relation_of(w, p),
{
    if k == 4 {
        lemma_shift_is_injective(v[0] + v[1] + v[2] + v[3], v[4], w[4], p);
    }
}

/// The five equalities laid down as five selections over one candidate each
/// are the constraints of the non-trivial gadget. They cost no gate, and
/// they hold under an assignment exactly when the values are in the
/// relation.
pub proof fn lemma_five_selections(
    a1: Terms,
    a2: Terms,
    a3: Terms,
    a4: Terms,
    a5: Terms,
    d1: Terms,
    d2: Terms,
    first: nat,
    a: Assignment,
    p: nat,
)
    requires
        p > 1,
    ensures
        five_selections(a1, a2, a3, a4, a5, d1, d2, first, p) == non_trivial_constraints(
            a1,
            a2,
            a3,
            a4,
            a5,
            d1,
            d2,
            p,
        ),
        constraints_hold(five_selections(a1, a2, a3, a4, a5, d1, d2, first, p), a, p)
            <==> non_trivial_relation(
            terms_value(a1, a, p),
            terms_value(a2, a, p),
            terms_value(a3, a, p),
            terms_value(a4, a, p),
            terms_value(a5, a, p),
            terms_value(d1, a, p),
            terms_value(d2, a, p),
            p,
        ),
{
    let three = terms_sum(terms_sum(a1, a2), a3);
    let five = terms_sum(terms_sum(three, a4), a5);
    lemma_select_of_one(a2, a1, first, a, p);
    lemma_select_of_one(a3, a2, first, a, p);
    lemma_select_of_one(three, a4, first, a, p);
    lemma_select_of_one(five, d1, first, a, p);
    lemma_select_of_one(d2, d1, first, a, p);
    assert(five_selections(a1, a2, a3, a4, a5, d1, d2, first, p) =~= non_trivial_constraints(
        a1,
        a2,
        a3,
        a4,
        a5,
        d1,
        d2,
        p,
    ));
    lemma_non_trivial_gadget(a1, a2, a3, a4, a5, d1, d2, a, p);
}

/// What five selections over one candidate each record, for the pairs
/// `(a1, a2)`, `(a2, a3)`, `(a4, a1 + a2 + a3)`,
/// `(d1, a1 + a2 + a3 + a4 + a5)` and `(d1, d2)`: the first of a pair is the
/// candidate, the second the value that is selected. No selection allocates
/// a gate, so all start from the same gate count.
pub open spec fn five_selections(
    a1: Terms,
    a2: Terms,
    a3: Terms,
    a4: Terms,
    a5: Terms,
    d1: Terms,
    d2: Terms,
    first: nat,
    p: nat,
) -> Seq<Terms> {
    let three = terms_sum(terms_sum(a1, a2), a3);
    let five = terms_sum(terms_sum(three, a4), a5);
    select_constraints(a2, seq![a1], first, p) + select_constraints(a3, seq![a2], first, p)
        + select_constraints(three, seq![a4], first, p) + select_constraints(
        five,
        seq![d1],
        first,
        p,
    ) + select_constraints(d2, seq![d1], first, p)
}

/// The three constraints of the product gadget whose gate is `n`: the two
/// that tie the left and right wires to `a1 + a2` and `b1 + b2`, and
/// `c1 + c2` less the third wire.
pub open spec fn product_constraints(
    a1: Terms,
    a2: Terms,
    b1: Terms,
    b2: Terms,
    c1: Terms,
    c2: Terms,
    n: usize,
    p: nat,
) -> Seq<Terms> {
    seq![
        gate_input(terms_sum(a1, a2), Variable::MultiplierLeft(n), p),
        gate_input(terms_sum(b1, b2), Variable::MultiplierRight(n), p),
        terms_difference(
            terms_sum(c1, c2),
            terms_of_variable(Variable::MultiplierOutput(n)),
            p,
        ),
    ]
}

/// What the product gadget does for a prover. The witness `after` is the
/// witness `before` with the wires of gate `n` set, and it satisfies all the
/// constraints recorded so far exactly when it satisfied those recorded
/// before and `(a1 + a2) * (b1 + b2) = c1 + c2` holds of the values, in the
/// field.
pub open spec fn product_law(
    before: Assignment,
    after: Assignment,
    constraints_before: Seq<Terms>,
    constraints_after: Seq<Terms>,
    a1: Terms,
    a2: Terms,
    b1: Terms,
    b2: Terms,
    c1: Terms,
    c2: Terms,
    n: usize,
    p: nat,
) -> bool {
    &&& agree_before_gate(before, after, n as nat)
    &&& gates_hold(after, n as nat, 1, p)
    &&& constraints_hold(constraints_after, after, p) <==> constraints_hold(
        constraints_before,
        after,
        p,
    ) && field_product(
        field_sum(terms_value(a1, after, p), terms_value(a2, after, p), p),
        field_sum(terms_value(b1, after, p), terms_value(b2, after, p), p),
        p,
    ) == field_sum(terms_value(c1, after, p), terms_value(c2, after, p), p)
}

/// Constrains `(a1 + a2) * (b1 + b2) = c1 + c2` with one multiplication
/// gate: the only gate that the relation costs.
pub fn veccom_product_gadget<CS: ConstraintSystem>(
    cs: &mut CS,
    a1: LinearCombination,
    a2: LinearCombination,
    b1: LinearCombination,
    b2: LinearCombination,
    c1: LinearCombination,
    c2: LinearCombination,
)
    requires
        old(cs).wf(),
        a1.wf_in(old(cs).curve()),
        a2.wf_in(old(cs).curve()),
        b1.wf_in(old(cs).curve()),
        b2.wf_in(old(cs).curve()),
        c1.wf_in(old(cs).curve()),
        c2.wf_in(old(cs).curve()),
        old(cs).gates() < usize::MAX,
    ensures
        final(cs).wf(),
        final(cs).curve() == old(cs).curve(),
        final(cs).gates() == old(cs).gates() + 1,
        final(cs).constraints() == old(cs).constraints() + product_constraints(
            a1@,
            a2@,
            b1@,
            b2@,
            c1@,
            c2@,
            old(cs).gates() as usize,
            scalar_modulus(old(cs).curve()),
        ),
        old(cs).witness() is None ==> final(cs).witness() is None,
        old(cs).witness() is Some && avoids_gates_from(terms_sum(a1@, a2@), old(cs).gates())
            && avoids_gates_from(terms_sum(b1@, b2@), old(cs).gates()) ==> final(cs).witness()
            is Some && product_law(
            old(cs).witness()->Some_0,
            final(cs).witness()->Some_0,
            old(cs).constraints(),
            final(cs).constraints(),
            a1@,
            a2@,
            b1@,
            b2@,
            c1@,
            c2@,
            old(cs).gates() as usize,
            scalar_modulus(old(cs).curve()),
        ),
{
    let curve = cs.curve_id();
    let ghost p = scalar_modulus(curve);
    let ghost n = cs.gates() as usize;
    let left = a1.plus(&a2);
    let right = b1.plus(&b2);
    let (_, _, out) = cs.multiply(&left, &right);
    let sum = c1.plus(&c2);
    cs.constrain(sum.minus(&LinearCombination::from_variable(curve, out), curve));
    proof {
        lemma_modulus_large(curve);
        let added = product_constraints(a1@, a2@, b1@, b2@, c1@, c2@, n, p);
        assert(cs.constraints() =~= old(cs).constraints() + added);
        if old(cs).witness() is Some && avoids_gates_from(left@, n as nat) && avoids_gates_from(
            right@,
            n as nat,
        ) {
            let before = old(cs).witness()->Some_0;
            let after = cs.witness()->Some_0;
            let wire = Variable::MultiplierOutput(n);
            lemma_gate_ties(before, after, n, left@, right@, p);
            lemma_constraints_hold_of_both(old(cs).constraints(), added, after, p);
            lemma_sum_value(a1@, a2@, after, p);
            lemma_sum_value(b1@, b2@, after, p);
            lemma_sum_value(c1@, c2@, after, p);
            lemma_difference_zero(sum@, terms_of_variable(wire), after, p);
            lemma_variable_value(wire, after, p);
            lemma_mod_twice(
                (terms_value(left@, after, p) * terms_value(right@, after, p)) as int,
                p as int,
            );
            assert(after(wire) % p == after(wire));
            assert(constraint_holds(added[0], after, p));
            assert(constraint_holds(added[1], after, p));
            if constraints_hold(added, after, p) {
                assert(constraint_holds(added[2], after, p));
            }
            assert forall|i: int| n <= i < n + 1 implies #[trigger] after(
                Variable::MultiplierOutput(i as usize),
            ) % p == (after(Variable::MultiplierLeft(i as usize)) * after(
                Variable::MultiplierRight(i as usize),
            )) % p by {
                assert(i as usize == n);
                lemma_mod_twice(
                    (after(Variable::MultiplierLeft(n)) * after(Variable::MultiplierRight(n)))
                        as int,
                    p as int,
                );
            }
        }
    }
}

/// The constraint of the equality gadgets holds under an assignment exactly
/// when `d1` and `d2` have the same value in the field.
pub proof fn lemma_equality_gadget(d1: Terms, d2: Terms, a: Assignment, p: nat)
    requires
        p > 1,
    ensures
        constraint_holds(equality_constraint(d1, d2, p), a, p) <==> terms_value(d1, a, p)
            == terms_value(d2, a, p),
{
    lemma_difference_zero(d1, d2, a, p);
}

/// What the non-trivial gadget asks of the values `v1` to `v5` of `a1` to
/// `a5` and `w1`, `w2` of `d1`, `d2`: `a1 = a2 = a3`, `a4 = a1 + a2 + a3`,
/// `d1 = a1 + a2 + a3 + a4 + a5` and `d1 = d2`, all in the field.
pub open spec fn non_trivial_relation(
    v1: nat,
    v2: nat,
    v3: nat,
    v4: nat,
    v5: nat,
    w1: nat,
    w2: nat,
    p: nat,
) -> bool {
    &&& v1 == v2
    &&& v2 == v3
    &&& v4 == (v1 + v2 + v3) % p
    &&& w1 == (v1 + v2 + v3 + v4 + v5) % p
    &&& w1 == w2
}

/// The constraints of the non-trivial gadget hold under an assignment
/// exactly when the values of its inputs are in the relation. So a change of
/// any one value by one breaks them.
pub proof fn lemma_non_trivial_gadget(
    a1: Terms,
    a2: Terms,
    a3: Terms,
    a4: Terms,
    a5: Terms,
    d1: Terms,
    d2: Terms,
    a: Assignment,
    p: nat,
)
    requires
        p > 1,
    ensures
        constraints_hold(non_trivial_constraints(a1, a2, a3, a4, a5, d1, d2, p), a, p)
            <==> non_trivial_relation(
            terms_value(a1, a, p),
            terms_value(a2, a, p),
            terms_value(a3, a, p),
            terms_value(a4, a, p),
            terms_value(a5, a, p),
            terms_value(d1, a, p),
            terms_value(d2, a, p),
            p,
        ),
{
    let cs = non_trivial_constraints(a1, a2, a3, a4, a5, d1, d2, p);
    let v1 = terms_value(a1, a, p);
    let v2 = terms_value(a2, a, p);
    let v3 = terms_value(a3, a, p);
    let v4 = terms_value(a4, a, p);
    let v5 = terms_value(a5, a, p);
    let two = terms_sum(a1, a2);
    let three = terms_sum(two, a3);
    let four = terms_sum(three, a4);
    let five = terms_sum(four, a5);
    lemma_sum_value(a1, a2, a, p);
    lemma_sum_value(two, a3, a, p);
    lemma_sum_value(three, a4, a, p);
    lemma_sum_value(four, a5, a, p);
    lemma_field_sum_grouping(v1, v2, v3, p);
    lemma_add_mod_noop_right(v4 as int, (v1 + v2 + v3) as int, p as int);
    lemma_add_mod_noop_right(v5 as int, (v1 + v2 + v3 + v4) as int, p as int);
    assert(terms_value(three, a, p) == (v1 + v2 + v3) % p);
    assert(terms_value(five, a, p) == (v1 + v2 + v3 + v4 + v5) % p);
    lemma_difference_zero(a1, a2, a, p);
    lemma_difference_zero(a2, a3, a, p);
    lemma_difference_zero(a4, three, a, p);
    lemma_difference_zero(d1, five, a, p);
    lemma_difference_zero(d1, d2, a, p);
    if constraints_hold(cs, a, p) {
        assert(constraint_holds(cs[0], a, p));
        assert(constraint_holds(cs[1], a, p));
        assert(constraint_holds(cs[2], a, p));
        assert(constraint_holds(cs[3], a, p));
        assert(constraint_holds(cs[4], a, p));
    }
}

} // verus!
