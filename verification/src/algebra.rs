//! How the value of a linear combination follows from the values of its
//! parts, in a field of any order.

use crate::r1cs::{
    constraint_holds, constraints_hold, extends_by_gate, gate_input, is_wire_of,
    terms_difference, terms_of_variable, terms_scaled, terms_sum, terms_value, Assignment, Terms,
    Variable,
};
use vstd::arithmetic::div_mod::{
    lemma_add_mod_noop, lemma_add_mod_noop_right, lemma_mod_add_multiples_vanish,
    lemma_mod_bound, lemma_mod_equivalence, lemma_mod_multiples_vanish,
    lemma_mul_mod_noop_general, lemma_small_mod,
};
use vstd::prelude::*;

verus! {

/// The sum of two numbers in the field of order `p`.
pub open spec fn field_sum(x: nat, y: nat, p: nat) -> nat {
    (x + y) % p
}

/// The product of two numbers in the field of order `p`.
pub open spec fn field_product(x: nat, y: nat, p: nat) -> nat {
    (x * y) % p
}

/// The order `p` is that of a field: above one, and a product of two numbers
/// below `p` is zero in the field only if one of them is zero.
pub open spec fn is_field_order(p: nat) -> bool {
    &&& p > 1
    &&& forall|x: nat, y: nat|
        x < p && y < p && #[trigger] field_product(x, y, p) == 0 ==> x == 0 || y == 0
}

/// Adding the same number to two different numbers below the order gives
/// two different sums in the field.
pub proof fn lemma_shift_is_injective(s: nat, a: nat, b: nat, p: nat)
    requires
        p > 0,
        a < p,
        b < p,
        a != b,
    ensures
        field_sum(s, a, p) != field_sum(s, b, p),
{
    lemma_mod_equivalence((s + a) as int, (s + b) as int, p as int);
    lemma_mod_equivalence((s + b) as int, (s + a) as int, p as int);
    if a > b {
        lemma_small_mod((a - b) as nat, p);
    } else {
        lemma_small_mod((b - a) as nat, p);
    }
}

/// The value of a linear combination is a number below the order.
pub proof fn lemma_value_below(t: Terms, a: Assignment, p: nat)
    requires
        p > 0,
    ensures
        terms_value(t, a, p) < p,
{
    if t.len() > 0 {
        let v = terms_value(t.drop_last(), a, p) + (t.last().1 * a(t.last().0)) % p;
        lemma_mod_bound(v as int, p as int);
    }
}

/// Sums in the field may be taken in any grouping.
pub proof fn lemma_field_sum_grouping(x: nat, y: nat, z: nat, p: nat)
    requires
        p > 0,
    ensures
        field_sum(field_sum(x, y, p), z, p) == field_sum(x, field_sum(y, z, p), p),
        field_sum(field_sum(x, y, p), z, p) == (x + y + z) % p,
{
    lemma_add_mod_noop_right(z as int, (x + y) as int, p as int);
    lemma_add_mod_noop_right(x as int, (y + z) as int, p as int);
}

/// The value of a sum is the sum of the values.
pub proof fn lemma_sum_value(s: Terms, t: Terms, a: Assignment, p: nat)
    requires
        p > 0,
    ensures
        terms_value(terms_sum(s, t), a, p) == field_sum(
            terms_value(s, a, p),
            terms_value(t, a, p),
            p,
        ),
    decreases t.len(),
{
    if t.len() == 0 {
        assert(s + t =~= s);
        lemma_value_below(s, a, p);
        lemma_small_mod(terms_value(s, a, p), p);
    } else {
        let t0 = t.drop_last();
        let m = (t.last().1 * a(t.last().0)) % p;
        assert((s + t).drop_last() =~= s + t0);
        assert((s + t).last() == t.last());
        lemma_sum_value(s, t0, a, p);
        lemma_field_sum_grouping(terms_value(s, a, p), terms_value(t0, a, p), m, p);
    }
}

/// The value of a scaled linear combination is the scaled value.
pub proof fn lemma_scaled_value(t: Terms, k: nat, a: Assignment, p: nat)
    requires
        p > 0,
    ensures
        terms_value(terms_scaled(t, k, p), a, p) == field_product(terms_value(t, a, p), k, p),
    decreases t.len(),
{
    let st = terms_scaled(t, k, p);
    if t.len() == 0 {
        assert(st =~= Seq::<(Variable, nat)>::empty());
        assert(0nat * k == 0) by (nonlinear_arith);
        lemma_small_mod(0, p);
    } else {
        let t0 = t.drop_last();
        let c = t.last().1;
        let w = a(t.last().0);
        let v0 = terms_value(t0, a, p);
        assert(st.drop_last() =~= terms_scaled(t0, k, p));
        assert(st.last() == (t.last().0, (c * k) % p));
        lemma_scaled_value(t0, k, a, p);
        let lhs = ((v0 * k) % p + (((c * k) % p) * w) % p) % p;
        assert(terms_value(st, a, p) == lhs);
        let rhs = (((v0 + (c * w) % p) % p) * k) % p;
        assert(field_product(terms_value(t, a, p), k, p) == rhs);
        // Both sides are (v0 * k + c * w * k) % p.
        lemma_add_mod_noop((v0 * k) as int, (((c * k) % p) * w) as int, p as int);
        lemma_mul_mod_noop_general((c * k) as int, w as int, p as int);
        lemma_add_mod_noop((v0 * k) as int, ((c * k) * w) as int, p as int);
        assert(lhs == (v0 * k + (c * k) * w) % p);
        lemma_mul_mod_noop_general((v0 + (c * w) % p) as int, k as int, p as int);
        assert(rhs == ((v0 + (c * w) % p) * k) % p);
        let m = (c * w) % p;
        assert((v0 + m) * k == v0 * k + m * k) by (nonlinear_arith);
        lemma_add_mod_noop((v0 * k) as int, (((c * w) % p) * k) as int, p as int);
        lemma_mul_mod_noop_general((c * w) as int, k as int, p as int);
        lemma_add_mod_noop((v0 * k) as int, ((c * w) * k) as int, p as int);
        assert(rhs == (v0 * k + (c * w) * k) % p);
        assert((c * k) * w == (c * w) * k) by (nonlinear_arith);
    }
}

/// The value of one variable is the variable's value in the field.
pub proof fn lemma_variable_value(v: Variable, a: Assignment, p: nat)
    requires
        p > 0,
    ensures
        terms_value(terms_of_variable(v), a, p) == a(v) % p,
{
    let t = terms_of_variable(v);
    assert(t.drop_last() =~= Seq::<(Variable, nat)>::empty());
    assert(t.last() == (v, 1nat));
    assert(terms_value(t.drop_last(), a, p) == 0);
    assert(1nat * a(v) == a(v)) by (nonlinear_arith);
    lemma_mod_bound(a(v) as int, p as int);
    lemma_small_mod(a(v) % p, p);
}

/// A difference is zero exactly when its two sides have the same value.
pub proof fn lemma_difference_zero(s: Terms, t: Terms, a: Assignment, p: nat)
    requires
        p > 1,
    ensures
        terms_value(terms_difference(s, t, p), a, p) == 0 <==> terms_value(s, a, p)
            == terms_value(t, a, p),
{
    let vs = terms_value(s, a, p);
    let vt = terms_value(t, a, p);
    let k = (p - 1) as nat;
    lemma_value_below(s, a, p);
    lemma_value_below(t, a, p);
    lemma_sum_value(s, terms_scaled(t, k, p), a, p);
    lemma_scaled_value(t, k, a, p);
    let d = terms_value(terms_difference(s, t, p), a, p);
    assert(d == (vs + (vt * k) % p) % p);
    lemma_add_mod_noop_right(vs as int, (vt * k) as int, p as int);
    assert(vs + vt * k == p * vt + (vs - vt)) by (nonlinear_arith)
        requires
            k == p - 1,
    ;
    lemma_mod_multiples_vanish(vt as int, vs - vt, p as int);
    assert(d == (vs - vt) % (p as int));
    if vs >= vt {
        lemma_small_mod((vs - vt) as nat, p);
    } else {
        lemma_mod_add_multiples_vanish(vs - vt, p as int);
        lemma_small_mod((p + vs - vt) as nat, p);
    }
}

/// The variable is a wire of a gate from `first` on.
pub open spec fn is_wire_from(v: Variable, first: nat) -> bool {
    match v {
        Variable::MultiplierLeft(i) => i >= first,
        Variable::MultiplierRight(i) => i >= first,
        Variable::MultiplierOutput(i) => i >= first,
        _ => false,
    }
}

/// No term of the linear combination is a wire of a gate from `first` on.
pub open spec fn avoids_gates_from(t: Terms, first: nat) -> bool {
    forall|i: int| 0 <= i < t.len() ==> !is_wire_from((#[trigger] t[i]).0, first)
}

/// The two assignments give the same value to every variable that is not a
/// wire of a gate from `first` on.
pub open spec fn agree_before_gate(a: Assignment, b: Assignment, first: nat) -> bool {
    forall|v: Variable| !is_wire_from(v, first) ==> #[trigger] a(v) == b(v)
}

/// A linear combination has the same value under two assignments that
/// differ only on wires that it does not mention.
pub proof fn lemma_value_agrees(t: Terms, a: Assignment, b: Assignment, first: nat, p: nat)
    requires
        avoids_gates_from(t, first),
        agree_before_gate(a, b, first),
    ensures
        terms_value(t, a, p) == terms_value(t, b, p),
    decreases t.len(),
{
    if t.len() > 0 {
        let t0 = t.drop_last();
        assert forall|i: int| 0 <= i < t0.len() implies !is_wire_from(
            (#[trigger] t0[i]).0,
            first,
        ) by {
            assert(t0[i] == t[i]);
        }
        lemma_value_agrees(t0, a, b, first, p);
        assert(!is_wire_from(t[t.len() - 1].0, first));
        assert(a(t.last().0) == b(t.last().0));
    }
}

/// What avoids the gates from `first` on avoids those from a later gate on.
pub proof fn lemma_avoids_later(t: Terms, first: nat, later: nat)
    requires
        avoids_gates_from(t, first),
        first <= later,
    ensures
        avoids_gates_from(t, later),
{
    assert forall|i: int| 0 <= i < t.len() implies !is_wire_from((#[trigger] t[i]).0, later) by {
        assert(!is_wire_from(t[i].0, first));
    }
}

/// Scaling keeps the variables of a linear combination.
pub proof fn lemma_scaled_variables(t: Terms, k: nat, p: nat)
    requires
        p > 0,
    ensures
        terms_scaled(t, k, p).len() == t.len(),
        forall|i: int| 0 <= i < t.len() ==> (#[trigger] terms_scaled(t, k, p)[i]).0 == t[i].0,
{
}

/// A difference mentions only the variables of its two sides.
pub proof fn lemma_difference_avoids(s: Terms, t: Terms, first: nat, p: nat)
    requires
        p > 0,
        avoids_gates_from(s, first),
        avoids_gates_from(t, first),
    ensures
        avoids_gates_from(terms_difference(s, t, p), first),
{
    let d = terms_difference(s, t, p);
    let k = (p - 1) as nat;
    let scaled = terms_scaled(t, k, p);
    lemma_scaled_variables(t, k, p);
    assert(d == s + scaled);
    assert forall|i: int| 0 <= i < d.len() implies !is_wire_from((#[trigger] d[i]).0, first) by {
        if i < s.len() {
            assert(d[i] == s[i]);
        } else {
            let j = i - s.len();
            assert(d[i] == scaled[j]);
            assert(scaled[j].0 == t[j].0);
            assert(!is_wire_from(t[j].0, first));
        }
    }
}

/// What a prover's gate does for the constraints that tie its wires: where
/// the linear combinations that feed gate `n` mention no wire from that gate
/// on, both ties hold under the extended assignment, the inputs keep their
/// values and the output wire holds their product.
pub proof fn lemma_gate_ties(
    before: Assignment,
    after: Assignment,
    n: usize,
    left: Terms,
    right: Terms,
    p: nat,
)
    requires
        p > 1,
        extends_by_gate(before, after, n, left, right, p),
        avoids_gates_from(left, n as nat),
        avoids_gates_from(right, n as nat),
    ensures
        agree_before_gate(before, after, n as nat),
        constraint_holds(gate_input(left, Variable::MultiplierLeft(n), p), after, p),
        constraint_holds(gate_input(right, Variable::MultiplierRight(n), p), after, p),
        terms_value(left, after, p) == terms_value(left, before, p),
        terms_value(right, after, p) == terms_value(right, before, p),
        after(Variable::MultiplierOutput(n)) == field_product(
            terms_value(left, after, p),
            terms_value(right, after, p),
            p,
        ),
{
    assert forall|v: Variable| !is_wire_from(v, n as nat) implies #[trigger] before(v) == after(
        v,
    ) by {
        assert(!is_wire_of(v, n));
        assert(after(v) == before(v));
    }
    lemma_value_agrees(left, before, after, n as nat, p);
    lemma_value_agrees(right, before, after, n as nat, p);
    lemma_value_below(left, before, p);
    lemma_value_below(right, before, p);
    lemma_small_mod(terms_value(left, before, p), p);
    lemma_small_mod(terms_value(right, before, p), p);
    lemma_variable_value(Variable::MultiplierLeft(n), after, p);
    lemma_variable_value(Variable::MultiplierRight(n), after, p);
    lemma_difference_zero(left, terms_of_variable(Variable::MultiplierLeft(n)), after, p);
    lemma_difference_zero(right, terms_of_variable(Variable::MultiplierRight(n)), after, p);
}

/// A list of constraints put together from two lists holds exactly when
/// both lists hold.
pub proof fn lemma_constraints_hold_of_both(
    first: Seq<Terms>,
    second: Seq<Terms>,
    a: Assignment,
    p: nat,
)
    ensures
        constraints_hold(first + second, a, p) <==> constraints_hold(first, a, p)
            && constraints_hold(second, a, p),
{
    let both = first + second;
    if constraints_hold(both, a, p) {
        assert forall|i: int| 0 <= i < first.len() implies constraint_holds(
            #[trigger] first[i],
            a,
            p,
        ) by {
            assert(both[i] == first[i]);
        }
        assert forall|i: int| 0 <= i < second.len() implies constraint_holds(
            #[trigger] second[i],
            a,
            p,
        ) by {
            assert(both[first.len() + i] == second[i]);
        }
    }
    if constraints_hold(first, a, p) && constraints_hold(second, a, p) {
        assert forall|i: int| 0 <= i < both.len() implies constraint_holds(
            #[trigger] both[i],
            a,
            p,
        ) by {
            if i < first.len() {
                assert(both[i] == first[i]);
            } else {
                assert(both[i] == second[i - first.len()]);
            }
        }
    }
}

} // verus!
