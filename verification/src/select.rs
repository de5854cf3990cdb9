//! The membership gadget: a committed value is one of a committed list.

use crate::algebra::{
    agree_before_gate, avoids_gates_from, field_product, is_field_order, is_wire_from,
    lemma_avoids_later, lemma_constraints_hold_of_both, lemma_difference_avoids,
    lemma_difference_zero, lemma_gate_ties, lemma_value_agrees, lemma_value_below,
    lemma_variable_value,
};
use crate::field::{lemma_modulus_large, scalar_modulus};
use crate::r1cs::{
    constraint_holds, constraints_hold, extends_by_gate, gate_input, gates_hold, is_wire_of,
    terms_difference, terms_of_variable, terms_value, Assignment, ConstraintSystem,
    LinearCombination, Terms, Variable,
};
use vstd::arithmetic::div_mod::{lemma_mod_twice, lemma_mul_mod_noop_general, lemma_small_mod};
use vstd::prelude::*;

verus! {

/// Why a gadget refused its input.
#[derive(Clone, Copy, Debug, PartialEq, Eq, Structural)]
pub enum GadgetError {
    /// The list of candidates is empty.
    PreconditionViolation,
}

/// The views of a list of linear combinations.
pub open spec fn views_of(xs: Seq<LinearCombination>) -> Seq<Terms> {
    Seq::new(xs.len(), |i: int| xs[i]@)
}

/// The running product after `k` gates of a selection chain whose first gate
/// is `first`: before any gate the first difference, and after that the
/// output wire of the last gate.
pub open spec fn select_product(x: Terms, xs: Seq<Terms>, first: nat, k: nat, p: nat) -> Terms {
    if k == 0 {
        terms_difference(xs[0], x, p)
    } else {
        terms_of_variable(Variable::MultiplierOutput((first + k - 1) as usize))
    }
}

/// The constraints that the first `k` gates of a selection chain record:
/// gate `first + j` multiplies the running product by `xs[j + 1] - x`.
pub open spec fn select_chain(x: Terms, xs: Seq<Terms>, first: nat, k: nat, p: nat) -> Seq<Terms>
    decreases k,
{
    if k == 0 {
        Seq::empty()
    } else {
        let j = (k - 1) as nat;
        select_chain(x, xs, first, j, p).push(
            gate_input(
                select_product(x, xs, first, j, p),
                Variable::MultiplierLeft((first + j) as usize),
                p,
            ),
        ).push(
            gate_input(
                terms_difference(xs[k as int], x, p),
                Variable::MultiplierRight((first + j) as usize),
                p,
            ),
        )
    }
}

/// All the constraints of a selection over a non-empty list: the chain of
/// `xs.len() - 1` gates, and then that the last product is zero.
pub open spec fn select_constraints(x: Terms, xs: Seq<Terms>, first: nat, p: nat) -> Seq<Terms> {
    let k = (xs.len() - 1) as nat;
    select_chain(x, xs, first, k, p).push(select_product(x, xs, first, k, p))
}

/// Neither `x` nor an entry of `xs` mentions a wire of a gate from `first`
/// on. Combinations of committed variables are such.
pub open spec fn inputs_avoid(x: Terms, xs: Seq<Terms>, first: nat) -> bool {
    avoids_gates_from(x, first) && forall|i: int|
        0 <= i < xs.len() ==> avoids_gates_from(#[trigger] xs[i], first)
}

/// What a selection leaves of a witness `before`: the witness `after`
/// differs from it only on the wires of the new gates, respects those gates
/// and satisfies the constraints that tie their wires.
pub open spec fn select_extends(
    before: Assignment,
    after: Assignment,
    x: Terms,
    xs: Seq<Terms>,
    first: nat,
    k: nat,
    p: nat,
) -> bool {
    &&& agree_before_gate(before, after, first)
    &&& gates_hold(after, first, k, p)
    &&& constraints_hold(select_chain(x, xs, first, k, p), after, p)
}

/// `x` has the value of one of the entries `xs[0]` to `xs[upto]`.
pub open spec fn is_member(x: Terms, xs: Seq<Terms>, upto: nat, a: Assignment, p: nat) -> bool {
    exists|i: int|
        0 <= i <= upto && i < xs.len() && terms_value(#[trigger] xs[i], a, p) == terms_value(
            x,
            a,
            p,
        )
}

/// What a selection over a non-empty list does for a prover. The witness
/// `after` is the witness `before` with the wires of the new gates set, and
/// it respects those gates and the constraints that tie their wires. It
/// satisfies all the constraints recorded so far if it satisfied those
/// recorded before and `x` has the value of one of `xs`; and, in a field,
/// only if so.
pub open spec fn select_law(
    before: Assignment,
    after: Assignment,
    constraints_before: Seq<Terms>,
    constraints_after: Seq<Terms>,
    x: Terms,
    xs: Seq<Terms>,
    first: nat,
    p: nat,
) -> bool {
    let last = (xs.len() - 1) as nat;
    &&& select_extends(before, after, x, xs, first, last, p)
    &&& constraints_hold(constraints_before, after, p) && is_member(x, xs, last, after, p)
        ==> constraints_hold(constraints_after, after, p)
    &&& constraints_hold(constraints_after, after, p) ==> constraints_hold(
        constraints_before,
        after,
        p,
    )
    &&& is_field_order(p) && constraints_hold(constraints_after, after, p) ==> is_member(
        x,
        xs,
        last,
        after,
        p,
    )
}

/// The first `k` gates of a selection chain over inputs that avoid the
/// gates from `first` on mention no wire of a gate from `first + k` on.
pub proof fn lemma_chain_avoids(x: Terms, xs: Seq<Terms>, first: nat, k: nat, p: nat)
    requires
        p > 0,
        inputs_avoid(x, xs, first),
        k < xs.len(),
        first + k <= usize::MAX,
    ensures
        forall|i: int|
            0 <= i < select_chain(x, xs, first, k, p).len() ==> avoids_gates_from(
                #[trigger] select_chain(x, xs, first, k, p)[i],
                first + k,
            ),
        avoids_gates_from(select_product(x, xs, first, k, p), first + k),
    decreases k,
{
    if k == 0 {
        lemma_difference_avoids(xs[0], x, first, p);
    } else {
        let j = (k - 1) as nat;
        let m = first + k;
        let chain = select_chain(x, xs, first, k, p);
        let shorter = select_chain(x, xs, first, j, p);
        let product = select_product(x, xs, first, j, p);
        let factor = terms_difference(xs[k as int], x, p);
        let left = terms_of_variable(Variable::MultiplierLeft((first + j) as usize));
        let right = terms_of_variable(Variable::MultiplierRight((first + j) as usize));
        lemma_chain_avoids(x, xs, first, j, p);
        lemma_avoids_later(product, first + j, m);
        lemma_difference_avoids(xs[k as int], x, first, p);
        lemma_avoids_later(factor, first, m);
        assert(avoids_gates_from(left, m));
        assert(avoids_gates_from(right, m));
        lemma_difference_avoids(product, left, m, p);
        lemma_difference_avoids(factor, right, m, p);
        assert forall|i: int| 0 <= i < chain.len() implies avoids_gates_from(
            #[trigger] chain[i],
            m,
        ) by {
            if i < shorter.len() {
                assert(chain[i] == shorter[i]);
                lemma_avoids_later(shorter[i], first + j, m);
            }
        }
        assert(avoids_gates_from(select_product(x, xs, first, k, p), m));
    }
}

/// One more gate of a selection chain: a witness that extends `before` by
/// gate `first + j`, fed with the running product and the next difference,
/// is what a selection of `j + 1` gates leaves of the first witness.
pub proof fn lemma_select_step(
    start: Assignment,
    before: Assignment,
    after: Assignment,
    x: Terms,
    xs: Seq<Terms>,
    first: nat,
    j: nat,
    p: nat,
)
    requires
        p > 1,
        inputs_avoid(x, xs, first),
        j + 1 < xs.len(),
        first + j + 1 <= usize::MAX,
        select_extends(start, before, x, xs, first, j, p),
        extends_by_gate(
            before,
            after,
            (first + j) as usize,
            select_product(x, xs, first, j, p),
            terms_difference(xs[j as int + 1], x, p),
            p,
        ),
    ensures
        select_extends(start, after, x, xs, first, j + 1, p),
{
    let n = (first + j) as usize;
    let k = j + 1;
    let product = select_product(x, xs, first, j, p);
    let factor = terms_difference(xs[k as int], x, p);
    let left = Variable::MultiplierLeft(n);
    let right = Variable::MultiplierRight(n);
    let out = Variable::MultiplierOutput(n);
    let chain = select_chain(x, xs, first, k, p);
    let shorter = select_chain(x, xs, first, j, p);
    lemma_chain_avoids(x, xs, first, j, p);
    lemma_difference_avoids(xs[k as int], x, first, p);
    lemma_avoids_later(factor, first, n as nat);
    lemma_gate_ties(before, after, n, product, factor, p);
    assert forall|v: Variable| !is_wire_from(v, first) implies #[trigger] start(v) == after(v) by {
        assert(!is_wire_of(v, n));
        assert(after(v) == before(v));
        assert(start(v) == before(v));
    }
    assert forall|i: int| first <= i < first + k implies #[trigger] after(
        Variable::MultiplierOutput(i as usize),
    ) % p == (after(Variable::MultiplierLeft(i as usize)) * after(
        Variable::MultiplierRight(i as usize),
    )) % p by {
        if i < first + j {
            let g = i as usize;
            assert(!is_wire_of(Variable::MultiplierOutput(g), n));
            assert(!is_wire_of(Variable::MultiplierLeft(g), n));
            assert(!is_wire_of(Variable::MultiplierRight(g), n));
            assert(after(Variable::MultiplierOutput(g)) == before(Variable::MultiplierOutput(g)));
            assert(after(Variable::MultiplierLeft(g)) == before(Variable::MultiplierLeft(g)));
            assert(after(Variable::MultiplierRight(g)) == before(Variable::MultiplierRight(g)));
            assert(before(Variable::MultiplierOutput(i as usize)) % p == (before(
                Variable::MultiplierLeft(i as usize),
            ) * before(Variable::MultiplierRight(i as usize))) % p);
        } else {
            assert(i as usize == n);
            lemma_mod_twice((after(left) * after(right)) as int, p as int);
        }
    }
    assert forall|i: int| 0 <= i < chain.len() implies constraint_holds(
        #[trigger] chain[i],
        after,
        p,
    ) by {
        if i < shorter.len() {
            assert(chain[i] == shorter[i]);
            assert(constraint_holds(shorter[i], before, p));
            lemma_value_agrees(shorter[i], before, after, n as nat, p);
        }
    }
}

/// Constrains `x` to be one of `xs`: the product of the differences
/// `xs[i] - x` is built with one gate for each entry after the first and is
/// constrained to be zero. An empty list is refused and nothing is recorded.
///
/// Where the system has a witness and the inputs mention none of the new
/// gates, the witness afterwards satisfies the new constraints exactly when
/// `x` has the value of one of the entries.
pub fn select<CS: ConstraintSystem>(
    cs: &mut CS,
    x: LinearCombination,
    xs: Vec<LinearCombination>,
) -> (r: Result<(), GadgetError>)
    requires
        old(cs).wf(),
        x.wf_in(old(cs).curve()),
        forall|i: int| 0 <= i < xs@.len() ==> (#[trigger] xs@[i]).wf_in(old(cs).curve()),
        old(cs).gates() + xs@.len() - 1 <= usize::MAX,
    ensures
        final(cs).wf(),
        final(cs).curve() == old(cs).curve(),
        r is Err <==> xs@.len() == 0,
        r is Err ==> r == Err::<(), GadgetError>(GadgetError::PreconditionViolation),
        r is Err ==> final(cs).gates() == old(cs).gates(),
        r is Err ==> final(cs).constraints() == old(cs).constraints(),
        r is Err ==> final(cs).witness() == old(cs).witness(),
        r is Ok ==> final(cs).gates() == old(cs).gates() + xs@.len() - 1,
        r is Ok ==> final(cs).constraints() == old(cs).constraints() + select_constraints(
            x@,
            views_of(xs@),
            old(cs).gates(),
            scalar_modulus(old(cs).curve()),
        ),
        old(cs).witness() is None ==> final(cs).witness() is None,
        r is Ok && old(cs).witness() is Some && inputs_avoid(x@, views_of(xs@), old(cs).gates())
            ==> final(cs).witness() is Some && select_law(
            old(cs).witness()->Some_0,
            final(cs).witness()->Some_0,
            old(cs).constraints(),
            final(cs).constraints(),
            x@,
            views_of(xs@),
            old(cs).gates(),
            scalar_modulus(old(cs).curve()),
        ),
{
    if xs.len() == 0 {
        return Err(GadgetError::PreconditionViolation);
    }
    let ghost p = scalar_modulus(cs.curve());
    let ghost first = cs.gates();
    let ghost views = views_of(xs@);
    let ghost curve = cs.curve();
    let ghost scoped = old(cs).witness() is Some && inputs_avoid(x@, views, first);
    let ghost start: Assignment = match old(cs).witness() {
        Some(w) => w,
        None => |v: Variable| 0nat,
    };
    let curve_of = cs.curve_id();
    let mut product = xs[0].minus(&x, curve_of);
    let mut k: usize = 1;
    proof {
        lemma_modulus_large(curve);
        assert(cs.constraints() =~= old(cs).constraints() + select_chain(x@, views, first, 0, p));
        assert(views[0] == xs@[0]@);
    }
    while k < xs.len()
        invariant
            1 <= k <= xs@.len(),
            cs.wf(),
            cs.curve() == curve,
            curve_of == curve,
            p == scalar_modulus(curve),
            p > 1,
            views == views_of(xs@),
            first == old(cs).gates(),
            first + xs@.len() - 1 <= usize::MAX,
            x.wf_in(curve),
            forall|i: int| 0 <= i < xs@.len() ==> (#[trigger] xs@[i]).wf_in(curve),
            product.wf_in(curve),
            cs.gates() == first + k - 1,
            product@ == select_product(x@, views, first, (k - 1) as nat, p),
            cs.constraints() == old(cs).constraints() + select_chain(
                x@,
                views,
                first,
                (k - 1) as nat,
                p,
            ),
            old(cs).witness() is None ==> cs.witness() is None,
            scoped == (old(cs).witness() is Some && inputs_avoid(x@, views, first)),
            scoped ==> old(cs).witness() == Some(start),
            scoped ==> (cs.witness() matches Some(now) && select_extends(
                start,
                now,
                x@,
                views,
                first,
                (k - 1) as nat,
                p,
            )),
        decreases xs@.len() - k,
    {
        assert(xs@[k as int].wf_in(curve));
        let factor = xs[k].minus(&x, curve_of);
        let ghost before = cs.witness();
        let (_, _, out) = cs.multiply(&product, &factor);
        proof {
            assert(views[k as int] == xs@[k as int]@);
            let chain = select_chain(x@, views, first, k as nat, p);
            assert(cs.constraints() =~= old(cs).constraints() + chain);
            if scoped {
                lemma_select_step(
                    start,
                    before->Some_0,
                    cs.witness()->Some_0,
                    x@,
                    views,
                    first,
                    (k - 1) as nat,
                    p,
                );
            }
        }
        product = LinearCombination::from_variable(curve_of, out);
        k += 1;
    }
    cs.constrain(product);
    proof {
        let all = select_constraints(x@, views, first, p);
        assert(cs.constraints() =~= old(cs).constraints() + all);
        if scoped {
            let after = cs.witness()->Some_0;
            lemma_select_membership(x@, views, first, after, p);
            lemma_constraints_hold_of_both(old(cs).constraints(), all, after, p);
            if is_member(x@, views, (xs@.len() - 1) as nat, after, p) {
                let i = choose|i: int|
                    0 <= i <= xs@.len() - 1 && i < views.len() && terms_value(
                        #[trigger] views[i],
                        after,
                        p,
                    ) == terms_value(x@, after, p);
                assert(0 <= i < views.len());
            }
            if exists|i: int|
                0 <= i < views.len() && terms_value(#[trigger] views[i], after, p) == terms_value(
                    x@,
                    after,
                    p,
                ) {
                let i = choose|i: int|
                    0 <= i < views.len() && terms_value(#[trigger] views[i], after, p)
                        == terms_value(x@, after, p);
                assert(0 <= i <= xs@.len() - 1);
            }
        }
    }
    Ok(())
}

/// Under an assignment that respects the first `k` gates of a selection
/// chain and the constraints that tie their wires, the running product after
/// `k` gates is zero where `x` has the value of one of `xs[0]` to `xs[k]`,
/// and, in a field, only there.
pub proof fn lemma_select_product_zero(
    x: Terms,
    xs: Seq<Terms>,
    first: nat,
    k: nat,
    a: Assignment,
    p: nat,
)
    requires
        p > 1,
        k < xs.len(),
        gates_hold(a, first, k, p),
        constraints_hold(select_chain(x, xs, first, k, p), a, p),
    ensures
        is_member(x, xs, k, a, p) ==> terms_value(select_product(x, xs, first, k, p), a, p) == 0,
        is_field_order(p) && terms_value(select_product(x, xs, first, k, p), a, p) == 0
            ==> is_member(x, xs, k, a, p),
    decreases k,
{
    let vx = terms_value(x, a, p);
    if k == 0 {
        lemma_difference_zero(xs[0], x, a, p);
        if terms_value(xs[0], a, p) == vx {
            assert(is_member(x, xs, 0, a, p));
        }
    } else {
        let j = (k - 1) as nat;
        let chain = select_chain(x, xs, first, k, p);
        let shorter = select_chain(x, xs, first, j, p);
        let left = Variable::MultiplierLeft((first + j) as usize);
        let right = Variable::MultiplierRight((first + j) as usize);
        let out = Variable::MultiplierOutput((first + j) as usize);
        let product = select_product(x, xs, first, j, p);
        let factor = terms_difference(xs[k as int], x, p);
        let tie_left = gate_input(product, left, p);
        let tie_right = gate_input(factor, right, p);
        assert(chain == shorter.push(tie_left).push(tie_right));
        assert forall|i: int| 0 <= i < shorter.len() implies constraint_holds(
            #[trigger] shorter[i],
            a,
            p,
        ) by {
            assert(chain[i] == shorter[i]);
        }
        assert(chain[shorter.len() as int] == tie_left);
        assert(chain[shorter.len() as int + 1] == tie_right);
        assert(constraint_holds(chain[shorter.len() as int], a, p));
        assert(constraint_holds(chain[shorter.len() as int + 1], a, p));
        lemma_select_product_zero(x, xs, first, j, a, p);
        let pj = terms_value(product, a, p);
        let dk = terms_value(factor, a, p);
        lemma_difference_zero(product, terms_of_variable(left), a, p);
        lemma_difference_zero(factor, terms_of_variable(right), a, p);
        lemma_variable_value(left, a, p);
        lemma_variable_value(right, a, p);
        lemma_variable_value(out, a, p);
        assert(pj == a(left) % p);
        assert(dk == a(right) % p);
        let gate = (first + j) as int;
        assert(a(Variable::MultiplierOutput(gate as usize)) % p == (a(
            Variable::MultiplierLeft(gate as usize),
        ) * a(Variable::MultiplierRight(gate as usize))) % p);
        lemma_mul_mod_noop_general(a(left) as int, a(right) as int, p as int);
        let pk = terms_value(select_product(x, xs, first, k, p), a, p);
        assert(pk == field_product(pj, dk, p));
        lemma_value_below(product, a, p);
        lemma_value_below(factor, a, p);
        lemma_difference_zero(xs[k as int], x, a, p);
        if pj == 0 || dk == 0 {
            assert(pj * dk == 0) by (nonlinear_arith)
                requires
                    pj == 0 || dk == 0,
            ;
            lemma_small_mod(0, p);
        }
        assert(pj == 0 || dk == 0 ==> pk == 0);
        assert(is_field_order(p) && pk == 0 ==> pj == 0 || dk == 0);
        if is_member(x, xs, k, a, p) {
            let i = choose|i: int|
                0 <= i <= k && i < xs.len() && terms_value(#[trigger] xs[i], a, p) == vx;
            if i < k {
                assert(is_member(x, xs, j, a, p));
            }
        }
        if is_member(x, xs, j, a, p) {
            let i = choose|i: int|
                0 <= i <= j && i < xs.len() && terms_value(#[trigger] xs[i], a, p) == vx;
            assert(0 <= i <= k);
        }
        if terms_value(xs[k as int], a, p) == vx {
            assert(is_member(x, xs, k, a, p));
        }
    }
}

/// A selection over one candidate is an equality: it records the one
/// constraint `y - x`, which costs no gate and holds exactly when `x` and `y`
/// have the same value, in a field or not.
pub proof fn lemma_select_of_one(x: Terms, y: Terms, first: nat, a: Assignment, p: nat)
    requires
        p > 1,
    ensures
        select_constraints(x, seq![y], first, p) == seq![terms_difference(y, x, p)],
        constraints_hold(select_constraints(x, seq![y], first, p), a, p) <==> terms_value(y, a, p)
            == terms_value(x, a, p),
{
    let xs = seq![y];
    let all = select_constraints(x, xs, first, p);
    assert(xs[0] == y);
    assert(select_chain(x, xs, first, 0, p) =~= Seq::<Terms>::empty());
    assert(all =~= seq![terms_difference(y, x, p)]);
    lemma_difference_zero(y, x, a, p);
    if constraints_hold(all, a, p) {
        assert(constraint_holds(all[0], a, p));
    }
}

/// Completeness and soundness of the selection. Under an assignment that
/// respects the gates of the chain and the constraints that tie their wires,
/// all the constraints of the selection hold where `x` has the value of one
/// of the entries of `xs`, and, in a field, only there.
pub proof fn lemma_select_membership(
    x: Terms,
    xs: Seq<Terms>,
    first: nat,
    a: Assignment,
    p: nat,
)
    requires
        p > 1,
        xs.len() >= 1,
        gates_hold(a, first, (xs.len() - 1) as nat, p),
        constraints_hold(select_chain(x, xs, first, (xs.len() - 1) as nat, p), a, p),
    ensures
        (exists|i: int|
            0 <= i < xs.len() && terms_value(#[trigger] xs[i], a, p) == terms_value(x, a, p))
            ==> constraints_hold(select_constraints(x, xs, first, p), a, p),
        is_field_order(p) && constraints_hold(select_constraints(x, xs, first, p), a, p)
            ==> exists|i: int|
            0 <= i < xs.len() && terms_value(#[trigger] xs[i], a, p) == terms_value(x, a, p),
{
    let k = (xs.len() - 1) as nat;
    let chain = select_chain(x, xs, first, k, p);
    let last = select_product(x, xs, first, k, p);
    let all = select_constraints(x, xs, first, p);
    lemma_select_product_zero(x, xs, first, k, a, p);
    assert(all == chain.push(last));
    if constraints_hold(all, a, p) {
        assert(all[chain.len() as int] == last);
        assert(constraint_holds(all[chain.len() as int], a, p));
    }
    if constraint_holds(last, a, p) {
        assert forall|i: int| 0 <= i < all.len() implies constraint_holds(
            #[trigger] all[i],
            a,
            p,
        ) by {
            if i < chain.len() {
                assert(all[i] == chain[i]);
            }
        }
    }
    if is_member(x, xs, k, a, p) {
        let i = choose|i: int|
            0 <= i <= k && i < xs.len() && terms_value(#[trigger] xs[i], a, p) == terms_value(
                x,
                a,
                p,
            );
        assert(0 <= i < xs.len());
    }
    if exists|i: int|
        0 <= i < xs.len() && terms_value(#[trigger] xs[i], a, p) == terms_value(x, a, p) {
        let i = choose|i: int|
            0 <= i < xs.len() && terms_value(#[trigger] xs[i], a, p) == terms_value(x, a, p);
        assert(0 <= i <= k);
        assert(is_member(x, xs, k, a, p));
    }
}

} // verus!
