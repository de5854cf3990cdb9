//! The laws of a group of points, and what follows from them for the
//! commitments of a coin. The sums and multiples of points are computed
//! outside this library; here their laws are hypotheses, stated of a set of
//! points such as the points of a curve of prime order.

use crate::algebra::field_sum;
use crate::coin::padded;
use crate::curve::{point_product, point_sum, PointView};
use crate::field::{scalar_modulus, CurveId};
use vstd::arithmetic::div_mod::lemma_small_mod;
use vstd::prelude::*;

verus! {

/// A set of points.
pub type PointSet = spec_fn(PointView) -> bool;

/// The set is closed under sums and multiples, and on it sums commute and
/// associate, a multiple by zero adds nothing, a multiple by one is the point
/// and a multiple by a sum in the scalar field is the sum of the multiples.
#[verifier::opaque]
pub open spec fn is_group(g: PointSet, curve: CurveId) -> bool {
    let p = scalar_modulus(curve);
    &&& forall|a: PointView, b: PointView|
        g(a) && g(b) ==> g(#[trigger] point_sum(a, b)) && point_sum(a, b) == point_sum(b, a)
    &&& forall|a: PointView, b: PointView, c: PointView|
        g(a) && g(b) && g(c) ==> #[trigger] point_sum(point_sum(a, b), c) == point_sum(
            a,
            point_sum(b, c),
        )
    &&& forall|a: PointView, k: nat| g(a) ==> g(#[trigger] point_product(a, k))
    &&& forall|a: PointView, b: PointView|
        g(a) && g(b) ==> #[trigger] point_sum(a, point_product(b, 0)) == a
    &&& forall|a: PointView| g(a) ==> #[trigger] point_product(a, 1) == a
    &&& forall|a: PointView, j: nat, k: nat|
        g(a) ==> #[trigger] point_product(a, field_sum(j, k, p)) == point_sum(
            point_product(a, j),
            point_product(a, k),
        )
}

/// A group holds the sums of its points.
pub proof fn lemma_sum_in(g: PointSet, curve: CurveId, a: PointView, b: PointView)
    requires
        is_group(g, curve),
        g(a),
        g(b),
    ensures
        g(point_sum(a, b)),
{
    reveal(is_group);
}

/// A group holds the multiples of its points.
pub proof fn lemma_multiple_in(g: PointSet, curve: CurveId, a: PointView, k: nat)
    requires
        is_group(g, curve),
        g(a),
    ensures
        g(point_product(a, k)),
{
    reveal(is_group);
}

/// In a group the multiple by a sum of scalars is the sum of the multiples.
pub proof fn lemma_distribute(g: PointSet, curve: CurveId, a: PointView, j: nat, k: nat)
    requires
        is_group(g, curve),
        g(a),
    ensures
        point_product(a, field_sum(j, k, scalar_modulus(curve))) == point_sum(
            point_product(a, j),
            point_product(a, k),
        ),
        g(point_product(a, j)),
        g(point_product(a, k)),
        g(point_sum(point_product(a, j), point_product(a, k))),
{
    reveal(is_group);
}

/// In a group the last two of three summands may change places.
pub proof fn lemma_swap_last(g: PointSet, curve: CurveId, a: PointView, b: PointView, c: PointView)
    requires
        is_group(g, curve),
        g(a),
        g(b),
        g(c),
    ensures
        point_sum(point_sum(a, b), c) == point_sum(point_sum(a, c), b),
        g(point_sum(point_sum(a, b), c)),
        g(point_sum(a, b)),
        g(point_sum(a, c)),
{
    reveal(is_group);
    assert(point_sum(point_sum(a, b), c) == point_sum(a, point_sum(b, c)));
    assert(point_sum(b, c) == point_sum(c, b));
    assert(point_sum(point_sum(a, c), b) == point_sum(a, point_sum(c, b)));
    assert(g(point_sum(a, b)));
}

/// In a group a sum added on the right may be added summand by summand.
pub proof fn lemma_regroup(g: PointSet, curve: CurveId, a: PointView, b: PointView, c: PointView)
    requires
        is_group(g, curve),
        g(a),
        g(b),
        g(c),
    ensures
        point_sum(a, point_sum(b, c)) == point_sum(point_sum(a, b), c),
        g(point_sum(point_sum(a, b), c)),
        g(point_sum(a, b)),
{
    reveal(is_group);
    assert(point_sum(point_sum(a, b), c) == point_sum(a, point_sum(b, c)));
    assert(g(point_sum(a, b)));
}

/// In a group a multiple by zero adds nothing and a multiple by one is the
/// point.
pub proof fn lemma_zero_and_one(g: PointSet, curve: CurveId, a: PointView, b: PointView)
    requires
        is_group(g, curve),
        g(a),
        g(b),
    ensures
        point_sum(a, point_product(b, 0)) == a,
        point_product(b, 1) == b,
{
    reveal(is_group);
}

/// In a group the candidate of the padding search after `k` steps is the
/// point plus `k` times the blinding generator, so the number of steps is
/// the blinding that the padding adds.
pub proof fn lemma_padding_is_a_multiple(
    g: PointSet,
    curve: CurveId,
    c: PointView,
    h: PointView,
    k: nat,
)
    requires
        is_group(g, curve),
        g(c),
        g(h),
        k < scalar_modulus(curve),
    ensures
        padded(c, h, k) == point_sum(c, point_product(h, k)),
        g(padded(c, h, k)),
    decreases k,
{
    let p = scalar_modulus(curve);
    lemma_zero_and_one(g, curve, c, h);
    if k > 0 {
        let j = (k - 1) as nat;
        let q = point_product(h, j);
        lemma_padding_is_a_multiple(g, curve, c, h, j);
        lemma_multiple_in(g, curve, h, j);
        lemma_regroup(g, curve, c, q, h);
        lemma_small_mod(k, p);
        assert(field_sum(j, 1, p) == k);
        lemma_distribute(g, curve, h, j, 1);
        lemma_multiple_in(g, curve, h, k);
        lemma_sum_in(g, curve, c, point_product(h, k));
    }
}

} // verus!
