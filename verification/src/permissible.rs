//! The test of representability that the accumulator usually applies: a
//! universal hash of the second coordinate to one bit.

use crate::coin::Representability;
use crate::curve::{Point, PointView};
use crate::field::{
    is_quadratic_residue, limbs_value, other_curve, scalar_modulus, CurveId, Scalar,
};
use vstd::prelude::*;

verus! {

/// A hash of a field element to one bit: whether `alpha * v + beta` is a
/// square other than zero.
#[derive(Clone, Copy, Debug)]
pub struct UniversalHash {
    pub alpha: Scalar,
    pub beta: Scalar,
}

/// The bit that the hash with parameters `alpha` and `beta` gives to `v` in
/// the field of order `p`.
pub open spec fn hash_bit(alpha: nat, beta: nat, v: nat, p: nat) -> bool {
    is_quadratic_residue((((alpha * v) % p) + beta) % p, p)
}

/// The additive inverse of `v` in the field of order `p`, as the product
/// with `p - 1`.
pub open spec fn negated(v: nat, p: nat) -> nat {
    (((p - 1) as nat) * v) % p
}

impl UniversalHash {
    /// Both parameters are canonical scalars of one field.
    pub open spec fn wf(&self) -> bool {
        self.alpha.wf() && self.beta.wf_in(self.alpha.curve)
    }

    /// The bit of a scalar of the hash's field.
    pub fn bit(&self, v: &Scalar) -> (r: bool)
        requires
            self.wf(),
            v.wf_in(self.alpha.curve),
        ensures
            r == hash_bit(self.alpha@, self.beta@, v@, scalar_modulus(self.alpha.curve)),
    {
        self.alpha.mul(v).add(&self.beta).is_square()
    }
}

/// One universal hash for the points of each curve. A point is representable
/// when the hash gives one to its second coordinate and zero to the additive
/// inverse of that coordinate, so that of a point and its inverse at most
/// one is representable.
#[derive(Clone, Copy, Debug)]
pub struct PermissibilityTest {
    /// Judges the points of the even curve, whose coordinates are scalars of
    /// the odd curve.
    pub even: UniversalHash,
    /// Judges the points of the odd curve.
    pub odd: UniversalHash,
}

impl Representability for PermissibilityTest {
    open spec fn valid(&self) -> bool {
        &&& self.even.wf()
        &&& self.even.alpha.curve == CurveId::Odd
        &&& self.odd.wf()
        &&& self.odd.alpha.curve == CurveId::Even
    }

    open spec fn representable(&self, p: PointView) -> bool {
        let hash = match p.curve {
            CurveId::Even => self.even,
            CurveId::Odd => self.odd,
        };
        let m = scalar_modulus(other_curve(p.curve));
        let y = limbs_value(p.y);
        hash_bit(hash.alpha@, hash.beta@, y, m) && !hash_bit(
            hash.alpha@,
            hash.beta@,
            negated(y, m),
            m,
        )
    }

    fn is_representable(&self, p: &Point) -> (r: bool) {
        let hash = match p.curve {
            CurveId::Even => self.even,
            CurveId::Odd => self.odd,
        };
        let y = p.y_as_scalar();
        let minus_y = Scalar::minus_one(y.curve).mul(&y);
        hash.bit(&y) && !hash.bit(&minus_y)
    }
}

} // verus!
