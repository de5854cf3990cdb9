//! Scalars of the two prime fields of the curve cycle.
//!
//! The even curve is Pallas and the odd curve is Vesta. The scalar field of
//! each curve is the base field of the other, so a coordinate of a point on
//! one curve is a scalar of the other.

use ark_ff::{BigInteger256, Field, PrimeField, SquareRootField};
use ark_std::UniformRand;
use rand::rngs::StdRng;
use vstd::prelude::*;

verus! {

/// One of the two curves of the cycle.
#[derive(Clone, Copy, Debug, PartialEq, Eq, Structural)]
pub enum CurveId {
    Even,
    Odd,
}

/// The generator `rand::rngs::StdRng`. It is carried through to the calls
/// that draw scalars and nothing is known of its state.
#[verifier::external_type_specification]
#[verifier::external_body]
pub struct ExStdRng(StdRng);

/// The radix of a limb, 2^64.
pub open spec fn limb_radix() -> nat {
    0x1_0000_0000_0000_0000
}

/// The number that four little-endian 64-bit limbs stand for.
pub open spec fn limbs_value(l: Seq<u64>) -> nat
    recommends
        l.len() == 4,
{
    (l[0] as nat) + (l[1] as nat) * limb_radix() + (l[2] as nat) * (limb_radix() * limb_radix())
        + (l[3] as nat) * (limb_radix() * limb_radix() * limb_radix())
}

/// The number that a little-endian byte string stands for.
pub open spec fn le_bytes_value(b: Seq<u8>) -> nat
    decreases b.len(),
{
    if b.len() == 0 {
        0
    } else {
        (b[0] as nat) + 256 * le_bytes_value(b.subrange(1, b.len() as int))
    }
}

/// Order of the scalar field of Pallas, which is the base field of Vesta.
#[verifier::opaque]
pub open spec fn even_modulus() -> nat {
    limbs_value(seq![0x8c46eb2100000001u64, 0x224698fc0994a8ddu64, 0u64, 0x4000000000000000u64])
}

/// Order of the scalar field of Vesta, which is the base field of Pallas.
#[verifier::opaque]
pub open spec fn odd_modulus() -> nat {
    limbs_value(seq![0x992d30ed00000001u64, 0x224698fc094cf91bu64, 0u64, 0x4000000000000000u64])
}

/// Both orders are above 2^64, so every 64-bit integer is a canonical
/// scalar and the fields are not trivial.
pub proof fn lemma_modulus_large(curve: CurveId)
    ensures
        scalar_modulus(curve) > limb_radix(),
{
    reveal(even_modulus);
    reveal(odd_modulus);
    assert(limb_radix() * limb_radix() * limb_radix() > 0) by (nonlinear_arith);
    let l = seq![0x8c46eb2100000001u64, 0x224698fc0994a8ddu64, 0u64, 0x4000000000000000u64];
    assert(l[1] == 0x224698fc0994a8ddu64);
    let m = seq![0x992d30ed00000001u64, 0x224698fc094cf91bu64, 0u64, 0x4000000000000000u64];
    assert(m[1] == 0x224698fc094cf91bu64);
}

/// Order of the scalar field of a curve.
pub open spec fn scalar_modulus(curve: CurveId) -> nat {
    match curve {
        CurveId::Even => even_modulus(),
        CurveId::Odd => odd_modulus(),
    }
}

/// The other curve of the cycle.
pub open spec fn other_curve(curve: CurveId) -> CurveId {
    match curve {
        CurveId::Even => CurveId::Odd,
        CurveId::Odd => CurveId::Even,
    }
}

/// Order of the field that holds the coordinates of a curve's points.
pub open spec fn base_modulus(curve: CurveId) -> nat {
    scalar_modulus(other_curve(curve))
}

/// The multiplicative inverse of `a` in the field of order `p`: the number
/// below `p` whose product with `a` is one in the field. Every `a` that is
/// not zero in the field has exactly one.
pub open spec fn field_inverse(a: nat, p: nat) -> nat {
    choose|i: nat| is_inverse_of(i, a, p)
}

/// `i` is below `p` and its product with `a` is one in the field of order
/// `p`.
pub open spec fn is_inverse_of(i: nat, a: nat, p: nat) -> bool {
    i < p && (i * a) % p == 1
}

/// `s` is below `p` and its square is `a` in the field of order `p`.
pub open spec fn is_root_of(s: nat, a: nat, p: nat) -> bool {
    s < p && (s * s) % p == a
}

/// `a`, a number below `p`, is a square of the field of order `p` and is not
/// zero.
pub open spec fn is_quadratic_residue(a: nat, p: nat) -> bool {
    a != 0 && exists|s: nat| is_root_of(s, a, p)
}

/// Calls `Add::add` of `ark_pallas::Fr` on two canonical representations
/// (`PrimeField::from_repr`, `PrimeField::into_repr`). Claims that the result
/// is the sum of the two numbers, reduced by the field's order.
#[verifier::external_body]
fn even_add(a: &[u64; 4], b: &[u64; 4]) -> (r: [u64; 4])
    requires
        limbs_value(a@) < even_modulus(),
        limbs_value(b@) < even_modulus(),
    ensures
        limbs_value(r@) == (limbs_value(a@) + limbs_value(b@)) % even_modulus(),
{
    let x = ark_pallas::Fr::from_repr(BigInteger256(*a)).unwrap();
    let y = ark_pallas::Fr::from_repr(BigInteger256(*b)).unwrap();
    (x + y).into_repr().0
}

/// Calls `Mul::mul` of `ark_pallas::Fr` on two canonical representations.
/// Claims that the result is the product of the two numbers, reduced by the
/// field's order.
#[verifier::external_body]
fn even_mul(a: &[u64; 4], b: &[u64; 4]) -> (r: [u64; 4])
    requires
        limbs_value(a@) < even_modulus(),
        limbs_value(b@) < even_modulus(),
    ensures
        limbs_value(r@) == (limbs_value(a@) * limbs_value(b@)) % even_modulus(),
{
    let x = ark_pallas::Fr::from_repr(BigInteger256(*a)).unwrap();
    let y = ark_pallas::Fr::from_repr(BigInteger256(*b)).unwrap();
    (x * y).into_repr().0
}

/// Calls `Field::inverse` of `ark_pallas::Fr`. Claims that it returns `None`
/// exactly on zero, and otherwise the canonical number whose product with
/// the argument is one in the field, which is the only such number.
#[verifier::external_body]
fn even_inverse(a: &[u64; 4]) -> (r: Option<[u64; 4]>)
    requires
        limbs_value(a@) < even_modulus(),
    ensures
        r is None <==> limbs_value(a@) == 0,
        r matches Some(i) ==> limbs_value(i@) < even_modulus() && (limbs_value(i@) * limbs_value(
            a@,
        )) % even_modulus() == 1 && limbs_value(i@) == field_inverse(
            limbs_value(a@),
            even_modulus(),
        ),
{
    let x = ark_pallas::Fr::from_repr(BigInteger256(*a)).unwrap();
    x.inverse().map(|i| i.into_repr().0)
}

/// Calls `PrimeField::from_le_bytes_mod_order` of `ark_pallas::Fr`. Claims
/// that the result is the little-endian number in the bytes, reduced by the
/// field's order.
#[verifier::external_body]
fn even_from_le_bytes_mod_order(bytes: &[u8]) -> (r: [u64; 4])
    ensures
        limbs_value(r@) == le_bytes_value(bytes@) % even_modulus(),
{
    ark_pallas::Fr::from_le_bytes_mod_order(bytes).into_repr().0
}

/// Calls `UniformRand::rand` of `ark_pallas::Fr`. Claims only that the
/// result is a canonical representation.
#[verifier::external_body]
fn even_random(rng: &mut StdRng) -> (r: [u64; 4])
    ensures
        limbs_value(r@) < even_modulus(),
{
    ark_pallas::Fr::rand(rng).into_repr().0
}

/// Calls `SquareRootField::legendre` of `ark_pallas::Fr` and `is_qr` on the
/// symbol. Claims that the result says whether the number is a square of the
/// field other than zero.
#[verifier::external_body]
fn even_is_square(a: &[u64; 4]) -> (r: bool)
    requires
        limbs_value(a@) < even_modulus(),
    ensures
        r == is_quadratic_residue(limbs_value(a@), even_modulus()),
{
    ark_pallas::Fr::from_repr(BigInteger256(*a)).unwrap().legendre().is_qr()
}

/// Calls `SquareRootField::legendre` of `ark_vesta::Fr` and `is_qr` on the
/// symbol. Claims that the result says whether the number is a square of the
/// field other than zero.
#[verifier::external_body]
fn odd_is_square(a: &[u64; 4]) -> (r: bool)
    requires
        limbs_value(a@) < odd_modulus(),
    ensures
        r == is_quadratic_residue(limbs_value(a@), odd_modulus()),
{
    ark_vesta::Fr::from_repr(BigInteger256(*a)).unwrap().legendre().is_qr()
}

/// Calls `Add::add` of `ark_vesta::Fr` on two canonical representations.
/// Claims that the result is the sum of the two numbers, reduced by the
/// field's order.
#[verifier::external_body]
fn odd_add(a: &[u64; 4], b: &[u64; 4]) -> (r: [u64; 4])
    requires
        limbs_value(a@) < odd_modulus(),
        limbs_value(b@) < odd_modulus(),
    ensures
        limbs_value(r@) == (limbs_value(a@) + limbs_value(b@)) % odd_modulus(),
{
    let x = ark_vesta::Fr::from_repr(BigInteger256(*a)).unwrap();
    let y = ark_vesta::Fr::from_repr(BigInteger256(*b)).unwrap();
    (x + y).into_repr().0
}

/// Calls `Mul::mul` of `ark_vesta::Fr` on two canonical representations.
/// Claims that the result is the product of the two numbers, reduced by the
/// field's order.
#[verifier::external_body]
fn odd_mul(a: &[u64; 4], b: &[u64; 4]) -> (r: [u64; 4])
    requires
        limbs_value(a@) < odd_modulus(),
        limbs_value(b@) < odd_modulus(),
    ensures
        limbs_value(r@) == (limbs_value(a@) * limbs_value(b@)) % odd_modulus(),
{
    let x = ark_vesta::Fr::from_repr(BigInteger256(*a)).unwrap();
    let y = ark_vesta::Fr::from_repr(BigInteger256(*b)).unwrap();
    (x * y).into_repr().0
}

/// Calls `Field::inverse` of `ark_vesta::Fr`. Claims that it returns `None`
/// exactly on zero, and otherwise the canonical number whose product with
/// the argument is one in the field, which is the only such number.
#[verifier::external_body]
fn odd_inverse(a: &[u64; 4]) -> (r: Option<[u64; 4]>)
    requires
        limbs_value(a@) < odd_modulus(),
    ensures
        r is None <==> limbs_value(a@) == 0,
        r matches Some(i) ==> limbs_value(i@) < odd_modulus() && (limbs_value(i@) * limbs_value(
            a@,
        )) % odd_modulus() == 1 && limbs_value(i@) == field_inverse(
            limbs_value(a@),
            odd_modulus(),
        ),
{
    let x = ark_vesta::Fr::from_repr(BigInteger256(*a)).unwrap();
    x.inverse().map(|i| i.into_repr().0)
}

/// Calls `PrimeField::from_le_bytes_mod_order` of `ark_vesta::Fr`. Claims
/// that the result is the little-endian number in the bytes, reduced by the
/// field's order.
#[verifier::external_body]
fn odd_from_le_bytes_mod_order(bytes: &[u8]) -> (r: [u64; 4])
    ensures
        limbs_value(r@) == le_bytes_value(bytes@) % odd_modulus(),
{
    ark_vesta::Fr::from_le_bytes_mod_order(bytes).into_repr().0
}

/// Calls `UniformRand::rand` of `ark_vesta::Fr`. Claims only that the result
/// is a canonical representation.
#[verifier::external_body]
fn odd_random(rng: &mut StdRng) -> (r: [u64; 4])
    ensures
        limbs_value(r@) < odd_modulus(),
{
    ark_vesta::Fr::rand(rng).into_repr().0
}

/// An element of the scalar field of one curve, as four little-endian limbs.
#[derive(Clone, Copy, Debug)]
pub struct Scalar {
    pub curve: CurveId,
    pub limbs: [u64; 4],
}

impl View for Scalar {
    type V = nat;

    open spec fn view(&self) -> nat {
        limbs_value(self.limbs@)
    }
}

impl Scalar {
    /// The representation is canonical: below the field's order.
    pub open spec fn wf(&self) -> bool {
        self@ < scalar_modulus(self.curve)
    }

    /// A canonical scalar of the given curve.
    pub open spec fn wf_in(&self, curve: CurveId) -> bool {
        self.curve == curve && self.wf()
    }

    /// The scalar that stands for a 64-bit integer.
    pub fn from_u64(curve: CurveId, value: u64) -> (r: Scalar)
        ensures
            r.wf_in(curve),
            r@ == value,
    {
        let limbs: [u64; 4] = [value, 0, 0, 0];
        reveal(even_modulus);
        reveal(odd_modulus);
        assert(limbs@[0] == value && limbs@[1] == 0 && limbs@[2] == 0 && limbs@[3] == 0);
        assert(limb_radix() * limb_radix() * limb_radix() > 0) by (nonlinear_arith);
        Scalar { curve, limbs }
    }

    pub fn zero(curve: CurveId) -> (r: Scalar)
        ensures
            r.wf_in(curve),
            r@ == 0,
    {
        Scalar::from_u64(curve, 0)
    }

    pub fn one(curve: CurveId) -> (r: Scalar)
        ensures
            r.wf_in(curve),
            r@ == 1,
    {
        Scalar::from_u64(curve, 1)
    }

    /// The additive inverse of one: the field's order less one.
    pub fn minus_one(curve: CurveId) -> (r: Scalar)
        ensures
            r.wf_in(curve),
            r@ == scalar_modulus(curve) - 1,
    {
        let limbs: [u64; 4] = match curve {
            CurveId::Even => [0x8c46eb2100000000, 0x224698fc0994a8dd, 0, 0x4000000000000000],
            CurveId::Odd => [0x992d30ed00000000, 0x224698fc094cf91b, 0, 0x4000000000000000],
        };
        reveal(even_modulus);
        reveal(odd_modulus);
        assert(limbs@[1] == 0x224698fc0994a8dd || limbs@[1] == 0x224698fc094cf91b);
        assert(limbs@[2] == 0 && limbs@[3] == 0x4000000000000000);
        Scalar { curve, limbs }
    }

    /// Sum in the field.
    pub fn add(&self, other: &Scalar) -> (r: Scalar)
        requires
            self.wf(),
            other.wf_in(self.curve),
        ensures
            r.wf_in(self.curve),
            r@ == (self@ + other@) % scalar_modulus(self.curve),
    {
        let limbs = match self.curve {
            CurveId::Even => even_add(&self.limbs, &other.limbs),
            CurveId::Odd => odd_add(&self.limbs, &other.limbs),
        };
        Scalar { curve: self.curve, limbs }
    }

    /// Product in the field.
    pub fn mul(&self, other: &Scalar) -> (r: Scalar)
        requires
            self.wf(),
            other.wf_in(self.curve),
        ensures
            r.wf_in(self.curve),
            r@ == (self@ * other@) % scalar_modulus(self.curve),
    {
        let limbs = match self.curve {
            CurveId::Even => even_mul(&self.limbs, &other.limbs),
            CurveId::Odd => odd_mul(&self.limbs, &other.limbs),
        };
        Scalar { curve: self.curve, limbs }
    }

    /// The multiplicative inverse, which every scalar but zero has.
    pub fn inverse(&self) -> (r: Option<Scalar>)
        requires
            self.wf(),
        ensures
            r is None <==> self@ == 0,
            r matches Some(i) ==> i.wf_in(self.curve) && (i@ * self@) % scalar_modulus(self.curve)
                == 1 && i@ == field_inverse(self@, scalar_modulus(self.curve)),
    {
        let limbs = match self.curve {
            CurveId::Even => even_inverse(&self.limbs),
            CurveId::Odd => odd_inverse(&self.limbs),
        };
        match limbs {
            Some(l) => Some(Scalar { curve: self.curve, limbs: l }),
            None => None,
        }
    }

    /// The scalar that a little-endian byte string stands for, reduced by the
    /// field's order.
    pub fn from_le_bytes_mod_order(curve: CurveId, bytes: &[u8]) -> (r: Scalar)
        ensures
            r.wf_in(curve),
            r@ == le_bytes_value(bytes@) % scalar_modulus(curve),
    {
        proof {
            reveal(even_modulus);
            reveal(odd_modulus);
        }
        let limbs = match curve {
            CurveId::Even => even_from_le_bytes_mod_order(bytes),
            CurveId::Odd => odd_from_le_bytes_mod_order(bytes),
        };
        Scalar { curve, limbs }
    }

    /// A scalar drawn from the generator. Nothing is known of it but that it
    /// is canonical.
    pub fn random(curve: CurveId, rng: &mut StdRng) -> (r: Scalar)
        ensures
            r.wf_in(curve),
    {
        let limbs = match curve {
            CurveId::Even => even_random(rng),
            CurveId::Odd => odd_random(rng),
        };
        Scalar { curve, limbs }
    }

    /// Whether the scalar is a square of its field other than zero.
    pub fn is_square(&self) -> (r: bool)
        requires
            self.wf(),
        ensures
            r == is_quadratic_residue(self@, scalar_modulus(self.curve)),
    {
        match self.curve {
            CurveId::Even => even_is_square(&self.limbs),
            CurveId::Odd => odd_is_square(&self.limbs),
        }
    }

    /// Whether the scalar is zero.
    pub fn is_zero(&self) -> (r: bool)
        ensures
            r == (self@ == 0),
    {
        let r = self.limbs[0] == 0 && self.limbs[1] == 0 && self.limbs[2] == 0 && self.limbs[3]
            == 0;
        proof {
            assert(limb_radix() * limb_radix() > 0) by (nonlinear_arith);
            assert(limb_radix() * limb_radix() * limb_radix() > 0) by (nonlinear_arith);
            assert(forall|a: nat, b: nat| a > 0 && b > 0 ==> #[trigger] (a * b) > 0)
                by (nonlinear_arith);
        }
        r
    }

    /// Whether two scalars have the same limbs and the same field.
    pub fn same(&self, other: &Scalar) -> (r: bool)
        ensures
            r == (self.curve == other.curve && self.limbs@ == other.limbs@),
    {
        let r = self.curve == other.curve && self.limbs[0] == other.limbs[0] && self.limbs[1]
            == other.limbs[1] && self.limbs[2] == other.limbs[2] && self.limbs[3]
            == other.limbs[3];
        proof {
            if r {
                assert(self.limbs@ =~= other.limbs@);
            }
        }
        r
    }
}

} // verus!
