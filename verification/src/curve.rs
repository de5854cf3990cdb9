//! Points of the two curves of the cycle, in affine coordinates.

use crate::field::{base_modulus, limbs_value, scalar_modulus, CurveId, Scalar};
use ark_ec::AffineCurve;
use ark_ff::{BigInteger256, PrimeField, ToBytes};
use crypto::digest::Digest;
use vstd::prelude::*;

verus! {

/// What a point is in contracts: its curve, the limbs of its two coordinates
/// and whether it is the point at infinity.
pub struct PointView {
    pub curve: CurveId,
    pub x: Seq<u64>,
    pub y: Seq<u64>,
    pub infinity: bool,
}

/// A point of one of the two curves. Its coordinates are elements of the
/// curve's base field, which is the scalar field of the other curve.
#[derive(Clone, Copy, Debug)]
pub struct Point {
    pub curve: CurveId,
    pub x: [u64; 4],
    pub y: [u64; 4],
    pub infinity: bool,
}

impl View for Point {
    type V = PointView;

    open spec fn view(&self) -> PointView {
        PointView { curve: self.curve, x: self.x@, y: self.y@, infinity: self.infinity }
    }
}

/// The coordinates are sequences of four limbs that stand for numbers
/// below the order of the curve's base field.
pub open spec fn point_wf(p: PointView) -> bool {
    &&& p.x.len() == 4
    &&& p.y.len() == 4
    &&& limbs_value(p.x) < base_modulus(p.curve)
    &&& limbs_value(p.y) < base_modulus(p.curve)
}

/// The sum of two points of Pallas, each given by its coordinates' limbs and
/// its infinity flag, as `ark_pallas::Affine` adds them.
pub uninterp spec fn pallas_sum(
    ax: Seq<u64>,
    ay: Seq<u64>,
    ainf: bool,
    bx: Seq<u64>,
    by: Seq<u64>,
    binf: bool,
) -> (Seq<u64>, Seq<u64>, bool);

/// The multiple of a point of Pallas by a number, as `ark_pallas::Affine`
/// multiplies.
pub uninterp spec fn pallas_product(x: Seq<u64>, y: Seq<u64>, inf: bool, k: nat) -> (
    Seq<u64>,
    Seq<u64>,
    bool,
);

/// The sum of two points of Vesta, as `ark_vesta::Affine` adds them.
pub uninterp spec fn vesta_sum(
    ax: Seq<u64>,
    ay: Seq<u64>,
    ainf: bool,
    bx: Seq<u64>,
    by: Seq<u64>,
    binf: bool,
) -> (Seq<u64>, Seq<u64>, bool);

/// The multiple of a point of Vesta by a number, as `ark_vesta::Affine`
/// multiplies.
pub uninterp spec fn vesta_product(x: Seq<u64>, y: Seq<u64>, inf: bool, k: nat) -> (
    Seq<u64>,
    Seq<u64>,
    bool,
);

/// The SHA3-512 digest of a byte string: 64 bytes.
pub uninterp spec fn sha3_512_digest(bytes: Seq<u8>) -> Seq<u8>;

/// The sum of two points of one curve.
pub open spec fn point_sum(a: PointView, b: PointView) -> PointView {
    let s = match a.curve {
        CurveId::Even => pallas_sum(a.x, a.y, a.infinity, b.x, b.y, b.infinity),
        CurveId::Odd => vesta_sum(a.x, a.y, a.infinity, b.x, b.y, b.infinity),
    };
    PointView { curve: a.curve, x: s.0, y: s.1, infinity: s.2 }
}

/// The multiple of a point by a scalar of its curve.
pub open spec fn point_product(p: PointView, k: nat) -> PointView {
    let s = match p.curve {
        CurveId::Even => pallas_product(p.x, p.y, p.infinity, k),
        CurveId::Odd => vesta_product(p.x, p.y, p.infinity, k),
    };
    PointView { curve: p.curve, x: s.0, y: s.1, infinity: s.2 }
}

/// The eight bytes of a 64-bit integer, least significant first.
pub open spec fn u64_le_bytes(v: u64) -> Seq<u8> {
    seq![
        (v as nat % 0x100) as u8,
        (v as nat / 0x100 % 0x100) as u8,
        (v as nat / 0x1_0000 % 0x100) as u8,
        (v as nat / 0x100_0000 % 0x100) as u8,
        (v as nat / 0x1_0000_0000 % 0x100) as u8,
        (v as nat / 0x100_0000_0000 % 0x100) as u8,
        (v as nat / 0x1_0000_0000_0000 % 0x100) as u8,
        (v as nat / 0x100_0000_0000_0000 % 0x100) as u8,
    ]
}

/// The 32 bytes of four limbs, least significant limb and byte first.
pub open spec fn limbs_le_bytes(l: Seq<u64>) -> Seq<u8> {
    u64_le_bytes(l[0]) + u64_le_bytes(l[1]) + u64_le_bytes(l[2]) + u64_le_bytes(l[3])
}

/// The byte string that stands for a point: its two coordinates and one
/// byte for the infinity flag.
#[verifier::opaque]
pub open spec fn point_encoding(p: PointView) -> Seq<u8> {
    limbs_le_bytes(p.x) + limbs_le_bytes(p.y) + seq![if p.infinity { 1u8 } else { 0u8 }]
}

/// Calls `Add::add` of `ark_pallas::Affine` on two points built with
/// `GroupAffine::new`. Claims that the result is canonical and is the named
/// sum of the arguments.
#[verifier::external_body]
fn pallas_add(a: &Point, b: &Point) -> (r: Point)
    requires
        point_wf(a@),
        point_wf(b@),
        a.curve == CurveId::Even,
        b.curve == CurveId::Even,
    ensures
        point_wf(r@),
        r.curve == CurveId::Even,
        (r.x@, r.y@, r.infinity) == pallas_sum(a.x@, a.y@, a.infinity, b.x@, b.y@, b.infinity),
{
    let ax = ark_pallas::Fq::from_repr(BigInteger256(a.x)).unwrap();
    let ay = ark_pallas::Fq::from_repr(BigInteger256(a.y)).unwrap();
    let bx = ark_pallas::Fq::from_repr(BigInteger256(b.x)).unwrap();
    let by = ark_pallas::Fq::from_repr(BigInteger256(b.y)).unwrap();
    let s = ark_pallas::Affine::new(ax, ay, a.infinity) + ark_pallas::Affine::new(
        bx,
        by,
        b.infinity,
    );
    Point { curve: CurveId::Even, x: s.x.into_repr().0, y: s.y.into_repr().0, infinity: s.infinity }
}

/// Calls `AffineCurve::mul` of `ark_pallas::Affine` and `into_affine` on the
/// result. Claims that the result is canonical and is the named multiple.
#[verifier::external_body]
fn pallas_mul(p: &Point, k: &Scalar) -> (r: Point)
    requires
        point_wf(p@),
        p.curve == CurveId::Even,
        k.wf_in(CurveId::Even),
    ensures
        point_wf(r@),
        r.curve == CurveId::Even,
        (r.x@, r.y@, r.infinity) == pallas_product(p.x@, p.y@, p.infinity, k@),
{
    let x = ark_pallas::Fq::from_repr(BigInteger256(p.x)).unwrap();
    let y = ark_pallas::Fq::from_repr(BigInteger256(p.y)).unwrap();
    let m = ark_pallas::Affine::new(x, y, p.infinity).mul(BigInteger256(k.limbs));
    let s = ark_pallas::Affine::from(m);
    Point { curve: CurveId::Even, x: s.x.into_repr().0, y: s.y.into_repr().0, infinity: s.infinity }
}

/// Calls `Add::add` of `ark_vesta::Affine` on two points built with
/// `GroupAffine::new`. Claims that the result is canonical and is the named
/// sum of the arguments.
#[verifier::external_body]
fn vesta_add(a: &Point, b: &Point) -> (r: Point)
    requires
        point_wf(a@),
        point_wf(b@),
        a.curve == CurveId::Odd,
        b.curve == CurveId::Odd,
    ensures
        point_wf(r@),
        r.curve == CurveId::Odd,
        (r.x@, r.y@, r.infinity) == vesta_sum(a.x@, a.y@, a.infinity, b.x@, b.y@, b.infinity),
{
    let ax = ark_vesta::Fq::from_repr(BigInteger256(a.x)).unwrap();
    let ay = ark_vesta::Fq::from_repr(BigInteger256(a.y)).unwrap();
    let bx = ark_vesta::Fq::from_repr(BigInteger256(b.x)).unwrap();
    let by = ark_vesta::Fq::from_repr(BigInteger256(b.y)).unwrap();
    let s = ark_vesta::Affine::new(ax, ay, a.infinity) + ark_vesta::Affine::new(
        bx,
        by,
        b.infinity,
    );
    Point { curve: CurveId::Odd, x: s.x.into_repr().0, y: s.y.into_repr().0, infinity: s.infinity }
}

/// Calls `AffineCurve::mul` of `ark_vesta::Affine` and `into_affine` on the
/// result. Claims that the result is canonical and is the named multiple.
#[verifier::external_body]
fn vesta_mul(p: &Point, k: &Scalar) -> (r: Point)
    requires
        point_wf(p@),
        p.curve == CurveId::Odd,
        k.wf_in(CurveId::Odd),
    ensures
        point_wf(r@),
        r.curve == CurveId::Odd,
        (r.x@, r.y@, r.infinity) == vesta_product(p.x@, p.y@, p.infinity, k@),
{
    let x = ark_vesta::Fq::from_repr(BigInteger256(p.x)).unwrap();
    let y = ark_vesta::Fq::from_repr(BigInteger256(p.y)).unwrap();
    let m = ark_vesta::Affine::new(x, y, p.infinity).mul(BigInteger256(k.limbs));
    let s = ark_vesta::Affine::from(m);
    Point { curve: CurveId::Odd, x: s.x.into_repr().0, y: s.y.into_repr().0, infinity: s.infinity }
}

/// Calls `ToBytes::write` of `ark_pallas::Affine` into a vector. Claims that
/// it writes the limbs of `x`, then those of `y`, each limb least significant
/// byte first, and then one byte that is 1 for the point at infinity.
#[verifier::external_body]
fn pallas_write(p: &Point) -> (r: Vec<u8>)
    requires
        point_wf(p@),
        p.curve == CurveId::Even,
    ensures
        r@ == point_encoding(p@),
{
    let x = ark_pallas::Fq::from_repr(BigInteger256(p.x)).unwrap();
    let y = ark_pallas::Fq::from_repr(BigInteger256(p.y)).unwrap();
    let mut bytes = Vec::new();
    ark_pallas::Affine::new(x, y, p.infinity).write(&mut bytes).unwrap();
    bytes
}

/// Calls `Sha3::sha3_512`, `Digest::input` and `Digest::result` of the
/// `crypto` crate with a buffer of 64 bytes, the length of the digest. Claims
/// that the result has 64 bytes and is a function of the input alone.
#[verifier::external_body]
fn wide_digest(bytes: &[u8]) -> (r: Vec<u8>)
    ensures
        r@ == sha3_512_digest(bytes@),
        r@.len() == 64,
{
    let mut sha = crypto::sha3::Sha3::sha3_512();
    sha.input(bytes);
    let mut buf = vec![0u8; 64];
    sha.result(&mut buf);
    buf
}

/// Maps a byte string to a scalar: its whole SHA3-512 digest, 512 bits, read
/// as a little-endian number and reduced by the field's order. The digest is
/// about twice as wide as the order, so the result is close to uniform.
pub open spec fn element_from_bytes_spec(curve: CurveId, bytes: Seq<u8>) -> nat {
    crate::field::le_bytes_value(sha3_512_digest(bytes)) % scalar_modulus(curve)
}

/// Hashes a byte string into the scalar field of a curve.
pub fn element_from_bytes_stat(curve: CurveId, bytes: &[u8]) -> (r: Scalar)
    ensures
        r.wf_in(curve),
        r@ == element_from_bytes_spec(curve, bytes@),
{
    let digest = wide_digest(bytes);
    Scalar::from_le_bytes_mod_order(curve, digest.as_slice())
}

/// The byte string that stands for a point of the even curve.
pub fn encode_point(p: &Point) -> (r: Vec<u8>)
    requires
        p.wf_in(CurveId::Even),
    ensures
        r@ == point_encoding(p@),
{
    pallas_write(p)
}

impl Point {
    /// The coordinates are canonical.
    pub open spec fn wf(&self) -> bool {
        point_wf(self@)
    }

    /// A canonical point of the given curve.
    pub open spec fn wf_in(&self, curve: CurveId) -> bool {
        self.curve == curve && self.wf()
    }

    /// The sum of two points of one curve.
    pub fn add(&self, other: &Point) -> (r: Point)
        requires
            self.wf(),
            other.wf_in(self.curve),
        ensures
            r.wf_in(self.curve),
            r@ == point_sum(self@, other@),
    {
        match self.curve {
            CurveId::Even => pallas_add(self, other),
            CurveId::Odd => vesta_add(self, other),
        }
    }

    /// The multiple of a point by a scalar of its curve.
    pub fn mul(&self, k: &Scalar) -> (r: Point)
        requires
            self.wf(),
            k.wf_in(self.curve),
        ensures
            r.wf_in(self.curve),
            r@ == point_product(self@, k@),
    {
        match self.curve {
            CurveId::Even => pallas_mul(self, k),
            CurveId::Odd => vesta_mul(self, k),
        }
    }

    /// The first coordinate, as a scalar of the other curve.
    pub fn x_as_scalar(&self) -> (r: Scalar)
        requires
            self.wf(),
        ensures
            r.wf_in(crate::field::other_curve(self.curve)),
            r.limbs@ == self.x@,
    {
        let curve = match self.curve {
            CurveId::Even => CurveId::Odd,
            CurveId::Odd => CurveId::Even,
        };
        Scalar { curve, limbs: self.x }
    }

    /// The second coordinate, as a scalar of the other curve.
    pub fn y_as_scalar(&self) -> (r: Scalar)
        requires
            self.wf(),
        ensures
            r.wf_in(crate::field::other_curve(self.curve)),
            r.limbs@ == self.y@,
    {
        let curve = match self.curve {
            CurveId::Even => CurveId::Odd,
            CurveId::Odd => CurveId::Even,
        };
        Scalar { curve, limbs: self.y }
    }

    /// Whether two points have the same curve, coordinates and flag.
    pub fn same(&self, other: &Point) -> (r: bool)
        ensures
            r == (self@ == other@),
    {
        let sx = Scalar { curve: self.curve, limbs: self.x };
        let sy = Scalar { curve: self.curve, limbs: self.y };
        let ox = Scalar { curve: other.curve, limbs: other.x };
        let oy = Scalar { curve: other.curve, limbs: other.y };
        sx.same(&ox) && sy.same(&oy) && self.infinity == other.infinity
    }
}

} // verus!
