//! The coin: its keys, what minting makes public, the permissible form that
//! enters the accumulator, and the rules of minting and combining.

use crate::curve::{
    element_from_bytes_spec, element_from_bytes_stat, point_encoding, point_product, point_sum,
    Point, PointView,
};
use crate::field::{limbs_value, CurveId, Scalar};
use crate::proving::{point_views, points_wf, vector_commitment, Prover};
use crate::r1cs::{ConstraintSystem, Variable};
use crate::verifying::Verifier;
use rand::rngs::StdRng;
use vstd::prelude::*;

verus! {

/// The number of bits of a coin's value that the range proof covers.
pub const VALUE_BITS: usize = 64;

/// How many candidates the padding search tries before it gives up.
pub const MAX_PADDING_ATTEMPTS: u64 = 256;

/// Why a coin could not be combined or spent.
#[derive(Clone, Copy, Debug, PartialEq, Eq, Structural)]
pub enum CoinError {
    /// No candidate of the padding search is representable.
    NotPermissible,
    /// The commitment to the coin is not the leaf of the membership path.
    PathMismatch,
    /// The opening of the public key is not the rerandomized public key.
    OwnershipMismatch,
    /// The ownership scalar is zero and has no inverse.
    UnspendableCoin,
}

/// The generators of one curve: `b` carries a single committed value,
/// `b_blinding` carries the blinding, and `gens` carry the entries of a
/// vector commitment.
pub struct CurveParameters {
    pub b: Point,
    pub b_blinding: Point,
    pub gens: Vec<Point>,
}

/// The generators of both curves: `c0_parameters` of the even curve and
/// `c1_parameters` of the odd curve.
pub struct SelRerandParameters {
    pub c0_parameters: CurveParameters,
    pub c1_parameters: CurveParameters,
}

impl CurveParameters {
    /// The generators are canonical points of the curve, the generator of
    /// values is not the generator of blindings, and there are at least two
    /// generators for vector commitments.
    pub open spec fn wf_in(&self, curve: CurveId) -> bool {
        &&& self.b.wf_in(curve)
        &&& self.b_blinding.wf_in(curve)
        &&& self.b@ != self.b_blinding@
        &&& points_wf(self.gens@, curve)
        &&& self.gens@.len() >= 2
    }
}

impl SelRerandParameters {
    pub open spec fn wf(&self) -> bool {
        self.c0_parameters.wf_in(CurveId::Even) && self.c1_parameters.wf_in(CurveId::Odd)
    }
}

/// The accumulator's test of whether it can represent a point.
pub trait Representability {
    /// The test's own invariant.
    spec fn valid(&self) -> bool;

    /// The point is representable.
    spec fn representable(&self, p: PointView) -> bool;

    /// Whether the point is representable.
    fn is_representable(&self, p: &Point) -> (r: bool)
        requires
            self.valid(),
            p.wf(),
        ensures
            r == self.representable(p@),
    ;
}

/// A public key: a commitment on the odd curve to a secret key, which anyone
/// can rerandomize.
#[derive(Clone, Copy, Debug)]
pub struct PublicKey(pub Point);

/// A secret key: the key itself and the blinding of its commitment. The
/// blinding may be any scalar, zero included.
#[derive(Clone, Copy, Debug)]
pub struct SecretKey {
    pub prf_key: Scalar,
    pub randomness: Scalar,
}

/// What the owner keeps of a minted coin.
#[derive(Clone, Copy, Debug)]
pub struct Coin {
    pub value: u64,
    /// The blinding of the commitment to the value, a scalar of the even
    /// curve.
    pub value_randomness: Scalar,
    /// The rerandomization of the public key, a scalar of the odd curve.
    pub pk_randomness: Scalar,
}

/// What minting makes public.
#[derive(Clone, Copy, Debug)]
pub struct MintingOutput {
    pub value_commitment: Point,
    pub public_key: Point,
}

/// The permissible form of a coin, with the padding that made each point
/// permissible. Only `permissible_coin` enters the accumulator.
#[derive(Clone, Copy, Debug)]
pub struct PermissibleCoin {
    pub permissible_pk: Point,
    pub r_permissible_pk: Scalar,
    pub permissible_coin: Point,
    pub r_permissible_coin: Scalar,
}

/// What is left for the range-proof gadget to do: show that `variable` has
/// at most `bits` bits. The prover hands it the value, the verifier does not.
#[derive(Clone, Copy, Debug)]
pub struct RangeRequest {
    pub variable: Variable,
    pub value: Option<u64>,
    pub bits: usize,
}

impl PublicKey {
    pub open spec fn wf(&self) -> bool {
        self.0.wf_in(CurveId::Odd)
    }
}

impl SecretKey {
    pub open spec fn wf(&self) -> bool {
        self.prf_key.wf_in(CurveId::Odd) && self.randomness.wf_in(CurveId::Odd)
    }
}

impl Coin {
    pub open spec fn wf(&self) -> bool {
        self.value_randomness.wf_in(CurveId::Even) && self.pk_randomness.wf_in(CurveId::Odd)
    }
}

impl MintingOutput {
    pub open spec fn wf(&self) -> bool {
        self.value_commitment.wf_in(CurveId::Even) && self.public_key.wf_in(CurveId::Odd)
    }
}

impl PermissibleCoin {
    pub open spec fn wf(&self) -> bool {
        &&& self.permissible_pk.wf_in(CurveId::Odd)
        &&& self.r_permissible_pk.wf_in(CurveId::Odd)
        &&& self.permissible_coin.wf_in(CurveId::Even)
        &&& self.r_permissible_coin.wf_in(CurveId::Even)
    }
}

/// A public key rerandomized by `r`: the key plus `r` times the blinding
/// generator of the odd curve.
pub open spec fn rerandomized_pk_spec(pk: PointView, r: nat, parameters: SelRerandParameters)
    -> PointView {
    point_sum(pk, point_product(parameters.c1_parameters.b_blinding@, r))
}

/// The commitment to a coin's value: a vector commitment of length one on
/// the even curve.
pub open spec fn value_commitment_spec(value: u64, blinding: nat, parameters: SelRerandParameters)
    -> PointView {
    vector_commitment(
        seq![value as nat],
        blinding,
        point_views(parameters.c0_parameters.gens@),
        parameters.c0_parameters.b_blinding@,
    )
}

/// What minting a coin with the given randomness makes public.
pub open spec fn minted(
    coin: Coin,
    output: MintingOutput,
    value: u64,
    pk: PublicKey,
    parameters: SelRerandParameters,
) -> bool {
    &&& coin.wf()
    &&& output.wf()
    &&& coin.value == value
    &&& output.value_commitment@ == value_commitment_spec(
        value,
        coin.value_randomness@,
        parameters,
    )
    &&& output.public_key@ == rerandomized_pk_spec(pk.0@, coin.pk_randomness@, parameters)
}

/// The candidate of the padding search after `k` steps: `c` with `h` added
/// `k` times.
pub open spec fn padded(c: PointView, h: PointView, k: nat) -> PointView
    decreases k,
{
    if k == 0 {
        c
    } else {
        point_sum(padded(c, h, (k - 1) as nat), h)
    }
}

/// The number of steps after which the padding search stops: the least
/// `k` from `from` up to `bound` whose candidate is representable.
pub open spec fn first_representable<U: Representability>(
    oracle: U,
    c: PointView,
    h: PointView,
    from: nat,
    bound: nat,
) -> Option<nat>
    decreases bound - from,
{
    if from >= bound {
        None
    } else if oracle.representable(padded(c, h, from)) {
        Some(from)
    } else {
        first_representable(oracle, c, h, from + 1, bound)
    }
}

/// Pads a point until the accumulator can represent it: adds the blinding
/// generator `h` to `c` until the sum is representable, and returns the sum
/// with the number of additions as a scalar. Gives up with `NotPermissible`
/// when none of the first `MAX_PADDING_ATTEMPTS` candidates is representable.
pub fn permissible_commitment<U: Representability>(oracle: &U, c: &Point, h: &Point) -> (r: Result<
    (Point, Scalar),
    CoinError,
>)
    requires
        oracle.valid(),
        c.wf(),
        h.wf_in(c.curve),
    ensures
        match first_representable(*oracle, c@, h@, 0, MAX_PADDING_ATTEMPTS as nat) {
            Some(k) => r matches Ok(found) && found.0.wf_in(c.curve) && found.0@ == padded(
                c@,
                h@,
                k,
            ) && found.1.wf_in(c.curve) && found.1@ == k && oracle.representable(found.0@),
            None => r == Err::<(Point, Scalar), CoinError>(CoinError::NotPermissible),
        },
{
    let mut candidate = *c;
    let mut k: u64 = 0;
    while k < MAX_PADDING_ATTEMPTS
        invariant
            k <= MAX_PADDING_ATTEMPTS,
            oracle.valid(),
            h.wf_in(c.curve),
            candidate.wf_in(c.curve),
            candidate@ == padded(c@, h@, k as nat),
            first_representable(*oracle, c@, h@, 0, MAX_PADDING_ATTEMPTS as nat)
                == first_representable(*oracle, c@, h@, k as nat, MAX_PADDING_ATTEMPTS as nat),
        decreases MAX_PADDING_ATTEMPTS - k,
    {
        if oracle.is_representable(&candidate) {
            return Ok((candidate, Scalar::from_u64(c.curve, k)));
        }
        candidate = candidate.add(h);
        k += 1;
    }
    Err(CoinError::NotPermissible)
}

impl Coin {
    /// The public key rerandomized by the given scalar.
    pub fn rerandomized_pk(
        pk: &PublicKey,
        rerandomization: &Scalar,
        parameters: &SelRerandParameters,
    ) -> (r: PublicKey)
        requires
            pk.wf(),
            rerandomization.wf_in(CurveId::Odd),
            parameters.wf(),
        ensures
            r.wf(),
            r.0@ == rerandomized_pk_spec(pk.0@, rerandomization@, *parameters),
    {
        PublicKey(pk.0.add(&parameters.c1_parameters.b_blinding.mul(rerandomization)))
    }

    /// The coin and the minting output for a value, a recipient and the two
    /// scalars that blind them.
    pub fn with_randomness(
        value: u64,
        pk: &PublicKey,
        parameters: &SelRerandParameters,
        pk_rerandomization: Scalar,
        value_randomness: Scalar,
    ) -> (r: (Coin, MintingOutput))
        requires
            pk.wf(),
            parameters.wf(),
            pk_rerandomization.wf_in(CurveId::Odd),
            value_randomness.wf_in(CurveId::Even),
        ensures
            minted(r.0, r.1, value, *pk, *parameters),
            r.0.value_randomness == value_randomness,
            r.0.pk_randomness == pk_rerandomization,
    {
        let randomized_pk = Coin::rerandomized_pk(pk, &pk_rerandomization, parameters);
        let mut values: Vec<Scalar> = Vec::new();
        values.push(Scalar::from_u64(CurveId::Even, value));
        let value_commitment = crate::proving::commit_to(
            &values,
            &value_randomness,
            &parameters.c0_parameters.gens,
            &parameters.c0_parameters.b_blinding,
        );
        assert(crate::proving::scalar_values(values@) =~= seq![value as nat]);
        (
            Coin { value, value_randomness, pk_randomness: pk_rerandomization },
            MintingOutput { value_commitment, public_key: randomized_pk.0 },
        )
    }

    /// A coin of the given value for the recipient, blinded by two scalars
    /// drawn from the generator, with what minting makes public.
    pub fn new(value: u64, pk: &PublicKey, parameters: &SelRerandParameters, rng: &mut StdRng) -> (r:
        (Coin, MintingOutput))
        requires
            pk.wf(),
            parameters.wf(),
        ensures
            minted(r.0, r.1, value, *pk, *parameters),
    {
        let pk_rerandomization = Scalar::random(CurveId::Odd, rng);
        let value_randomness = Scalar::random(CurveId::Even, rng);
        Coin::with_randomness(value, pk, parameters, pk_rerandomization, value_randomness)
    }

    /// Mints a coin and commits its value in the prover under the blinding
    /// of the coin, so that the prover's commitment is the one that minting
    /// makes public. Returns the coin, the minting output, the variable of
    /// the value and the range proof that is owed on that variable.
    pub fn mint(
        value: u64,
        pk: &PublicKey,
        parameters: &SelRerandParameters,
        rng: &mut StdRng,
        prover: &mut Prover,
    ) -> (r: (Coin, MintingOutput, Variable, RangeRequest))
        requires
            pk.wf(),
            parameters.wf(),
            old(prover).wf(),
            old(prover).curve == CurveId::Even,
            old(prover).b_blinding@ == parameters.c0_parameters.b_blinding@,
        ensures
            minted(r.0, r.1, value, *pk, *parameters),
            final(prover).wf(),
            final(prover).unchanged_but_commitments(*old(prover)),
            final(prover).committed@.len() == old(prover).committed@.len() + 1,
            final(prover).commitments@.len() == old(prover).commitments@.len() + 1,
            final(prover).commitments@.last()@ == r.1.value_commitment@,
            r.2 == Variable::Committed(old(prover).committed.len()),
            final(prover).value(r.2) == value,
            r.3.variable == r.2,
            r.3.value == Some(value),
            r.3.bits == VALUE_BITS,
    {
        let (coin, minting_output) = Coin::new(value, pk, parameters, rng);
        let first = prover.committed.len();
        let mut values: Vec<Scalar> = Vec::new();
        values.push(Scalar::from_u64(CurveId::Even, value));
        let (_, variables) = prover.commit_vec(
            &values,
            coin.value_randomness,
            &parameters.c0_parameters.gens,
        );
        assert(crate::proving::scalar_values(values@) =~= seq![value as nat]);
        let variable = variables[0];
        assert(variable == Variable::Committed((first + 0) as usize));
        assert(prover.committed@[first as int] == values@[0]);
        let range = RangeRequest { variable, value: Some(value), bits: VALUE_BITS };
        (coin, minting_output, variable, range)
    }
}

/// The tag that sets the hash of a value commitment apart from every other
/// use of the same hash: the sixteen bytes of `value-commitment`.
#[verifier::opaque]
pub open spec fn value_commitment_tag() -> Seq<u8> {
    seq![
        0x76u8, 0x61u8, 0x6cu8, 0x75u8, 0x65u8, 0x2du8, 0x63u8, 0x6fu8, 0x6du8, 0x6du8, 0x69u8,
        0x74u8, 0x6du8, 0x65u8, 0x6eu8, 0x74u8,
    ]
}

/// The bytes of the tag of value commitments.
pub fn tag_bytes() -> (r: Vec<u8>)
    ensures
        r@ == value_commitment_tag(),
{
    let r: Vec<u8> = vec![
        0x76u8, 0x61u8, 0x6cu8, 0x75u8, 0x65u8, 0x2du8, 0x63u8, 0x6fu8, 0x6du8, 0x6du8, 0x69u8,
        0x74u8, 0x6du8, 0x65u8, 0x6eu8, 0x74u8,
    ];
    reveal(value_commitment_tag);
    assert(r@ =~= value_commitment_tag());
    r
}

/// The byte string that is hashed for a value commitment: the tag and then
/// the point's encoding.
pub open spec fn tagged_value_commitment(value_commitment: PointView) -> Seq<u8> {
    value_commitment_tag() + point_encoding(value_commitment)
}

/// The hash of a value commitment into the scalar field of the odd curve.
pub open spec fn hash_of_value_commitment_spec(value_commitment: PointView) -> nat {
    element_from_bytes_spec(CurveId::Odd, tagged_value_commitment(value_commitment))
}

/// The rerandomized public key with the hash of the value commitment folded
/// in, before it is padded.
pub open spec fn pre_permissible_pk(output: MintingOutput, parameters: SelRerandParameters)
    -> PointView {
    point_sum(
        output.public_key@,
        point_product(
            parameters.c1_parameters.b@,
            hash_of_value_commitment_spec(output.value_commitment@),
        ),
    )
}

/// The value commitment with the first coordinate of the permissible public
/// key folded in under the second vector generator, before it is padded.
pub open spec fn pre_permissible_coin(
    output: MintingOutput,
    permissible_pk: PointView,
    parameters: SelRerandParameters,
) -> PointView {
    point_sum(
        output.value_commitment@,
        point_product(parameters.c0_parameters.gens@[1]@, limbs_value(permissible_pk.x)),
    )
}

/// The permissible form of a minting output is the result of the two padding
/// searches, each stopped at its first representable candidate.
pub open spec fn combined<U: Representability>(
    output: MintingOutput,
    parameters: SelRerandParameters,
    oracle: U,
    coin: PermissibleCoin,
) -> bool {
    let h1 = parameters.c1_parameters.b_blinding@;
    let h0 = parameters.c0_parameters.b_blinding@;
    let pre_pk = pre_permissible_pk(output, parameters);
    let pre_coin = pre_permissible_coin(output, coin.permissible_pk@, parameters);
    &&& coin.wf()
    &&& first_representable(oracle, pre_pk, h1, 0, MAX_PADDING_ATTEMPTS as nat) == Some(
        coin.r_permissible_pk@,
    )
    &&& coin.permissible_pk@ == padded(pre_pk, h1, coin.r_permissible_pk@)
    &&& first_representable(oracle, pre_coin, h0, 0, MAX_PADDING_ATTEMPTS as nat) == Some(
        coin.r_permissible_coin@,
    )
    &&& coin.permissible_coin@ == padded(pre_coin, h0, coin.r_permissible_coin@)
    &&& oracle.representable(coin.permissible_pk@)
    &&& oracle.representable(coin.permissible_coin@)
}

/// Some permissible form exists: both padding searches find a candidate.
pub open spec fn combinable<U: Representability>(
    output: MintingOutput,
    parameters: SelRerandParameters,
    oracle: U,
) -> bool {
    let h1 = parameters.c1_parameters.b_blinding@;
    let h0 = parameters.c0_parameters.b_blinding@;
    let pre_pk = pre_permissible_pk(output, parameters);
    match first_representable(oracle, pre_pk, h1, 0, MAX_PADDING_ATTEMPTS as nat) {
        Some(k) => first_representable(
            oracle,
            pre_permissible_coin(output, padded(pre_pk, h1, k), parameters),
            h0,
            0,
            MAX_PADDING_ATTEMPTS as nat,
        ) is Some,
        None => false,
    }
}

/// Combining is determined by what it is given: two permissible forms of
/// one minting output under the same generators and the same test agree in
/// both points and both paddings, and the point that enters the accumulator
/// is representable.
pub proof fn lemma_combination_is_determined<U: Representability>(
    output: MintingOutput,
    parameters: SelRerandParameters,
    oracle: U,
    first: PermissibleCoin,
    second: PermissibleCoin,
)
    requires
        combined(output, parameters, oracle, first),
        combined(output, parameters, oracle, second),
    ensures
        first.permissible_pk@ == second.permissible_pk@,
        first.r_permissible_pk@ == second.r_permissible_pk@,
        first.permissible_coin@ == second.permissible_coin@,
        first.r_permissible_coin@ == second.r_permissible_coin@,
        oracle.representable(first.permissible_coin@),
{
}

/// The padding search, where it finds a candidate, finds a representable
/// one, and none before it is representable.
pub proof fn lemma_first_representable<U: Representability>(
    oracle: U,
    c: PointView,
    h: PointView,
    from: nat,
    bound: nat,
)
    ensures
        match first_representable(oracle, c, h, from, bound) {
            Some(k) => from <= k < bound && oracle.representable(padded(c, h, k)) && forall|
                j: nat,
            |
                from <= j < k ==> !oracle.representable(#[trigger] padded(c, h, j)),
            None => forall|j: nat|
                from <= j < bound ==> !oracle.representable(#[trigger] padded(c, h, j)),
        },
    decreases bound - from,
{
    if from < bound && !oracle.representable(padded(c, h, from)) {
        lemma_first_representable(oracle, c, h, from + 1, bound);
    }
}

impl MintingOutput {
    /// Hashes the value commitment, under its own tag, into the scalar field
    /// of the odd curve, where it can be added to the key that the public key
    /// commits to.
    pub fn hash_of_value_commitment(&self) -> (r: Scalar)
        requires
            self.wf(),
        ensures
            r.wf_in(CurveId::Odd),
            r@ == hash_of_value_commitment_spec(self.value_commitment@),
    {
        let mut bytes = tag_bytes();
        assert(bytes@ =~= value_commitment_tag() + Seq::<u8>::empty());
        let encoding = crate::curve::encode_point(&self.value_commitment);
        let mut i: usize = 0;
        while i < encoding.len()
            invariant
                i <= encoding@.len(),
                bytes@ == value_commitment_tag() + encoding@.subrange(0, i as int),
            decreases encoding@.len() - i,
        {
            bytes.push(encoding[i]);
            assert(bytes@ =~= value_commitment_tag() + encoding@.subrange(0, i + 1));
            i += 1;
        }
        assert(encoding@.subrange(0, i as int) =~= encoding@);
        element_from_bytes_stat(CurveId::Odd, bytes.as_slice())
    }

    /// Folds the value commitment and the public key into one permissible
    /// point. On the odd curve the hash of the value commitment is added to
    /// the public key and the sum is padded; on the even curve the first
    /// coordinate of that point is added to the value commitment under the
    /// second vector generator and the sum is padded. Fails with
    /// `NotPermissible` exactly when one of the two padding searches finds
    /// no representable candidate.
    pub fn combine_into_permissible<U: Representability>(
        &self,
        parameters: &SelRerandParameters,
        oracle: &U,
    ) -> (r: Result<PermissibleCoin, CoinError>)
        requires
            self.wf(),
            parameters.wf(),
            oracle.valid(),
        ensures
            r is Ok <==> combinable(*self, *parameters, *oracle),
            r matches Ok(coin) ==> combined(*self, *parameters, *oracle, coin),
            r is Err ==> r == Err::<PermissibleCoin, CoinError>(CoinError::NotPermissible),
    {
        let hash_of_value_commitments = self.hash_of_value_commitment();
        let g_to_hash = parameters.c1_parameters.b.mul(&hash_of_value_commitments);
        let pre_permissible_pk = self.public_key.add(&g_to_hash);
        let (permissible_pk, r_permissible_pk) = match permissible_commitment(
            oracle,
            &pre_permissible_pk,
            &parameters.c1_parameters.b_blinding,
        ) {
            Ok(found) => found,
            Err(e) => {
                return Err(e);
            },
        };
        let pk_x = permissible_pk.x_as_scalar();
        assert(parameters.c0_parameters.gens@[1].wf_in(CurveId::Even));
        let prf_generator = parameters.c0_parameters.gens[1];
        let pre_permissible_coin = self.value_commitment.add(&prf_generator.mul(&pk_x));
        let (permissible_coin, r_permissible_coin) = match permissible_commitment(
            oracle,
            &pre_permissible_coin,
            &parameters.c0_parameters.b_blinding,
        ) {
            Ok(found) => found,
            Err(e) => {
                return Err(e);
            },
        };
        Ok(PermissibleCoin { permissible_pk, r_permissible_pk, permissible_coin, r_permissible_coin })
    }
}

/// The verifier's side of minting: takes in the commitment to a coin as a
/// vector commitment of length one, as the prover made it, and returns the
/// variable of its value with the range proof that is owed on it, for which
/// the verifier has no value.
pub fn verify_mint(verifier: &mut Verifier, commitment: Point) -> (r: (Variable, RangeRequest))
    requires
        old(verifier).wf(),
        old(verifier).committed < usize::MAX,
    ensures
        final(verifier).wf(),
        final(verifier).unchanged_but_commitments(*old(verifier)),
        final(verifier).committed == old(verifier).committed + 1,
        final(verifier).commitments@ == old(verifier).commitments@.push(commitment),
        r.0 == Variable::Committed(old(verifier).committed),
        r.1.variable == r.0,
        r.1.value == None::<u64>,
        r.1.bits == VALUE_BITS,
{
    let variables = verifier.commit_vec(1, commitment);
    let variable = variables[0];
    (variable, RangeRequest { variable, value: None, bits: VALUE_BITS })
}

} // verus!
