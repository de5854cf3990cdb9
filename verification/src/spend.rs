//! Spending a coin: the commitment to the coin is matched against the leaf
//! of the membership path, ownership of the rerandomized public key is
//! shown, and the tag that reveals a second spend is formed.

use crate::algebra::{field_sum, lemma_shift_is_injective};
use crate::coin::{
    combined, hash_of_value_commitment_spec, minted, pre_permissible_coin, pre_permissible_pk,
    Coin, CoinError, MintingOutput, PermissibleCoin, PublicKey, Representability, SecretKey,
    SelRerandParameters,
};
use crate::curve::{point_product, point_sum, Point, PointView};
use crate::field::{
    field_inverse, is_inverse_of, lemma_modulus_large, limbs_value, scalar_modulus, CurveId,
    Scalar,
};
use crate::group::{
    is_group, lemma_distribute, lemma_multiple_in, lemma_padding_is_a_multiple, lemma_regroup,
    lemma_sum_in, lemma_swap_last, lemma_zero_and_one, PointSet,
};
use crate::proving::{
    pedersen_commitment, point_views, points_wf, vector_commitment, Prover,
};
use crate::r1cs::{ConstraintSystem, Variable};
use rand::rngs::StdRng;
use vstd::arithmetic::div_mod::{lemma_mod_bound, lemma_mul_mod_noop_general, lemma_small_mod};
use vstd::prelude::*;

verus! {

/// The commitments along a membership path, rerandomized, as the accumulator
/// hands them out: those on the even curve and those on the odd curve.
pub struct SelectAndRerandomizePath {
    pub even_commitments: Vec<Point>,
    pub odd_commitments: Vec<Point>,
}

/// Everything that the owner needs to spend one coin.
pub struct SpendingInfo {
    /// The position of the coin in the accumulator.
    pub index: usize,
    pub coin_aux: Coin,
    pub minting_output: MintingOutput,
    pub combined_coin: PermissibleCoin,
    pub randomized_pk: PublicKey,
    pub sk: SecretKey,
}

/// What is left for the accumulator's one-level gadget to do on the even
/// prover: bind the rerandomized public key to the variable that holds the
/// first coordinate of the permissible public key.
#[derive(Clone, Copy, Debug)]
pub struct RerandomizeRequest {
    pub rerandomized_public_key: Point,
    pub variable: Variable,
    pub permissible_pk: Point,
    pub randomness: Scalar,
}

/// What a spend hands out.
#[derive(Clone, Copy, Debug)]
pub struct SpendOutput {
    /// The variable of the coin's value in the even prover.
    pub value_variable: Variable,
    /// The commitment, without blinding, to the inverse of the ownership
    /// scalar. Two spends of one coin give the same tag.
    pub spending_tag: Point,
    pub rerandomize: RerandomizeRequest,
}

impl SelectAndRerandomizePath {
    pub open spec fn wf(&self) -> bool {
        points_wf(self.even_commitments@, CurveId::Even) && points_wf(
            self.odd_commitments@,
            CurveId::Odd,
        )
    }
}

impl SpendingInfo {
    pub open spec fn wf(&self) -> bool {
        &&& self.coin_aux.wf()
        &&& self.minting_output.wf()
        &&& self.combined_coin.wf()
        &&& self.randomized_pk.wf()
        &&& self.sk.wf()
    }

    /// The sum, in a field of order `p`, of three numbers added from the
    /// left.
    pub open spec fn sum3(a: nat, b: nat, c: nat, p: nat) -> nat {
        (((a + b) % p) + c) % p
    }

    /// The blinding under which the coin is committed again: the blinding of
    /// the value commitment, the padding of the permissible coin and the
    /// rerandomization of the path.
    pub open spec fn leaf_blinding(&self, rerandomization: nat) -> nat {
        Self::sum3(
            self.coin_aux.value_randomness@,
            self.combined_coin.r_permissible_coin@,
            rerandomization,
            scalar_modulus(CurveId::Even),
        )
    }

    /// The commitment on the even curve to the coin's value and the first
    /// coordinate of the permissible public key.
    pub open spec fn leaf_commitment(&self, parameters: SelRerandParameters, rerandomization: nat)
        -> PointView {
        vector_commitment(
            seq![self.coin_aux.value as nat, limbs_value(self.combined_coin.permissible_pk.x@)],
            self.leaf_blinding(rerandomization),
            point_views(parameters.c0_parameters.gens@),
            parameters.c0_parameters.b_blinding@,
        )
    }

    /// The path has two commitments on the even curve and the second is the
    /// commitment to the coin.
    pub open spec fn on_path(
        &self,
        parameters: SelRerandParameters,
        path: SelectAndRerandomizePath,
        rerandomization: nat,
    ) -> bool {
        path.even_commitments@.len() == 2 && path.even_commitments@[1]@ == self.leaf_commitment(
            parameters,
            rerandomization,
        )
    }

    /// The permissible public key rerandomized by the fresh scalar.
    pub open spec fn rerandomized_public_key(&self, parameters: SelRerandParameters, fresh: nat)
        -> PointView {
        point_sum(
            self.combined_coin.permissible_pk@,
            point_product(parameters.c1_parameters.b_blinding@, fresh),
        )
    }

    /// The ownership scalar: the secret key plus the hash of the value
    /// commitment.
    pub open spec fn ownership_scalar(&self) -> nat {
        (self.sk.prf_key@ + hash_of_value_commitment_spec(self.minting_output.value_commitment@))
            % scalar_modulus(CurveId::Odd)
    }

    /// The blinding that the public key has gathered: that of the secret
    /// key, the sender's rerandomization, the padding of the permissible
    /// public key and the fresh scalar.
    pub open spec fn ownership_blinding(&self, fresh: nat) -> nat {
        let p = scalar_modulus(CurveId::Odd);
        (Self::sum3(
            self.sk.randomness@,
            self.coin_aux.pk_randomness@,
            self.combined_coin.r_permissible_pk@,
            p,
        ) + fresh) % p
    }

    /// The commitment that opens to the ownership scalar under the
    /// gathered blinding is the rerandomized public key.
    pub open spec fn owned(&self, parameters: SelRerandParameters, fresh: nat) -> bool {
        self.rerandomized_public_key(parameters, fresh) == pedersen_commitment(
            parameters.c1_parameters.b@,
            parameters.c1_parameters.b_blinding@,
            self.ownership_scalar(),
            self.ownership_blinding(fresh),
        )
    }

    /// The tag of the coin: the commitment, with blinding zero, to the
    /// inverse of the ownership scalar.
    pub open spec fn spending_tag(&self, parameters: SelRerandParameters) -> PointView {
        pedersen_commitment(
            parameters.c1_parameters.b@,
            parameters.c1_parameters.b_blinding@,
            field_inverse(self.ownership_scalar(), scalar_modulus(CurveId::Odd)),
            0,
        )
    }

    /// What a spend returns for a path, its rerandomization and the fresh
    /// scalar: the first of the three checks that fails, or success.
    pub open spec fn spend_outcome(
        &self,
        parameters: SelRerandParameters,
        path: SelectAndRerandomizePath,
        rerandomization: nat,
        fresh: nat,
    ) -> Result<(), CoinError> {
        if !self.on_path(parameters, path, rerandomization) {
            Err(CoinError::PathMismatch)
        } else if !self.owned(parameters, fresh) {
            Err(CoinError::OwnershipMismatch)
        } else if self.ownership_scalar() == 0 {
            Err(CoinError::UnspendableCoin)
        } else {
            Ok(())
        }
    }

    /// What a spend that succeeds hands out and leaves in the provers. The
    /// even prover holds the coin's value and the first coordinate of the
    /// permissible public key in the variables from `first` on. The odd
    /// prover has two more commitments, the rerandomized public key and the
    /// tag, and holds the ownership scalar and its inverse.
    pub open spec fn spent(
        &self,
        out: SpendOutput,
        parameters: SelRerandParameters,
        fresh: Scalar,
        first: usize,
        even: Prover,
        odd_before: Prover,
        odd: Prover,
    ) -> bool {
        let commitments = odd_before.commitments@.len() as int;
        let committed = odd_before.committed@.len() as int;
        &&& out.value_variable == Variable::Committed(first)
        &&& even.value(out.value_variable) == self.coin_aux.value
        &&& out.rerandomize.variable == Variable::Committed((first + 1) as usize)
        &&& even.value(out.rerandomize.variable) == limbs_value(
            self.combined_coin.permissible_pk.x@,
        )
        &&& out.rerandomize.rerandomized_public_key@ == self.rerandomized_public_key(
            parameters,
            fresh@,
        )
        &&& out.rerandomize.permissible_pk == self.combined_coin.permissible_pk
        &&& out.rerandomize.randomness == fresh
        &&& out.spending_tag@ == self.spending_tag(parameters)
        &&& odd.commitments@.len() == commitments + 2
        &&& odd.commitments@[commitments]@ == out.rerandomize.rerandomized_public_key@
        &&& odd.commitments@[commitments + 1] == out.spending_tag
        &&& odd.committed@.len() == committed + 2
        &&& odd.committed@[committed]@ == self.ownership_scalar()
        &&& odd.committed@[committed + 1]@ == field_inverse(
            self.ownership_scalar(),
            scalar_modulus(CurveId::Odd),
        )
    }

    /// The result `r` is what a spend with the fresh scalar `fresh` gives:
    /// the error of the first check that fails, or what a spend that
    /// succeeds hands out and leaves in the provers.
    pub open spec fn is_result_for(
        &self,
        r: Result<SpendOutput, CoinError>,
        fresh: Scalar,
        parameters: SelRerandParameters,
        path: SelectAndRerandomizePath,
        rerandomization: nat,
        first: usize,
        even: Prover,
        odd_before: Prover,
        odd: Prover,
    ) -> bool {
        match self.spend_outcome(parameters, path, rerandomization, fresh@) {
            Ok(_) => r matches Ok(out) && self.spent(
                out,
                parameters,
                fresh,
                first,
                even,
                odd_before,
                odd,
            ),
            Err(e) => r == Err::<SpendOutput, CoinError>(e),
        }
    }

    /// The provers fit the parameters: each is of its curve and commits
    /// under the parameters' generators.
    pub open spec fn provers_fit(
        even_prover: Prover,
        odd_prover: Prover,
        parameters: SelRerandParameters,
    ) -> bool {
        &&& even_prover.wf()
        &&& odd_prover.wf()
        &&& even_prover.curve == CurveId::Even
        &&& odd_prover.curve == CurveId::Odd
        &&& even_prover.b_blinding@ == parameters.c0_parameters.b_blinding@
        &&& odd_prover.b@ == parameters.c1_parameters.b@
        &&& odd_prover.b_blinding@ == parameters.c1_parameters.b_blinding@
    }

    /// Commits, in the even prover, to the coin's value and the first
    /// coordinate of its permissible public key under the gathered blinding.
    /// Returns the commitment and the two variables.
    pub fn commit_leaf(
        &self,
        even_prover: &mut Prover,
        parameters: &SelRerandParameters,
        rerandomization: &Scalar,
    ) -> (r: (Point, Variable, Variable))
        requires
            self.wf(),
            parameters.wf(),
            rerandomization.wf_in(CurveId::Even),
            old(even_prover).wf(),
            old(even_prover).curve == CurveId::Even,
            old(even_prover).b_blinding@ == parameters.c0_parameters.b_blinding@,
        ensures
            final(even_prover).wf(),
            final(even_prover).unchanged_but_commitments(*old(even_prover)),
            final(even_prover).commitments@ == old(even_prover).commitments@.push(r.0),
            final(even_prover).committed@.len() == old(even_prover).committed@.len() + 2,
            r.0.wf_in(CurveId::Even),
            r.0@ == self.leaf_commitment(*parameters, rerandomization@),
            r.1 == Variable::Committed(old(even_prover).committed.len()),
            r.2 == Variable::Committed((old(even_prover).committed.len() + 1) as usize),
            final(even_prover).value(r.1) == self.coin_aux.value,
            final(even_prover).value(r.2) == limbs_value(self.combined_coin.permissible_pk.x@),
    {
        let pk_x = self.combined_coin.permissible_pk.x_as_scalar();
        let first = even_prover.committed.len();
        let mut values: Vec<Scalar> = Vec::new();
        values.push(Scalar::from_u64(CurveId::Even, self.coin_aux.value));
        values.push(pk_x);
        let blinding = self.coin_aux.value_randomness.add(
            &self.combined_coin.r_permissible_coin,
        ).add(rerandomization);
        let (rerandomized_point, coin_variables) = even_prover.commit_vec(
            &values,
            blinding,
            &parameters.c0_parameters.gens,
        );
        let count = even_prover.committed.len();
        proof {
            assert(count == first + 2);
            assert(crate::proving::scalar_values(values@) =~= seq![
                self.coin_aux.value as nat,
                limbs_value(self.combined_coin.permissible_pk.x@),
            ]);
            assert(coin_variables@[0] == Variable::Committed((first + 0) as usize));
            assert(coin_variables@[1] == Variable::Committed((first + 1) as usize));
            assert(even_prover.committed@[first as int] == values@[0]);
            assert(even_prover.committed@[first + 1] == values@[1]);
        }
        (rerandomized_point, coin_variables[0], coin_variables[1])
    }

    /// Rerandomizes the permissible public key by the fresh scalar and
    /// commits, in the odd prover, to the ownership scalar under the gathered
    /// blinding. Returns the rerandomized key, the commitment and the
    /// ownership scalar.
    pub fn open_public_key(
        &self,
        odd_prover: &mut Prover,
        parameters: &SelRerandParameters,
        fresh_pk_randomness: &Scalar,
    ) -> (r: (Point, Point, Scalar))
        requires
            self.wf(),
            parameters.wf(),
            fresh_pk_randomness.wf_in(CurveId::Odd),
            old(odd_prover).wf(),
            old(odd_prover).curve == CurveId::Odd,
            old(odd_prover).b@ == parameters.c1_parameters.b@,
            old(odd_prover).b_blinding@ == parameters.c1_parameters.b_blinding@,
        ensures
            final(odd_prover).wf(),
            final(odd_prover).unchanged_but_commitments(*old(odd_prover)),
            final(odd_prover).commitments@ == old(odd_prover).commitments@.push(r.1),
            final(odd_prover).committed@ == old(odd_prover).committed@.push(r.2),
            r.0.wf_in(CurveId::Odd),
            r.0@ == self.rerandomized_public_key(*parameters, fresh_pk_randomness@),
            r.1@ == pedersen_commitment(
                parameters.c1_parameters.b@,
                parameters.c1_parameters.b_blinding@,
                self.ownership_scalar(),
                self.ownership_blinding(fresh_pk_randomness@),
            ),
            r.2.wf_in(CurveId::Odd),
            r.2@ == self.ownership_scalar(),
    {
        let rerandomized_public_key = self.combined_coin.permissible_pk.add(
            &parameters.c1_parameters.b_blinding.mul(fresh_pk_randomness),
        );
        let x = self.sk.prf_key.add(&self.minting_output.hash_of_value_commitment());
        let total = self.sk.randomness.add(&self.coin_aux.pk_randomness).add(
            &self.combined_coin.r_permissible_pk,
        ).add(fresh_pk_randomness);
        let (rerandomized_pk_alt, _) = odd_prover.commit(x, total);
        (rerandomized_public_key, rerandomized_pk_alt, x)
    }

    /// Spends the coin with the given fresh rerandomization of the
    /// permissible public key. The coin's value and the first coordinate of
    /// its permissible public key are committed in the even prover under the
    /// gathered blinding, and that commitment must be the second even
    /// commitment of the path. The ownership scalar is committed in the odd
    /// prover, and that commitment must be the rerandomized public key. The
    /// tag commits to the inverse of the ownership scalar without blinding.
    pub fn prove_spend_with(
        self,
        even_prover: &mut Prover,
        odd_prover: &mut Prover,
        parameters: &SelRerandParameters,
        path: &SelectAndRerandomizePath,
        rerandomization: Scalar,
        fresh_pk_randomness: Scalar,
    ) -> (r: Result<SpendOutput, CoinError>)
        requires
            self.wf(),
            parameters.wf(),
            path.wf(),
            rerandomization.wf_in(CurveId::Even),
            fresh_pk_randomness.wf_in(CurveId::Odd),
            Self::provers_fit(*old(even_prover), *old(odd_prover), *parameters),
        ensures
            final(even_prover).wf(),
            final(odd_prover).wf(),
            final(even_prover).unchanged_but_commitments(*old(even_prover)),
            final(odd_prover).unchanged_but_commitments(*old(odd_prover)),
            final(even_prover).commitments@.len() == old(even_prover).commitments@.len() + 1,
            final(even_prover).commitments@.last()@ == self.leaf_commitment(
                *parameters,
                rerandomization@,
            ),
            self.is_result_for(
                r,
                fresh_pk_randomness,
                *parameters,
                *path,
                rerandomization@,
                old(even_prover).committed.len(),
                *final(even_prover),
                *old(odd_prover),
                *final(odd_prover),
            ),
    {
        let (rerandomized_point, value_variable, pk_variable) = self.commit_leaf(
            even_prover,
            parameters,
            &rerandomization,
        );
        if path.even_commitments.len() != 2 {
            return Err(CoinError::PathMismatch);
        }
        if !path.even_commitments[1].same(&rerandomized_point) {
            return Err(CoinError::PathMismatch);
        }
        let (rerandomized_public_key, rerandomized_pk_alt, x) = self.open_public_key(
            odd_prover,
            parameters,
            &fresh_pk_randomness,
        );
        if !rerandomized_public_key.same(&rerandomized_pk_alt) {
            return Err(CoinError::OwnershipMismatch);
        }
        let x_inverse = match x.inverse() {
            Some(i) => i,
            None => {
                return Err(CoinError::UnspendableCoin);
            },
        };
        let (spending_tag, _) = odd_prover.commit(x_inverse, Scalar::zero(CurveId::Odd));
        Ok(
            SpendOutput {
                value_variable,
                spending_tag,
                rerandomize: RerandomizeRequest {
                    rerandomized_public_key,
                    variable: pk_variable,
                    permissible_pk: self.combined_coin.permissible_pk,
                    randomness: fresh_pk_randomness,
                },
            },
        )
    }

    /// Spends the coin with a fresh rerandomization drawn from the
    /// generator. Whatever scalar is drawn, the result is that of
    /// `prove_spend_with` for it: there is a canonical scalar for which the
    /// result is the outcome of the three checks.
    pub fn prove_spend(
        self,
        even_prover: &mut Prover,
        odd_prover: &mut Prover,
        parameters: &SelRerandParameters,
        path: &SelectAndRerandomizePath,
        rerandomization: Scalar,
        rng: &mut StdRng,
    ) -> (r: Result<SpendOutput, CoinError>)
        requires
            self.wf(),
            parameters.wf(),
            path.wf(),
            rerandomization.wf_in(CurveId::Even),
            Self::provers_fit(*old(even_prover), *old(odd_prover), *parameters),
        ensures
            final(even_prover).wf(),
            final(odd_prover).wf(),
            final(even_prover).unchanged_but_commitments(*old(even_prover)),
            final(odd_prover).unchanged_but_commitments(*old(odd_prover)),
            final(even_prover).commitments@.last()@ == self.leaf_commitment(
                *parameters,
                rerandomization@,
            ),
            r == Err::<SpendOutput, CoinError>(CoinError::PathMismatch) <==> !self.on_path(
                *parameters,
                *path,
                rerandomization@,
            ),
            r == Err::<SpendOutput, CoinError>(CoinError::UnspendableCoin)
                ==> self.ownership_scalar() == 0,
            self.on_path(*parameters, *path, rerandomization@) && self.ownership_scalar() != 0
                ==> r is Ok || r == Err::<SpendOutput, CoinError>(CoinError::OwnershipMismatch),
            r matches Ok(out) ==> self.ownership_scalar() != 0 && self.owned(
                *parameters,
                out.rerandomize.randomness@,
            ) && self.spent(
                out,
                *parameters,
                out.rerandomize.randomness,
                old(even_prover).committed.len(),
                *final(even_prover),
                *old(odd_prover),
                *final(odd_prover),
            ),
            r matches Err(e) ==> e != CoinError::NotPermissible,
            exists|fresh: Scalar|
                fresh.wf_in(CurveId::Odd) && #[trigger] self.is_result_for(
                    r,
                    fresh,
                    *parameters,
                    *path,
                    rerandomization@,
                    old(even_prover).committed.len(),
                    *final(even_prover),
                    *old(odd_prover),
                    *final(odd_prover),
                ),
    {
        let fresh_pk_randomness = Scalar::random(CurveId::Odd, rng);
        let r = self.prove_spend_with(
            even_prover,
            odd_prover,
            parameters,
            path,
            rerandomization,
            fresh_pk_randomness,
        );
        assert(self.is_result_for(
            r,
            fresh_pk_randomness,
            *parameters,
            *path,
            rerandomization@,
            old(even_prover).committed.len(),
            *even_prover,
            *old(odd_prover),
            *odd_prover,
        ));
        r
    }
}

/// The public key is the commitment to the secret key under the key's own
/// blinding.
pub open spec fn opens_to(pk: PublicKey, sk: SecretKey, parameters: SelRerandParameters) -> bool {
    pk.0@ == pedersen_commitment(
        parameters.c1_parameters.b@,
        parameters.c1_parameters.b_blinding@,
        sk.prf_key@,
        sk.randomness@,
    )
}

/// The leaf that the accumulator hands out for a permissible coin: the coin
/// plus the rerandomization's multiple of the blinding generator.
pub open spec fn rerandomized_leaf(
    coin: PermissibleCoin,
    parameters: SelRerandParameters,
    rerandomization: nat,
) -> PointView {
    point_sum(
        coin.permissible_coin@,
        point_product(parameters.c0_parameters.b_blinding@, rerandomization),
    )
}

/// The generators of both curves lie in the two groups.
pub open spec fn generators_in(parameters: SelRerandParameters, even: PointSet, odd: PointSet)
    -> bool {
    &&& is_group(even, CurveId::Even)
    &&& is_group(odd, CurveId::Odd)
    &&& even(parameters.c0_parameters.b_blinding@)
    &&& even(parameters.c0_parameters.gens@[0]@)
    &&& even(parameters.c0_parameters.gens@[1]@)
    &&& odd(parameters.c1_parameters.b@)
    &&& odd(parameters.c1_parameters.b_blinding@)
}

/// In groups that hold the generators, the commitment to a minted and
/// combined coin under the gathered blinding is the leaf that the
/// accumulator hands out for the coin.
pub proof fn lemma_minted_coin_is_on_its_path<U: Representability>(
    info: SpendingInfo,
    pk: PublicKey,
    parameters: SelRerandParameters,
    oracle: U,
    rerandomization: nat,
    even: PointSet,
    odd: PointSet,
)
    requires
        info.wf(),
        parameters.wf(),
        generators_in(parameters, even, odd),
        minted(info.coin_aux, info.minting_output, info.coin_aux.value, pk, parameters),
        combined(info.minting_output, parameters, oracle, info.combined_coin),
    ensures
        info.leaf_commitment(parameters, rerandomization) == rerandomized_leaf(
            info.combined_coin,
            parameters,
            rerandomization,
        ),
{
    let p = scalar_modulus(CurveId::Even);
    let c = CurveId::Even;
    let h = parameters.c0_parameters.b_blinding@;
    let gens = point_views(parameters.c0_parameters.gens@);
    let v = info.coin_aux.value as nat;
    let x = limbs_value(info.combined_coin.permissible_pk.x@);
    let vr = info.coin_aux.value_randomness@;
    let rc = info.combined_coin.r_permissible_coin@;
    let rr = rerandomization;
    let pa = point_product(h, vr);
    let pb = point_product(gens[0], v);
    let pc = point_product(gens[1], x);
    let pd = point_product(h, rc);
    let pe = point_product(h, rr);
    assert(gens[0] == parameters.c0_parameters.gens@[0]@);
    assert(gens[1] == parameters.c0_parameters.gens@[1]@);
    lemma_multiple_in(even, c, h, vr);
    lemma_multiple_in(even, c, gens[0], v);
    lemma_multiple_in(even, c, gens[1], x);
    lemma_multiple_in(even, c, h, rc);
    lemma_multiple_in(even, c, h, rr);
    // the value commitment
    let one = seq![v];
    assert(one.drop_last() =~= Seq::<nat>::empty());
    reveal_with_fuel(vector_commitment, 3);
    assert(vector_commitment(one, vr, gens, h) == point_sum(pa, pb));
    let vc = info.minting_output.value_commitment@;
    assert(vc == point_sum(pa, pb));
    // the permissible coin
    let pre = pre_permissible_coin(
        info.minting_output,
        info.combined_coin.permissible_pk@,
        parameters,
    );
    assert(pre == point_sum(vc, pc));
    lemma_sum_in(even, c, pa, pb);
    lemma_sum_in(even, c, vc, pc);
    lemma_padding_is_a_multiple(even, c, pre, h, rc);
    let coin = info.combined_coin.permissible_coin@;
    assert(coin == point_sum(pre, pd));
    let leaf = point_sum(coin, pe);
    // the commitment under the gathered blinding
    let two = seq![v, x];
    assert(two.drop_last() =~= one);
    let total = info.leaf_blinding(rr);
    assert(total == field_sum(field_sum(vr, rc, p), rr, p));
    lemma_distribute(even, c, h, vr, rc);
    lemma_distribute(even, c, h, field_sum(vr, rc, p), rr);
    let ad = point_sum(pa, pd);
    let ade = point_sum(ad, pe);
    assert(point_product(h, total) == ade);
    assert(vector_commitment(one, total, gens, h) == point_sum(ade, pb));
    assert(info.leaf_commitment(parameters, rr) == point_sum(point_sum(ade, pb), pc));
    // both are the sum of the same five points
    lemma_swap_last(even, c, pa, pb, pd);
    lemma_swap_last(even, c, point_sum(pa, pb), pc, pd);
    lemma_sum_in(even, c, ad, pb);
    assert(point_sum(pre, pd) == point_sum(point_sum(ad, pb), pc));
    lemma_swap_last(even, c, point_sum(ad, pb), pc, pe);
    lemma_swap_last(even, c, ad, pb, pe);
    assert(leaf == point_sum(point_sum(ade, pb), pc));
}

/// In groups that hold the generators, the rerandomized public key of a
/// minted and combined coin opens to the ownership scalar under the
/// gathered blinding, whatever the fresh scalar is.
pub proof fn lemma_minted_coin_is_owned<U: Representability>(
    info: SpendingInfo,
    pk: PublicKey,
    parameters: SelRerandParameters,
    oracle: U,
    fresh: nat,
    even: PointSet,
    odd: PointSet,
)
    requires
        info.wf(),
        parameters.wf(),
        generators_in(parameters, even, odd),
        opens_to(pk, info.sk, parameters),
        minted(info.coin_aux, info.minting_output, info.coin_aux.value, pk, parameters),
        combined(info.minting_output, parameters, oracle, info.combined_coin),
    ensures
        info.owned(parameters, fresh),
{
    let p = scalar_modulus(CurveId::Odd);
    let c = CurveId::Odd;
    let b = parameters.c1_parameters.b@;
    let h = parameters.c1_parameters.b_blinding@;
    let key = info.sk.prf_key@;
    let r0 = info.sk.randomness@;
    let rs = info.coin_aux.pk_randomness@;
    let rp = info.combined_coin.r_permissible_pk@;
    let hash = hash_of_value_commitment_spec(info.minting_output.value_commitment@);
    let pk0 = point_product(b, key);
    let ph = point_product(b, hash);
    let p0 = point_product(h, r0);
    let ps = point_product(h, rs);
    let pp = point_product(h, rp);
    let pf = point_product(h, fresh);
    lemma_multiple_in(odd, c, b, key);
    lemma_multiple_in(odd, c, b, hash);
    lemma_multiple_in(odd, c, h, r0);
    lemma_multiple_in(odd, c, h, rs);
    lemma_multiple_in(odd, c, h, rp);
    lemma_multiple_in(odd, c, h, fresh);
    // the rerandomized public key, summand by summand
    assert(pk.0@ == point_sum(pk0, p0));
    let randomized = info.minting_output.public_key@;
    assert(randomized == point_sum(point_sum(pk0, p0), ps));
    let pre = pre_permissible_pk(info.minting_output, parameters);
    assert(pre == point_sum(randomized, ph));
    lemma_sum_in(odd, c, pk0, p0);
    lemma_sum_in(odd, c, point_sum(pk0, p0), ps);
    lemma_sum_in(odd, c, randomized, ph);
    lemma_padding_is_a_multiple(odd, c, pre, h, rp);
    let permissible = info.combined_coin.permissible_pk@;
    assert(permissible == point_sum(pre, pp));
    let rerandomized = info.rerandomized_public_key(parameters, fresh);
    assert(rerandomized == point_sum(permissible, pf));
    // the opening, summand by summand
    let x = info.ownership_scalar();
    assert(x == field_sum(key, hash, p));
    lemma_distribute(odd, c, b, key, hash);
    let total = info.ownership_blinding(fresh);
    assert(total == field_sum(field_sum(field_sum(r0, rs, p), rp, p), fresh, p));
    lemma_distribute(odd, c, h, r0, rs);
    lemma_distribute(odd, c, h, field_sum(r0, rs, p), rp);
    lemma_distribute(odd, c, h, field_sum(field_sum(r0, rs, p), rp, p), fresh);
    let blind = point_sum(point_sum(point_sum(p0, ps), pp), pf);
    assert(point_product(h, total) == blind);
    let kh = point_sum(pk0, ph);
    let opening = point_sum(kh, blind);
    // both are the sum of the same six points
    lemma_regroup(odd, c, kh, point_sum(point_sum(p0, ps), pp), pf);
    lemma_regroup(odd, c, kh, point_sum(p0, ps), pp);
    lemma_regroup(odd, c, kh, p0, ps);
    let khr = point_sum(point_sum(kh, p0), ps);
    assert(opening == point_sum(point_sum(khr, pp), pf));
    lemma_swap_last(odd, c, pk0, p0, ph);
    lemma_swap_last(odd, c, point_sum(pk0, p0), ps, ph);
    assert(pre == khr);
}

/// A coin that was minted for a key and combined can be spent against the
/// leaf that the accumulator hands out for it: in groups that hold the
/// generators neither the check of the path nor that of ownership fails.
/// The spend fails only where the ownership scalar is zero.
pub proof fn lemma_minted_coin_is_spendable<U: Representability>(
    info: SpendingInfo,
    pk: PublicKey,
    parameters: SelRerandParameters,
    oracle: U,
    path: SelectAndRerandomizePath,
    rerandomization: nat,
    fresh: nat,
    even: PointSet,
    odd: PointSet,
)
    requires
        info.wf(),
        parameters.wf(),
        generators_in(parameters, even, odd),
        opens_to(pk, info.sk, parameters),
        minted(info.coin_aux, info.minting_output, info.coin_aux.value, pk, parameters),
        combined(info.minting_output, parameters, oracle, info.combined_coin),
        path.even_commitments@.len() == 2,
        path.even_commitments@[1]@ == rerandomized_leaf(
            info.combined_coin,
            parameters,
            rerandomization,
        ),
    ensures
        info.on_path(parameters, path, rerandomization),
        info.owned(parameters, fresh),
        info.spend_outcome(parameters, path, rerandomization, fresh) == if info.ownership_scalar()
            == 0 {
            Err::<(), CoinError>(CoinError::UnspendableCoin)
        } else {
            Ok::<(), CoinError>(())
        },
{
    lemma_minted_coin_is_on_its_path(info, pk, parameters, oracle, rerandomization, even, odd);
    lemma_minted_coin_is_owned(info, pk, parameters, oracle, fresh, even, odd);
}

/// What `prove_spend` gives for a coin that was minted for a key and
/// combined, against the leaf that the accumulator hands out for it:
/// whatever scalar was drawn, the spend succeeds where the ownership scalar
/// is not zero, and the variable that it reveals holds the coin's value.
pub proof fn lemma_spend_of_minted_coin<U: Representability>(
    info: SpendingInfo,
    pk: PublicKey,
    parameters: SelRerandParameters,
    oracle: U,
    path: SelectAndRerandomizePath,
    rerandomization: nat,
    r: Result<SpendOutput, CoinError>,
    first: usize,
    even_prover: Prover,
    odd_before: Prover,
    odd_prover: Prover,
    even: PointSet,
    odd: PointSet,
)
    requires
        info.wf(),
        parameters.wf(),
        generators_in(parameters, even, odd),
        opens_to(pk, info.sk, parameters),
        minted(info.coin_aux, info.minting_output, info.coin_aux.value, pk, parameters),
        combined(info.minting_output, parameters, oracle, info.combined_coin),
        path.even_commitments@.len() == 2,
        path.even_commitments@[1]@ == rerandomized_leaf(
            info.combined_coin,
            parameters,
            rerandomization,
        ),
        info.ownership_scalar() != 0,
        exists|fresh: Scalar|
            fresh.wf_in(CurveId::Odd) && #[trigger] info.is_result_for(
                r,
                fresh,
                parameters,
                path,
                rerandomization,
                first,
                even_prover,
                odd_before,
                odd_prover,
            ),
    ensures
        r matches Ok(out) && out.value_variable == Variable::Committed(first)
            && even_prover.value(out.value_variable) == info.coin_aux.value
            && out.spending_tag@ == info.spending_tag(parameters),
{
    let fresh = choose|fresh: Scalar|
        fresh.wf_in(CurveId::Odd) && #[trigger] info.is_result_for(
            r,
            fresh,
            parameters,
            path,
            rerandomization,
            first,
            even_prover,
            odd_before,
            odd_prover,
        );
    lemma_minted_coin_is_spendable(
        info,
        pk,
        parameters,
        oracle,
        path,
        rerandomization,
        fresh@,
        even,
        odd,
    );
}

/// The number has an inverse in the field of order `p`.
pub open spec fn has_inverse(x: nat, p: nat) -> bool {
    exists|i: nat| is_inverse_of(i, x, p)
}

/// The multiples of the point by the numbers below `p` are all different.
pub open spec fn has_order(b: PointView, p: nat) -> bool {
    forall|j: nat, k: nat|
        j < p && k < p && j != k ==> #[trigger] point_product(b, j) != #[trigger] point_product(
            b,
            k,
        )
}

/// Two numbers with the same inverse in the field are the same in the field.
pub proof fn lemma_inverse_is_injective(i: nat, x: nat, y: nat, p: nat)
    requires
        p > 1,
        x < p,
        y < p,
        is_inverse_of(i, x, p),
        is_inverse_of(i, y, p),
    ensures
        x == y,
{
    // x = x * (i * y) = (x * i) * y = y, all in the field
    lemma_mul_mod_noop_general(x as int, (i * y) as int, p as int);
    lemma_mul_mod_noop_general((i * x) as int, y as int, p as int);
    assert(x * (i * y) == (i * x) * y) by (nonlinear_arith);
    assert(x * 1 == x && 1 * y == y) by (nonlinear_arith);
    lemma_small_mod(x, p);
    lemma_small_mod(y, p);
    lemma_small_mod(1, p);
}

/// Two coins of one owner whose value commitments hash to different scalars
/// have different ownership scalars. Where both scalars have inverses, the
/// generator of values lies in a group and its multiples are all different,
/// their tags differ too.
pub proof fn lemma_other_coin_other_tag(
    first: SpendingInfo,
    second: SpendingInfo,
    parameters: SelRerandParameters,
    odd: PointSet,
)
    requires
        first.wf(),
        second.wf(),
        first.sk.prf_key@ == second.sk.prf_key@,
        hash_of_value_commitment_spec(first.minting_output.value_commitment@)
            != hash_of_value_commitment_spec(second.minting_output.value_commitment@),
    ensures
        first.ownership_scalar() != second.ownership_scalar(),
        is_group(odd, CurveId::Odd) && odd(parameters.c1_parameters.b@) && odd(
            parameters.c1_parameters.b_blinding@,
        ) && has_order(parameters.c1_parameters.b@, scalar_modulus(CurveId::Odd)) && has_inverse(
            first.ownership_scalar(),
            scalar_modulus(CurveId::Odd),
        ) && has_inverse(second.ownership_scalar(), scalar_modulus(CurveId::Odd))
            ==> first.spending_tag(parameters) != second.spending_tag(parameters),
{
    let p = scalar_modulus(CurveId::Odd);
    let c = CurveId::Odd;
    let b = parameters.c1_parameters.b@;
    let h = parameters.c1_parameters.b_blinding@;
    let key = first.sk.prf_key@;
    let h1 = hash_of_value_commitment_spec(first.minting_output.value_commitment@);
    let h2 = hash_of_value_commitment_spec(second.minting_output.value_commitment@);
    let x1 = first.ownership_scalar();
    let x2 = second.ownership_scalar();
    lemma_modulus_large(c);
    lemma_mod_bound(crate::field::le_bytes_value(
        crate::curve::sha3_512_digest(
            crate::coin::tagged_value_commitment(first.minting_output.value_commitment@),
        ),
    ) as int, p as int);
    lemma_mod_bound(crate::field::le_bytes_value(
        crate::curve::sha3_512_digest(
            crate::coin::tagged_value_commitment(second.minting_output.value_commitment@),
        ),
    ) as int, p as int);
    lemma_shift_is_injective(key, h1, h2, p);
    assert(x1 == field_sum(key, h1, p));
    assert(x2 == field_sum(key, h2, p));
    lemma_mod_bound((key + h1) as int, p as int);
    lemma_mod_bound((key + h2) as int, p as int);
    if is_group(odd, c) && odd(b) && odd(h) && has_order(b, p) && has_inverse(x1, p)
        && has_inverse(x2, p) {
        let i1 = field_inverse(x1, p);
        let i2 = field_inverse(x2, p);
        assert(is_inverse_of(i1, x1, p));
        assert(is_inverse_of(i2, x2, p));
        if i1 == i2 {
            lemma_inverse_is_injective(i1, x1, x2, p);
        }
        lemma_multiple_in(odd, c, b, i1);
        lemma_multiple_in(odd, c, b, i2);
        lemma_zero_and_one(odd, c, point_product(b, i1), h);
        lemma_zero_and_one(odd, c, point_product(b, i2), h);
        assert(first.spending_tag(parameters) == point_product(b, i1));
        assert(second.spending_tag(parameters) == point_product(b, i2));
    }
}

/// Two spends of coins with the same secret key and the same value
/// commitment give the same tag, whatever the path, its rerandomization and
/// the fresh scalar of each spend are: the tag is a function of the
/// generators, the key and the value commitment alone.
pub proof fn lemma_same_coin_same_tag(
    first: SpendingInfo,
    second: SpendingInfo,
    parameters: SelRerandParameters,
)
    requires
        first.sk.prf_key@ == second.sk.prf_key@,
        first.minting_output.value_commitment@ == second.minting_output.value_commitment@,
    ensures
        first.ownership_scalar() == second.ownership_scalar(),
        first.spending_tag(parameters) == second.spending_tag(parameters),
{
}

} // verus!
