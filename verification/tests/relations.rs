use ark_ec::{AffineCurve, ProjectiveCurve};
use ark_ff::{BigInteger256, PrimeField};
use rand::rngs::StdRng;
use rand::SeedableRng;
use relations::coin::{
    permissible_commitment, tag_bytes, verify_mint, Coin, CoinError, CurveParameters, MintingOutput,
    PermissibleCoin, PublicKey, SecretKey, SelRerandParameters, MAX_PADDING_ATTEMPTS, VALUE_BITS,
};
use relations::coin::Representability;
use relations::curve::{element_from_bytes_stat, encode_point, Point};
use relations::field::{CurveId, Scalar};
use relations::gadgets::{
    veccom_do_nothing_gadget, veccom_empty_gadget, veccom_non_trivial_gadget,
    veccom_product_gadget,
};
use relations::permissible::{PermissibilityTest, UniversalHash};
use relations::proving::{commit_to, Prover};
use relations::r1cs::{ConstraintSystem, LinearCombination, Variable};
use relations::select::{select, GadgetError};
use relations::spend::{SelectAndRerandomizePath, SpendingInfo};
use relations::verifying::Verifier;

fn even_point(k: u64) -> Point {
    let p = ark_pallas::Affine::prime_subgroup_generator()
        .mul(ark_pallas::Fr::from(k))
        .into_affine();
    Point { curve: CurveId::Even, x: p.x.into_repr().0, y: p.y.into_repr().0, infinity: p.infinity }
}

fn odd_point(k: u64) -> Point {
    let p = ark_vesta::Affine::prime_subgroup_generator()
        .mul(ark_vesta::Fr::from(k))
        .into_affine();
    Point { curve: CurveId::Odd, x: p.x.into_repr().0, y: p.y.into_repr().0, infinity: p.infinity }
}

fn point_of(curve: CurveId, k: u64) -> Point {
    match curve {
        CurveId::Even => even_point(k),
        CurveId::Odd => odd_point(k),
    }
}

fn gens_of(curve: CurveId, n: usize) -> Vec<Point> {
    let step = point_of(curve, 1);
    let mut current = point_of(curve, 1000);
    let mut gens = Vec::new();
    for _ in 0..n {
        gens.push(current);
        current = current.add(&step);
    }
    gens
}

fn parameters() -> SelRerandParameters {
    SelRerandParameters {
        c0_parameters: CurveParameters {
            b: even_point(3),
            b_blinding: even_point(5),
            gens: gens_of(CurveId::Even, 4),
        },
        c1_parameters: CurveParameters {
            b: odd_point(3),
            b_blinding: odd_point(5),
            gens: gens_of(CurveId::Odd, 4),
        },
    }
}

fn oracle() -> PermissibilityTest {
    PermissibilityTest {
        even: UniversalHash {
            alpha: Scalar::from_u64(CurveId::Odd, 7),
            beta: Scalar::from_u64(CurveId::Odd, 11),
        },
        odd: UniversalHash {
            alpha: Scalar::from_u64(CurveId::Even, 13),
            beta: Scalar::from_u64(CurveId::Even, 17),
        },
    }
}

fn never() -> PermissibilityTest {
    PermissibilityTest {
        even: UniversalHash {
            alpha: Scalar::zero(CurveId::Odd),
            beta: Scalar::zero(CurveId::Odd),
        },
        odd: UniversalHash {
            alpha: Scalar::zero(CurveId::Even),
            beta: Scalar::zero(CurveId::Even),
        },
    }
}

fn keys(prf_key: Scalar, randomness: Scalar, parameters: &SelRerandParameters) -> (SecretKey, PublicKey) {
    let pk = parameters
        .c1_parameters
        .b
        .mul(&prf_key)
        .add(&parameters.c1_parameters.b_blinding.mul(&randomness));
    (SecretKey { prf_key, randomness }, PublicKey(pk))
}

fn var(curve: CurveId, v: Variable) -> LinearCombination {
    LinearCombination::from_variable(curve, v)
}

fn is_canonical(s: &Scalar) -> bool {
    match s.curve {
        CurveId::Even => ark_pallas::Fr::from_repr(BigInteger256(s.limbs)).is_some(),
        CurveId::Odd => ark_vesta::Fr::from_repr(BigInteger256(s.limbs)).is_some(),
    }
}

fn select_satisfied(x: u64, xs: &[u64]) -> bool {
    let curve = CurveId::Odd;
    let mut prover = Prover::new(odd_point(3), odd_point(5));
    let values: Vec<Scalar> = xs.iter().map(|v| Scalar::from_u64(curve, *v)).collect();
    let gens = gens_of(curve, xs.len());
    let (_, xs_vars) = prover.commit_vec(&values, Scalar::from_u64(curve, 77), &gens);
    let (_, x_var) = prover.commit(Scalar::from_u64(curve, x), Scalar::from_u64(curve, 78));
    let r = select(
        &mut prover,
        var(curve, x_var),
        xs_vars.into_iter().map(|v| var(curve, v)).collect(),
    );
    assert_eq!(r, Ok(()));
    prover.is_satisfied()
}

#[test]
fn test_select() {
    let mut rng = StdRng::seed_from_u64(1);
    let curve = CurveId::Odd;
    let gens = gens_of(curve, 256);
    let xs: Vec<Scalar> = (0..256).map(|_| Scalar::random(curve, &mut rng)).collect();
    let index = 42;
    let x = xs[index];

    let mut prover = Prover::new(odd_point(3), odd_point(5));
    let blinding_xs = Scalar::random(curve, &mut rng);
    let (xs_comm, xs_vars) = prover.commit_vec(&xs, blinding_xs, &gens);
    let blinding_x = Scalar::random(curve, &mut rng);
    let (x_comm, x_var) = prover.commit(x, blinding_x);
    let res = select(
        &mut prover,
        var(curve, x_var),
        xs_vars.into_iter().map(|v| var(curve, v)).collect(),
    );
    assert_eq!(res, Ok(()));
    assert!(prover.is_satisfied());
    assert_eq!(prover.left.len(), 255);

    let mut verifier = Verifier::new(curve);
    let xs_vars = verifier.commit_vec(256, xs_comm);
    let x_var = verifier.commit(x_comm);
    let res = select(
        &mut verifier,
        var(curve, x_var),
        xs_vars.into_iter().map(|v| var(curve, v)).collect(),
    );
    assert_eq!(res, Ok(()));
    assert_eq!(verifier.gate_count, 255);
    assert_eq!(verifier.constraints.len(), prover.constraints.len());
    for (a, b) in verifier.constraints.iter().zip(prover.constraints.iter()) {
        assert_eq!(a.terms.len(), b.terms.len());
        for (s, t) in a.terms.iter().zip(b.terms.iter()) {
            assert_eq!(s.0, t.0);
            assert!(s.1.same(&t.1));
        }
    }
}

#[test]
fn select_accepts_each_member_and_rejects_others() {
    assert!(select_satisfied(5, &[5]));
    assert!(!select_satisfied(6, &[5]));
    assert!(select_satisfied(1, &[1, 2, 3]));
    assert!(select_satisfied(2, &[1, 2, 3]));
    assert!(select_satisfied(3, &[1, 2, 3]));
    assert!(!select_satisfied(4, &[1, 2, 3]));
    assert!(!select_satisfied(0, &[1, 2, 3]));
    assert!(select_satisfied(2, &[2, 2]));
}

#[test]
fn select_refuses_an_empty_list() {
    let curve = CurveId::Odd;
    let mut prover = Prover::new(odd_point(3), odd_point(5));
    let (_, x_var) = prover.commit(Scalar::from_u64(curve, 1), Scalar::from_u64(curve, 2));
    let r = select(&mut prover, var(curve, x_var), Vec::new());
    assert_eq!(r, Err(GadgetError::PreconditionViolation));
    assert_eq!(prover.constraints.len(), 0);
    assert_eq!(prover.left.len(), 0);
    let mut verifier = Verifier::new(curve);
    let r = select(&mut verifier, var(curve, x_var), Vec::new());
    assert_eq!(r, Err(GadgetError::PreconditionViolation));
    assert_eq!(verifier.constraints.len(), 0);
}

#[test]
fn select_on_one_entry_costs_no_gate() {
    let curve = CurveId::Even;
    let mut verifier = Verifier::new(curve);
    let xs = verifier.commit_vec(1, even_point(9));
    let x = verifier.commit(even_point(10));
    let r = select(&mut verifier, var(curve, x), vec![var(curve, xs[0])]);
    assert_eq!(r, Ok(()));
    assert_eq!(verifier.gate_count, 0);
    assert_eq!(verifier.constraints.len(), 1);
}

fn empty_roundtrip(c2: u64, d1: u64, d2: u64) -> bool {
    let curve = CurveId::Even;
    let gens = gens_of(curve, 8);
    let mut prover = Prover::new(even_point(3), even_point(5));
    let (d1_comm, d1) = prover.commit(Scalar::from_u64(curve, d1), Scalar::from_u64(curve, 21));
    let (d2_comm, d2) = prover.commit(Scalar::from_u64(curve, d2), Scalar::from_u64(curve, 22));
    let (comm, _) = prover.commit_vec(&Vec::new(), Scalar::from_u64(curve, 23), &gens);
    veccom_empty_gadget(
        &mut prover,
        LinearCombination::constant(Scalar::from_u64(curve, c2)),
        var(curve, d1),
        var(curve, d2),
    );
    let mut verifier = Verifier::new(curve);
    let d1 = verifier.commit(d1_comm);
    let d2 = verifier.commit(d2_comm);
    let _ = verifier.commit_vec(0, comm);
    veccom_empty_gadget(
        &mut verifier,
        LinearCombination::constant(Scalar::from_u64(curve, c2)),
        var(curve, d1),
        var(curve, d2),
    );
    assert_eq!(verifier.constraints.len(), prover.constraints.len());
    prover.is_satisfied()
}

fn vector_roundtrip(non_trivial: bool, a: [u64; 5], d1: u64, d2: u64) -> bool {
    let curve = CurveId::Even;
    let gens = gens_of(curve, 8);
    let mut prover = Prover::new(even_point(3), even_point(5));
    let (d1_comm, d1) = prover.commit(Scalar::from_u64(curve, d1), Scalar::from_u64(curve, 21));
    let (d2_comm, d2) = prover.commit(Scalar::from_u64(curve, d2), Scalar::from_u64(curve, 22));
    let values: Vec<Scalar> = a.iter().map(|v| Scalar::from_u64(curve, *v)).collect();
    let (comm, vars) = prover.commit_vec(&values, Scalar::from_u64(curve, 23), &gens);
    if non_trivial {
        veccom_non_trivial_gadget(
            &mut prover,
            var(curve, vars[0]),
            var(curve, vars[1]),
            var(curve, vars[2]),
            var(curve, vars[3]),
            var(curve, vars[4]),
            var(curve, d1),
            var(curve, d2),
        );
    } else {
        veccom_do_nothing_gadget(
            &mut prover,
            var(curve, vars[0]),
            var(curve, vars[1]),
            var(curve, vars[2]),
            var(curve, vars[3]),
            var(curve, vars[4]),
            var(curve, d1),
            var(curve, d2),
        );
    }
    let mut verifier = Verifier::new(curve);
    let d1 = verifier.commit(d1_comm);
    let d2 = verifier.commit(d2_comm);
    let vars = verifier.commit_vec(5, comm);
    if non_trivial {
        veccom_non_trivial_gadget(
            &mut verifier,
            var(curve, vars[0]),
            var(curve, vars[1]),
            var(curve, vars[2]),
            var(curve, vars[3]),
            var(curve, vars[4]),
            var(curve, d1),
            var(curve, d2),
        );
    } else {
        veccom_do_nothing_gadget(
            &mut verifier,
            var(curve, vars[0]),
            var(curve, vars[1]),
            var(curve, vars[2]),
            var(curve, vars[3]),
            var(curve, vars[4]),
            var(curve, d1),
            var(curve, d2),
        );
    }
    assert_eq!(verifier.constraints.len(), prover.constraints.len());
    assert_eq!(verifier.gate_count, 0);
    prover.is_satisfied()
}

#[test]
fn r1cs_vec_test() {
    assert!(empty_roundtrip(9, 4, 4));
    assert!(!empty_roundtrip(10, 5, 4));
    assert!(vector_roundtrip(false, [1, 2, 3, 4, 5], 4, 4));
    assert!(!vector_roundtrip(false, [1, 2, 3, 4, 5], 5, 4));
    assert!(vector_roundtrip(true, [5, 5, 5, 15, 7], 37, 37));
    assert!(!vector_roundtrip(true, [1, 2, 3, 4, 5], 5, 4));
}

#[test]
fn non_trivial_gadget_rejects_each_single_change() {
    assert!(vector_roundtrip(true, [5, 5, 5, 15, 7], 37, 37));
    assert!(!vector_roundtrip(true, [6, 5, 5, 15, 7], 37, 37));
    assert!(!vector_roundtrip(true, [5, 6, 5, 15, 7], 37, 37));
    assert!(!vector_roundtrip(true, [5, 5, 6, 15, 7], 37, 37));
    assert!(!vector_roundtrip(true, [5, 5, 5, 16, 7], 37, 37));
    assert!(!vector_roundtrip(true, [5, 5, 5, 15, 8], 37, 37));
    assert!(!vector_roundtrip(true, [5, 5, 5, 15, 7], 38, 37));
    assert!(!vector_roundtrip(true, [5, 5, 5, 15, 7], 37, 38));
    assert!(vector_roundtrip(true, [0, 0, 0, 0, 0], 0, 0));
}

#[test]
fn scalar_arithmetic_is_that_of_the_field() {
    for curve in [CurveId::Even, CurveId::Odd] {
        let two = Scalar::from_u64(curve, 2);
        let three = Scalar::from_u64(curve, 3);
        assert!(two.add(&three).same(&Scalar::from_u64(curve, 5)));
        assert!(two.mul(&three).same(&Scalar::from_u64(curve, 6)));
        assert!(Scalar::minus_one(curve).add(&Scalar::one(curve)).is_zero());
        assert!(Scalar::minus_one(curve)
            .mul(&Scalar::minus_one(curve))
            .same(&Scalar::one(curve)));
        let half = two.inverse().unwrap();
        assert!(!half.same(&two));
        assert!(half.mul(&two).same(&Scalar::one(curve)));
        assert!(Scalar::zero(curve).inverse().is_none());
        assert!(Scalar::from_u64(curve, 4).is_square());
        assert!(!Scalar::zero(curve).is_square());
        assert!(Scalar::from_le_bytes_mod_order(curve, &[1, 1]).same(&Scalar::from_u64(curve, 257)));
    }
    assert_eq!(
        Scalar::minus_one(CurveId::Even).limbs,
        (-ark_pallas::Fr::from(1u64)).into_repr().0
    );
    assert_eq!(
        Scalar::minus_one(CurveId::Odd).limbs,
        (-ark_vesta::Fr::from(1u64)).into_repr().0
    );
    assert!(!Scalar::from_u64(CurveId::Even, 5).is_square());
}

#[test]
fn a_wide_byte_string_is_reduced_by_the_order() {
    let bytes = [0xffu8; 40];
    let odd = Scalar::from_le_bytes_mod_order(CurveId::Odd, &bytes);
    assert_eq!(odd.limbs, ark_vesta::Fr::from_le_bytes_mod_order(&bytes).into_repr().0);
    let even = Scalar::from_le_bytes_mod_order(CurveId::Even, &bytes);
    assert_eq!(even.limbs, ark_pallas::Fr::from_le_bytes_mod_order(&bytes).into_repr().0);
    assert!(!odd.same(&even));
}

#[test]
fn random_scalars_are_canonical() {
    let mut rng = StdRng::seed_from_u64(7);
    for _ in 0..50 {
        let a = Scalar::random(CurveId::Even, &mut rng);
        let b = Scalar::random(CurveId::Odd, &mut rng);
        assert!(is_canonical(&a));
        assert!(is_canonical(&b));
        assert_eq!(a.curve, CurveId::Even);
        assert_eq!(b.curve, CurveId::Odd);
    }
}

#[test]
fn point_arithmetic_is_that_of_the_curve() {
    for curve in [CurveId::Even, CurveId::Odd] {
        let g = point_of(curve, 1);
        assert!(g.add(&g).same(&point_of(curve, 2)));
        assert!(!g.add(&g).same(&g));
        assert!(g.mul(&Scalar::from_u64(curve, 6)).same(&point_of(curve, 6)));
        assert!(point_of(curve, 2).add(&point_of(curve, 3)).same(&point_of(curve, 5)));
        assert!(g.mul(&Scalar::zero(curve)).infinity);
        assert!(g.mul(&Scalar::minus_one(curve)).add(&g).infinity);
    }
}

#[test]
fn a_point_is_encoded_by_its_limbs() {
    let p = even_point(12);
    let bytes = encode_point(&p);
    assert_eq!(bytes.len(), 65);
    let mut expected = Vec::new();
    for limb in p.x.iter().chain(p.y.iter()) {
        expected.extend_from_slice(&limb.to_le_bytes());
    }
    expected.push(0);
    assert_eq!(bytes, expected);
    let zero = even_point(0);
    assert!(zero.infinity);
    assert_eq!(encode_point(&zero)[64], 1);
}

#[test]
fn element_from_bytes_reduces_the_whole_wide_digest() {
    // SHA3-512 of the empty string, all 64 bytes
    let digest: [u8; 64] = [
        0xa6, 0x9f, 0x73, 0xcc, 0xa2, 0x3a, 0x9a, 0xc5, 0xc8, 0xb5, 0x67, 0xdc, 0x18, 0x5a, 0x75, 0x6e,
        0x97, 0xc9, 0x82, 0x16, 0x4f, 0xe2, 0x58, 0x59, 0xe0, 0xd1, 0xdc, 0xc1, 0x47, 0x5c, 0x80, 0xa6,
        0x15, 0xb2, 0x12, 0x3a, 0xf1, 0xf5, 0xf9, 0x4c, 0x11, 0xe3, 0xe9, 0x40, 0x2c, 0x3a, 0xc5, 0x58,
        0xf5, 0x00, 0x19, 0x9d, 0x95, 0xb6, 0xd3, 0xe3, 0x01, 0x75, 0x85, 0x86, 0x28, 0x1d, 0xcd, 0x26,
    ];
    let odd = element_from_bytes_stat(CurveId::Odd, &[]);
    assert_eq!(odd.limbs, [0x36a9741e92ea72c2, 0xd4dd9dfb37c95a62, 0x87ca3bad08265f8c, 0x0ace655f844ec1c8]);
    assert_eq!(odd.limbs, ark_vesta::Fr::from_le_bytes_mod_order(&digest).into_repr().0);
    let even = element_from_bytes_stat(CurveId::Even, &[]);
    assert_eq!(even.limbs, [0x9b38498dbcd871fc, 0xae6ff2444dc9bf6f, 0x5e1217f9f8e3f199, 0x00df01488cb59a37]);
    // the first half of the digest alone gives another scalar
    assert_ne!(odd.limbs, ark_vesta::Fr::from_le_bytes_mod_order(&digest[..32]).into_repr().0);
    let other = element_from_bytes_stat(CurveId::Odd, &[0]);
    assert!(!odd.same(&other));
    assert!(is_canonical(&other));
}

#[test]
fn the_hash_of_a_value_commitment_carries_its_tag() {
    let (_, _, _, _, output) = minted(50, 11);
    let hash = output.hash_of_value_commitment();
    let encoding = encode_point(&output.value_commitment);
    let mut tagged = b"value-commitment".to_vec();
    assert_eq!(tagged, tag_bytes());
    tagged.extend_from_slice(&encoding);
    assert!(hash.same(&element_from_bytes_stat(CurveId::Odd, &tagged)));
    assert!(!hash.same(&element_from_bytes_stat(CurveId::Odd, &encoding)));
}

#[test]
fn commitments_are_sums_of_multiples() {
    let curve = CurveId::Even;
    let p = parameters();
    let gens = &p.c0_parameters.gens;
    let h = p.c0_parameters.b_blinding;
    let values = vec![Scalar::from_u64(curve, 2), Scalar::from_u64(curve, 3)];
    let c = commit_to(&values, &Scalar::from_u64(curve, 4), gens, &h);
    // 4 * 5 + 2 * 1000 + 3 * 1001 multiples of the generator
    assert!(c.same(&even_point(20 + 2000 + 3003)));
    let mut prover = Prover::new(p.c0_parameters.b, h);
    let (single, v) = prover.commit(Scalar::from_u64(curve, 10), Scalar::from_u64(curve, 6));
    assert!(single.same(&even_point(30 + 30)));
    assert_eq!(v, Variable::Committed(0));
    let (vector, vars) = prover.commit_vec(&values, Scalar::from_u64(curve, 4), gens);
    assert!(vector.same(&c));
    assert_eq!(vars, vec![Variable::Committed(1), Variable::Committed(2)]);
    assert!(prover.value_of(Variable::Committed(2)).same(&Scalar::from_u64(curve, 3)));
    assert!(prover.value_of(Variable::Committed(3)).is_zero());
    assert!(prover.value_of(Variable::One).same(&Scalar::one(curve)));
}

#[test]
fn multiply_records_the_product() {
    let curve = CurveId::Even;
    let mut prover = Prover::new(even_point(3), even_point(5));
    let (_, a) = prover.commit(Scalar::from_u64(curve, 6), Scalar::from_u64(curve, 1));
    let (_, b) = prover.commit(Scalar::from_u64(curve, 7), Scalar::from_u64(curve, 2));
    let (l, r, o) = prover.multiply(&var(curve, a), &var(curve, b));
    assert_eq!(l, Variable::MultiplierLeft(0));
    assert_eq!(r, Variable::MultiplierRight(0));
    assert_eq!(o, Variable::MultiplierOutput(0));
    assert!(prover.value_of(o).same(&Scalar::from_u64(curve, 42)));
    assert!(prover.is_satisfied());
    let forty_two = LinearCombination::constant(Scalar::from_u64(curve, 42));
    prover.constrain(var(curve, o).minus(&forty_two, curve));
    assert!(prover.is_satisfied());
    let sum = var(curve, a).plus(&var(curve, b));
    assert!(prover.evaluate(&sum).same(&Scalar::from_u64(curve, 13)));
    let scaled = sum.scaled(&Scalar::from_u64(curve, 3));
    assert!(prover.evaluate(&scaled).same(&Scalar::from_u64(curve, 39)));
    prover.constrain(var(curve, o));
    assert!(!prover.is_satisfied());
}

#[test]
fn mint_commits_the_value_under_the_coin_blinding() {
    let p = parameters();
    let mut rng = StdRng::seed_from_u64(3);
    let (_, pk) = keys(Scalar::from_u64(CurveId::Odd, 99), Scalar::from_u64(CurveId::Odd, 5), &p);
    let mut prover = Prover::new(p.c0_parameters.b, p.c0_parameters.b_blinding);
    let (coin, output, variable, range) = Coin::mint(1234, &pk, &p, &mut rng, &mut prover);
    assert_eq!(coin.value, 1234);
    assert_eq!(variable, Variable::Committed(0));
    assert_eq!(range.variable, variable);
    assert_eq!(range.value, Some(1234));
    assert_eq!(range.bits, 64);
    assert_eq!(VALUE_BITS, 64);
    assert!(prover.commitments[0].same(&output.value_commitment));
    assert!(prover.value_of(variable).same(&Scalar::from_u64(CurveId::Even, 1234)));
    let expected = commit_to(
        &vec![Scalar::from_u64(CurveId::Even, 1234)],
        &coin.value_randomness,
        &p.c0_parameters.gens,
        &p.c0_parameters.b_blinding,
    );
    assert!(output.value_commitment.same(&expected));
    let expected_pk = Coin::rerandomized_pk(&pk, &coin.pk_randomness, &p);
    assert!(output.public_key.same(&expected_pk.0));
    assert!(!output.public_key.same(&pk.0));

    let mut verifier = Verifier::new(CurveId::Even);
    let (v, request) = verify_mint(&mut verifier, output.value_commitment);
    assert_eq!(v, Variable::Committed(0));
    assert_eq!(request.variable, v);
    assert_eq!(request.value, None);
    assert_eq!(request.bits, 64);
    assert_eq!(verifier.committed, 1);
    assert_eq!(prover.committed.len(), 1);
}

#[test]
fn rerandomized_pk_adds_a_multiple_of_the_blinding_generator() {
    let p = parameters();
    let pk = PublicKey(odd_point(40));
    let r = Coin::rerandomized_pk(&pk, &Scalar::from_u64(CurveId::Odd, 4), &p);
    assert!(r.0.same(&odd_point(60)));
    let same = Coin::rerandomized_pk(&pk, &Scalar::zero(CurveId::Odd), &p);
    assert!(same.0.same(&pk.0));
}

fn minted(value: u64, seed: u64) -> (SelRerandParameters, SecretKey, PublicKey, Coin, MintingOutput) {
    let p = parameters();
    let (sk, pk) = keys(
        Scalar::from_u64(CurveId::Odd, 99),
        Scalar::from_u64(CurveId::Odd, 5),
        &p,
    );
    let mut rng = StdRng::seed_from_u64(seed);
    let (coin, output) = Coin::new(value, &pk, &p, &mut rng);
    (p, sk, pk, coin, output)
}

#[test]
fn combining_is_deterministic_and_permissible() {
    let (p, _, _, _, output) = minted(50, 11);
    let test = oracle();
    let first = output.combine_into_permissible(&p, &test).unwrap();
    let second = output.combine_into_permissible(&p, &test).unwrap();
    assert!(first.permissible_coin.same(&second.permissible_coin));
    assert!(first.permissible_pk.same(&second.permissible_pk));
    assert!(first.r_permissible_coin.same(&second.r_permissible_coin));
    assert!(first.r_permissible_pk.same(&second.r_permissible_pk));
    assert!(test.is_representable(&first.permissible_coin));
    assert!(test.is_representable(&first.permissible_pk));

    let hash = output.hash_of_value_commitment();
    let pre_pk = output.public_key.add(&p.c1_parameters.b.mul(&hash));
    let padded_pk = pre_pk.add(&p.c1_parameters.b_blinding.mul(&first.r_permissible_pk));
    assert!(padded_pk.same(&first.permissible_pk));
    let pk_x = first.permissible_pk.x_as_scalar();
    let pre_coin = output.value_commitment.add(&p.c0_parameters.gens[1].mul(&pk_x));
    let padded_coin = pre_coin.add(&p.c0_parameters.b_blinding.mul(&first.r_permissible_coin));
    assert!(padded_coin.same(&first.permissible_coin));
}

#[test]
fn padding_search_stops_at_the_first_representable_candidate() {
    let p = parameters();
    let test = oracle();
    let h = p.c0_parameters.b_blinding;
    let c = even_point(31);
    let (found, r) = permissible_commitment(&test, &c, &h).unwrap();
    assert!(test.is_representable(&found));
    assert!(r.limbs[0] < MAX_PADDING_ATTEMPTS);
    let mut candidate = c;
    for _ in 0..r.limbs[0] {
        assert!(!test.is_representable(&candidate));
        candidate = candidate.add(&h);
    }
    assert!(candidate.same(&found));
}

#[test]
fn padding_search_gives_up() {
    let (p, _, _, _, output) = minted(50, 11);
    let none = never();
    assert_eq!(
        permissible_commitment(&none, &even_point(31), &p.c0_parameters.b_blinding).err(),
        Some(CoinError::NotPermissible)
    );
    assert_eq!(
        output.combine_into_permissible(&p, &none).err(),
        Some(CoinError::NotPermissible)
    );
    assert_eq!(MAX_PADDING_ATTEMPTS, 256);
}

fn spending_info(
    sk: SecretKey,
    _pk: PublicKey,
    coin: Coin,
    output: MintingOutput,
    combined: PermissibleCoin,
) -> SpendingInfo {
    SpendingInfo {
        index: 0,
        coin_aux: coin,
        minting_output: output,
        combined_coin: combined,
        randomized_pk: PublicKey(output.public_key),
        sk: SecretKey { prf_key: sk.prf_key, randomness: sk.randomness },
    }
}

fn path_for(p: &SelRerandParameters, combined: &PermissibleCoin, rerandomization: &Scalar) -> SelectAndRerandomizePath {
    let leaf = combined
        .permissible_coin
        .add(&p.c0_parameters.b_blinding.mul(rerandomization));
    SelectAndRerandomizePath {
        even_commitments: vec![even_point(77), leaf],
        odd_commitments: vec![odd_point(78)],
    }
}

fn provers(p: &SelRerandParameters) -> (Prover, Prover) {
    (
        Prover::new(p.c0_parameters.b, p.c0_parameters.b_blinding),
        Prover::new(p.c1_parameters.b, p.c1_parameters.b_blinding),
    )
}

#[test]
fn a_minted_coin_can_be_spent() {
    let (p, sk, pk, coin, output) = minted(50, 21);
    let combined = output.combine_into_permissible(&p, &oracle()).unwrap();
    let rerandomization = Scalar::from_u64(CurveId::Even, 4242);
    let path = path_for(&p, &combined, &rerandomization);
    let (mut even, mut odd) = provers(&p);
    let mut rng = StdRng::seed_from_u64(5);
    let info = spending_info(sk, pk, coin, output, combined);
    let out = info
        .prove_spend(&mut even, &mut odd, &p, &path, rerandomization, &mut rng)
        .unwrap();
    assert_eq!(out.value_variable, Variable::Committed(0));
    assert!(even.value_of(out.value_variable).same(&Scalar::from_u64(CurveId::Even, 50)));
    assert_eq!(out.rerandomize.variable, Variable::Committed(1));
    assert!(even
        .value_of(out.rerandomize.variable)
        .same(&combined.permissible_pk.x_as_scalar()));
    assert!(even.commitments[0].same(&path.even_commitments[1]));
    assert!(odd.commitments[0].same(&out.rerandomize.rerandomized_public_key));
    assert!(odd.commitments[1].same(&out.spending_tag));
    let x = sk.prf_key.add(&output.hash_of_value_commitment());
    let tag = p.c1_parameters.b.mul(&x.inverse().unwrap());
    assert!(out.spending_tag.same(&tag));
}

#[test]
fn spending_twice_gives_the_same_tag_and_other_coins_other_tags() {
    let (p, sk, pk, coin, output) = minted(50, 21);
    let combined = output.combine_into_permissible(&p, &oracle()).unwrap();
    let mut tags = Vec::new();
    for (seed, rerandomization) in [(1u64, 10u64), (2, 20)] {
        let rerandomization = Scalar::from_u64(CurveId::Even, rerandomization);
        let path = path_for(&p, &combined, &rerandomization);
        let (mut even, mut odd) = provers(&p);
        let mut rng = StdRng::seed_from_u64(seed);
        let info = spending_info(sk, pk, coin, output, combined);
        let out = info
            .prove_spend(&mut even, &mut odd, &p, &path, rerandomization, &mut rng)
            .unwrap();
        tags.push(out.spending_tag);
    }
    assert!(tags[0].same(&tags[1]));

    let (params, other_sk, other_pk, other_coin, other_output) = minted(51, 22);
    assert!(!other_output.value_commitment.same(&output.value_commitment));
    let other_combined = other_output.combine_into_permissible(&params, &oracle()).unwrap();
    let rerandomization = Scalar::from_u64(CurveId::Even, 10);
    let path = path_for(&params, &other_combined, &rerandomization);
    let (mut even, mut odd) = provers(&params);
    let mut rng = StdRng::seed_from_u64(1);
    let out = spending_info(other_sk, other_pk, other_coin, other_output, other_combined)
        .prove_spend(&mut even, &mut odd, &params, &path, rerandomization, &mut rng)
        .unwrap();
    assert!(!out.spending_tag.same(&tags[0]));
}

#[test]
fn a_coin_that_is_not_on_the_path_is_refused() {
    let (p, sk, pk, coin, output) = minted(50, 21);
    let combined = output.combine_into_permissible(&p, &oracle()).unwrap();
    let rerandomization = Scalar::from_u64(CurveId::Even, 4242);
    let fresh = Scalar::from_u64(CurveId::Odd, 8);

    let (mut even, mut odd) = provers(&p);
    let wrong = path_for(&p, &combined, &Scalar::from_u64(CurveId::Even, 4243));
    let r = spending_info(sk, pk, coin, output, combined)
        .prove_spend_with(&mut even, &mut odd, &p, &wrong, rerandomization, fresh);
    assert_eq!(r.err(), Some(CoinError::PathMismatch));

    let (mut even, mut odd) = provers(&p);
    let mut short = path_for(&p, &combined, &rerandomization);
    short.even_commitments.truncate(1);
    let r = spending_info(sk, pk, coin, output, combined)
        .prove_spend_with(&mut even, &mut odd, &p, &short, rerandomization, fresh);
    assert_eq!(r.err(), Some(CoinError::PathMismatch));

    let (mut even, mut odd) = provers(&p);
    let good = path_for(&p, &combined, &rerandomization);
    let mut other_value = coin;
    other_value.value = 51;
    let r = spending_info(sk, pk, other_value, output, combined)
        .prove_spend_with(&mut even, &mut odd, &p, &good, rerandomization, fresh);
    assert_eq!(r.err(), Some(CoinError::PathMismatch));
}

#[test]
fn a_wrong_secret_key_is_refused() {
    let (p, sk, pk, coin, output) = minted(50, 21);
    let combined = output.combine_into_permissible(&p, &oracle()).unwrap();
    let rerandomization = Scalar::from_u64(CurveId::Even, 4242);
    let path = path_for(&p, &combined, &rerandomization);
    let (mut even, mut odd) = provers(&p);
    let wrong = SecretKey { prf_key: sk.prf_key, randomness: Scalar::from_u64(CurveId::Odd, 6) };
    let r = spending_info(wrong, pk, coin, output, combined).prove_spend_with(
        &mut even,
        &mut odd,
        &p,
        &path,
        rerandomization,
        Scalar::from_u64(CurveId::Odd, 8),
    );
    assert_eq!(r.err(), Some(CoinError::OwnershipMismatch));
}

#[test]
fn a_coin_whose_ownership_scalar_is_zero_cannot_be_spent() {
    let p = parameters();
    // The value commitment, and with it the hash, is fixed first; the key is
    // then chosen as the additive inverse of the hash.
    let value_randomness = Scalar::from_u64(CurveId::Even, 31);
    let pk_randomness = Scalar::from_u64(CurveId::Odd, 32);
    let probe = PublicKey(odd_point(1));
    let (_, probe_output) = Coin::with_randomness(50, &probe, &p, pk_randomness, value_randomness);
    let hash = probe_output.hash_of_value_commitment();
    let prf_key = Scalar::minus_one(CurveId::Odd).mul(&hash);
    assert!(prf_key.add(&hash).is_zero());
    let (sk, pk) = keys(prf_key, Scalar::from_u64(CurveId::Odd, 5), &p);
    let (coin, output) = Coin::with_randomness(50, &pk, &p, pk_randomness, value_randomness);
    assert!(output.value_commitment.same(&probe_output.value_commitment));
    let combined = output.combine_into_permissible(&p, &oracle()).unwrap();
    let rerandomization = Scalar::from_u64(CurveId::Even, 4242);
    let path = path_for(&p, &combined, &rerandomization);
    let (mut even, mut odd) = provers(&p);
    let r = spending_info(sk, pk, coin, output, combined).prove_spend_with(
        &mut even,
        &mut odd,
        &p,
        &path,
        rerandomization,
        Scalar::from_u64(CurveId::Odd, 8),
    );
    assert_eq!(r.err(), Some(CoinError::UnspendableCoin));
}

#[test]
fn round_trips_hold_over_many_random_inputs() {
    let mut rng = StdRng::seed_from_u64(2024);
    let curve = CurveId::Even;
    let b = even_point(3);
    let h = even_point(5);
    let small = |rng: &mut StdRng| Scalar::random(CurveId::Even, rng).limbs[0] % 4;
    for _ in 0..1000 {
        // selection over three entries
        let xs: Vec<u64> = (0..3).map(|_| small(&mut rng)).collect();
        let x = small(&mut rng);
        let mut prover = Prover::new(b, h);
        let values: Vec<Scalar> = xs.iter().map(|v| Scalar::from_u64(curve, *v)).collect();
        let mut committed = Vec::new();
        for v in values.iter() {
            prover.committed.push(*v);
            committed.push(Variable::Committed(prover.committed.len() - 1));
        }
        prover.committed.push(Scalar::from_u64(curve, x));
        let x_var = Variable::Committed(3);
        let r = select(
            &mut prover,
            var(curve, x_var),
            committed.into_iter().map(|v| var(curve, v)).collect(),
        );
        assert_eq!(r, Ok(()));
        assert_eq!(prover.is_satisfied(), xs.contains(&x));

        // the linear relations
        let a: Vec<u64> = (0..5).map(|_| small(&mut rng)).collect();
        let d1 = small(&mut rng) + 3 * a[0];
        let d2 = small(&mut rng) + 3 * a[0];
        let mut prover = Prover::new(b, h);
        for v in a.iter().chain([d1, d2].iter()) {
            prover.committed.push(Scalar::from_u64(curve, *v));
        }
        let lc = |i: usize| var(curve, Variable::Committed(i));
        veccom_non_trivial_gadget(&mut prover, lc(0), lc(1), lc(2), lc(3), lc(4), lc(5), lc(6));
        let expected = a[0] == a[1]
            && a[1] == a[2]
            && a[3] == a[0] + a[1] + a[2]
            && d1 == a[0] + a[1] + a[2] + a[3] + a[4]
            && d1 == d2;
        assert_eq!(prover.is_satisfied(), expected);
    }
}

fn product_roundtrip(a: [u64; 2], b: [u64; 2], c: [u64; 2]) -> bool {
    let curve = CurveId::Even;
    let gens = gens_of(curve, 6);
    let mut prover = Prover::new(even_point(3), even_point(5));
    let values: Vec<Scalar> = a
        .iter()
        .chain(b.iter())
        .chain(c.iter())
        .map(|v| Scalar::from_u64(curve, *v))
        .collect();
    let (comm, vars) = prover.commit_vec(&values, Scalar::from_u64(curve, 23), &gens);
    veccom_product_gadget(
        &mut prover,
        var(curve, vars[0]),
        var(curve, vars[1]),
        var(curve, vars[2]),
        var(curve, vars[3]),
        var(curve, vars[4]),
        var(curve, vars[5]),
    );
    assert_eq!(prover.left.len(), 1);
    assert!(prover.left[0].same(&Scalar::from_u64(curve, a[0] + a[1])));
    assert!(prover.right[0].same(&Scalar::from_u64(curve, b[0] + b[1])));
    let mut verifier = Verifier::new(curve);
    let vars = verifier.commit_vec(6, comm);
    veccom_product_gadget(
        &mut verifier,
        var(curve, vars[0]),
        var(curve, vars[1]),
        var(curve, vars[2]),
        var(curve, vars[3]),
        var(curve, vars[4]),
        var(curve, vars[5]),
    );
    assert_eq!(verifier.gate_count, 1);
    assert_eq!(verifier.constraints.len(), 3);
    assert_eq!(verifier.constraints.len(), prover.constraints.len());
    prover.is_satisfied()
}

#[test]
fn product_gadget_costs_one_gate_and_checks_the_product() {
    // (3 + 4) * (6 + 1) = (40 + 9)
    assert!(product_roundtrip([3, 4], [6, 1], [40, 9]));
    // (3 + 4) * (6 + 1) != (40 + 10)
    assert!(!product_roundtrip([3, 4], [6, 1], [40, 10]));
    assert!(product_roundtrip([0, 0], [6, 1], [0, 0]));
    assert!(!product_roundtrip([3, 5], [6, 1], [40, 9]));
}
