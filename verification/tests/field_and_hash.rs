use ark_bn254::Fr;
use ark_ff::{BigInt, Field, PrimeField};
use crypto::field::Scalar;
use crypto::mimc7::{get_nf, mimc7, nullifier, MIMC7_ROUNDS};
use crypto::protocol::{format_fr, get_random_values, scalars_from_u64};
use ark_std::rand::{rngs::StdRng, Rng, SeedableRng};

const MODULUS: [u64; 4] = [
    0x43e1f593f0000001,
    0x2833e84879b97091,
    0xb85045b68181585d,
    0x30644e72e131a029,
];

fn minus_one() -> [u64; 4] {
    let mut l = MODULUS;
    l[0] -= 1;
    l
}

fn ark(s: &Scalar) -> Fr {
    Fr::from_bigint(BigInt(s.to_limbs())).unwrap()
}

fn round_keys() -> Vec<Scalar> {
    (0..MIMC7_ROUNDS as u64).map(|i| Scalar::from_u64(3 * i + 1)).collect()
}

#[test]
fn scalar_from_limbs_accepts_below_modulus_only() {
    assert!(Scalar::from_limbs(MODULUS).is_none());
    let m1 = Scalar::from_limbs(minus_one()).unwrap();
    assert_eq!(m1.to_limbs(), minus_one());
    assert_eq!(Scalar::from_limbs([7, 0, 0, 0]).unwrap(), Scalar::from_u64(7));
    assert!(Scalar::from_limbs([u64::MAX; 4]).is_none());
}

#[test]
fn scalar_arithmetic_wraps_at_modulus() {
    let m1 = Scalar::from_limbs(minus_one()).unwrap();
    assert_eq!(m1.add(&Scalar::from_u64(2)), Scalar::one());
    assert_eq!(m1.mul(&m1), Scalar::one());
    assert_eq!(Scalar::from_u64(6).mul(&Scalar::from_u64(7)), Scalar::from_u64(42));
    assert_eq!(Scalar::from_u64(40).add(&Scalar::from_u64(2)), Scalar::from_u64(42));
    assert_eq!(Scalar::zero().to_limbs(), [0, 0, 0, 0]);
    assert_eq!(Scalar::one().to_limbs(), [1, 0, 0, 0]);
}

#[test]
fn format_fr_keeps_canonical_limbs() {
    let l = [0x1234, 0x5678, 0x9abc, 0x0fff_ffff];
    assert_eq!(format_fr(l), l);
    assert_eq!(format_fr(minus_one()), minus_one());
    let mut rng = StdRng::seed_from_u64(1);
    let r = get_random_values(&mut rng);
    assert!(Scalar::from_limbs(r).is_some());
    assert_eq!(format_fr(r), r);
}

#[test]
fn scalars_from_u64_keeps_values() {
    let v = scalars_from_u64(&[0, 2, u64::MAX]);
    assert_eq!(v.len(), 3);
    assert_eq!(v[1], Scalar::from_u64(2));
    assert_eq!(v[2].to_limbs(), [u64::MAX, 0, 0, 0]);
}

#[test]
fn mimc7_matches_seventh_power_rounds() {
    let keys = round_keys();
    let x = Scalar::from_u64(11);
    let k = Scalar::from_u64(5);
    let got = mimc7(&x, &k, &keys);
    let (ax, ak) = (ark(&x), ark(&k));
    let mut cur = ax;
    for i in 0..MIMC7_ROUNDS {
        let s = cur + ak + ark(&keys[i]);
        cur = s.pow([7u64]);
    }
    let expected = cur + (ax + ak + ak);
    assert_eq!(got.to_limbs(), expected.into_bigint().0);
    let single = (ax + ak + ark(&keys[0])).square();
    assert_ne!(got.to_limbs(), single.into_bigint().0);
}

#[test]
fn nullifier_is_hash_of_hash() {
    let keys = round_keys();
    let sk = Scalar::from_u64(99);
    let x = Scalar::from_u64(17);
    let y = Scalar::from_u64(23);
    let inner = mimc7(&x, &y, &keys);
    let expected = mimc7(&inner, &sk, &keys);
    assert_eq!(nullifier(&sk, &x, &y, &keys), expected);
    assert_eq!(get_nf(sk.to_limbs(), x.to_limbs(), y.to_limbs(), &keys), expected.to_limbs());
    assert_ne!(nullifier(&sk, &y, &x, &keys), expected);
}

#[test]
fn format_over_bn254() {
    let mut rng = ark_std::test_rng();
    let mut test_val: [u64; 4] = [0; 4];
    for i in 0..4 {
        test_val[i] = rng.gen();
        while i == 3 && test_val[i] > 1u64 << 62 {
            test_val[i] = rng.gen();
        }
    }
    println!("[Val] {:#?}", test_val);
    // Limbs at or above the modulus are refused before formatting.
    match Scalar::from_limbs(test_val) {
        Some(_) => {
            let formatted_val = format_fr(test_val);
            println!("[Val] {:#?}", formatted_val);
            assert_eq!(formatted_val, test_val);
        }
        None => assert!(test_val[3] >= MODULUS[3]),
    }
}
