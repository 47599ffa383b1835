use crypto::circuit::{Circuit, DPPCircuit, TradeCircuit};
use crypto::field::Scalar;
use crypto::mimc7::MIMC7_ROUNDS;
use crypto::utils::parse_prime_fields;

#[test]
fn parse_prime_fields_skips_bad_pieces() {
    let v = parse_prime_fields("1,2,x,3");
    assert_eq!(v, vec![Scalar::from_u64(1), Scalar::from_u64(2), Scalar::from_u64(3)]);
    assert!(parse_prime_fields("").is_empty());
    assert_eq!(parse_prime_fields("12,,7"), vec![Scalar::from_u64(12), Scalar::from_u64(7)]);
    assert_eq!(parse_prime_fields(" 5,6"), vec![Scalar::from_u64(6)]);
}

#[test]
fn parse_prime_fields_reduces_modulo_the_field_order() {
    let v = parse_prime_fields(
        "21888242871839275222246405745257275088548364400416034343698204186575808495618",
    );
    assert_eq!(v, vec![Scalar::from_u64(1)]);
}

#[test]
fn circuits_constructors() {
    let c = DPPCircuit::mock(3, vec![Scalar::from_u64(1); 3]);
    assert_eq!(c.attr.unwrap(), vec![Scalar::zero(); 3]);
    assert_eq!(c.chk1.unwrap(), vec![false; 3]);
    assert_eq!(c.len, 3);
    let d = DPPCircuit::new(vec![Scalar::from_u64(2)], vec![Scalar::from_u64(1)], vec![true], 1);
    assert_eq!(d.chk1.unwrap(), vec![true]);
    let e = Circuit::mock(2);
    assert_eq!(e.cond.unwrap(), vec![Scalar::zero(); 2]);
    let f = Circuit::new(vec![], vec![], vec![], 0);
    assert_eq!(f.len, 0);
    let keys = vec![Scalar::one(); MIMC7_ROUNDS];
    let t = TradeCircuit::mock(4, Scalar::from_u64(8), keys.clone());
    assert_eq!(t.sk_s, Some(Scalar::zero()));
    assert_eq!(t.attr.unwrap().len(), 4);
    let u = TradeCircuit::new(vec![Scalar::one()], Scalar::from_u64(2), Scalar::from_u64(3), Scalar::from_u64(4), 1, keys);
    assert_eq!(u.cm_old, Some(Scalar::from_u64(3)));
    assert_eq!(u.nf, Scalar::from_u64(4));
}

#[test]
fn trade_circuit_satisfied_by_hash_of_old_commitment() {
    let keys: Vec<Scalar> = (0..MIMC7_ROUNDS as u64).map(Scalar::from_u64).collect();
    let sk = Scalar::from_u64(11);
    let cm = Scalar::from_u64(29);
    let nf = crypto::mimc7::mimc7(&cm, &sk, &keys);
    let good = TradeCircuit::new(vec![Scalar::one()], sk, cm, nf, 1, keys.clone());
    assert_eq!(good.is_satisfied(), Some(true));
    let bad = TradeCircuit::new(vec![Scalar::one()], sk, cm, nf.add(&Scalar::one()), 1, keys.clone());
    assert_eq!(bad.is_satisfied(), Some(false));
    let mut missing = good.clone();
    missing.sk_s = None;
    assert_eq!(missing.is_satisfied(), None);
    let mut no_attr = good;
    no_attr.attr = None;
    assert_eq!(no_attr.is_satisfied(), None);
}

fn half_plus_one() -> Scalar {
    Scalar::from_limbs([0xa1f0fac9f8000001, 0x9419f4243cdcb848, 0xdc2822db40c0ac2e, 0x183227397098d014]).unwrap()
}

#[test]
fn dpp_circuit_satisfied_when_checked_attributes_exceed_conditions() {
    let two = Scalar::from_u64(2);
    let good = DPPCircuit::new(vec![two, two], vec![Scalar::one(), Scalar::from_u64(3)], vec![true, false], 2);
    assert_eq!(good.is_satisfied(), Some(true));
    let bad = DPPCircuit::new(vec![two, two], vec![Scalar::one(), Scalar::from_u64(3)], vec![true, true], 2);
    assert_eq!(bad.is_satisfied(), Some(false));
    let equal = DPPCircuit::new(vec![two], vec![two], vec![true], 1);
    assert_eq!(equal.is_satisfied(), Some(false));
    let too_large = DPPCircuit::new(vec![half_plus_one()], vec![Scalar::one()], vec![false], 1);
    assert_eq!(too_large.is_satisfied(), Some(false));
    let mock = DPPCircuit::mock(3, vec![Scalar::from_u64(5); 3]);
    assert_eq!(mock.is_satisfied(), Some(true));
    let mut missing = good.clone();
    missing.chk1 = None;
    assert_eq!(missing.is_satisfied(), None);
}

#[test]
fn earlier_circuit_satisfaction() {
    let c = Circuit::new(vec![Scalar::from_u64(9)], vec![Scalar::from_u64(4)], vec![true], 1);
    assert_eq!(c.is_satisfied(), Some(true));
    let d = Circuit::new(vec![Scalar::from_u64(4)], vec![Scalar::from_u64(9)], vec![true], 1);
    assert_eq!(d.is_satisfied(), Some(false));
    let e = Circuit::new(vec![Scalar::one()], vec![half_plus_one()], vec![false], 1);
    assert_eq!(e.is_satisfied(), Some(false));
    assert_eq!(Circuit::mock(2).is_satisfied(), Some(true));
    let mut f = c.clone();
    f.cond = None;
    assert_eq!(f.is_satisfied(), None);
}
