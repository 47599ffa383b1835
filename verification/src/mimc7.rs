//! The MiMC7 keyed hash over the BN254 scalar field, as the trade circuit
//! enforces it, and the nullifier derived from it.
use vstd::prelude::*;

use crate::field::{fr_add, fr_mul, limbs_value, scalar_modulus, scalar_values, Scalar};
#[allow(unused_imports)]
use vstd::arithmetic::div_mod::*;

verus! {

/// The number of MiMC7 rounds.
pub const MIMC7_ROUNDS: usize = 91;

/// One MiMC7 round: `(msg + key + constant)^7`, computed as the circuit does
/// (two squarings and two multiplications).
pub open spec fn mimc7_round_spec(msg: nat, key: nat, constant: nat) -> nat {
    let s = fr_add(fr_add(msg, key), constant);
    let t = fr_mul(s, s);
    let u = fr_mul(t, t);
    let v = fr_mul(u, t);
    fr_mul(v, s)
}

/// The state after the first `n` rounds, starting from `x` under key `k`.
pub open spec fn mimc7_rounds_spec(x: nat, k: nat, keys: Seq<nat>, n: nat) -> nat
    decreases n,
{
    if n == 0 {
        x
    } else {
        mimc7_round_spec(mimc7_rounds_spec(x, k, keys, (n - 1) as nat), k, keys[n - 1])
    }
}

/// The MiMC7 hash of `x` under key `k`: all rounds, then `+ (x + k + k)`.
pub open spec fn mimc7_spec(x: nat, k: nat, keys: Seq<nat>) -> nat {
    fr_add(mimc7_rounds_spec(x, k, keys, MIMC7_ROUNDS as nat), fr_add(fr_add(x, k), k))
}

/// The nullifier of an old commitment `(x, y)` under the secret `sk`.
pub open spec fn nullifier_spec(sk: nat, x: nat, y: nat, keys: Seq<nat>) -> nat {
    mimc7_spec(mimc7_spec(x, y, keys), sk, keys)
}

/// A round is the seventh power of `msg + key + constant` in the field.
pub proof fn lemma_round_is_seventh_power(msg: nat, key: nat, constant: nat)
    ensures
        ({
            let s = (msg + key + constant) as int;
            mimc7_round_spec(msg, key, constant) as int == (s * s * s * s * s * s * s)
                % (scalar_modulus() as int)
        }),
{
    let p = scalar_modulus() as int;
    let s0 = (msg + key + constant) as int;
    let s = fr_add(fr_add(msg, key), constant) as int;
    lemma_add_mod_noop(msg as int + key as int, constant as int, p);
    lemma_add_mod_noop(msg as int, key as int, p);
    lemma_mod_twice(msg as int + key as int, p);
    lemma_mod_twice(constant as int, p);
    assert(s == ((msg as int + key as int) % p + constant as int) % p);
    assert((msg as int + key as int) % p + constant as int % p == ((msg as int + key as int) % p)
        % p + constant as int % p);
    lemma_add_mod_noop((msg as int + key as int) % p, constant as int, p);
    assert(s == s0 % p);
    let t = (s * s) % p;
    let u = (t * t) % p;
    let v = (u * t) % p;
    let w = (v * s) % p;
    lemma_mul_mod_noop(s0, s0, p);
    assert(t == (s0 * s0) % p);
    lemma_mul_mod_noop(s0 * s0, s0 * s0, p);
    assert(u == (s0 * s0 * (s0 * s0)) % p);
    lemma_mul_mod_noop(s0 * s0 * (s0 * s0), s0 * s0, p);
    assert(v == (s0 * s0 * (s0 * s0) * (s0 * s0)) % p);
    lemma_mul_mod_noop(s0 * s0 * (s0 * s0) * (s0 * s0), s0, p);
    assert(w == (s0 * s0 * (s0 * s0) * (s0 * s0) * s0) % p);
    assert(s0 * s0 * (s0 * s0) * (s0 * s0) * s0 == s0 * s0 * s0 * s0 * s0 * s0 * s0)
        by (nonlinear_arith);
}

/// One MiMC7 round.
fn mimc7_round(msg: &Scalar, key: &Scalar, constant: &Scalar) -> (r: Scalar)
    ensures
        r@ == mimc7_round_spec(msg@, key@, constant@),
{
    let s = msg.add(key).add(constant);
    let t = s.mul(&s);
    let u = t.mul(&t);
    let v = u.mul(&t);
    v.mul(&s)
}

/// The MiMC7 hash of `x` under key `k` with the given round constants.
pub fn mimc7(x: &Scalar, k: &Scalar, round_keys: &Vec<Scalar>) -> (r: Scalar)
    requires
        round_keys.len() >= MIMC7_ROUNDS,
    ensures
        r@ == mimc7_spec(x@, k@, scalar_values(round_keys@)),
{
    let ghost keys = scalar_values(round_keys@);
    let mut cur = mimc7_round(x, k, &round_keys[0]);
    let mut i: usize = 1;
    assert(mimc7_rounds_spec(x@, k@, keys, 0) == x@);
    while i < MIMC7_ROUNDS
        invariant
            1 <= i <= MIMC7_ROUNDS,
            round_keys.len() >= MIMC7_ROUNDS,
            keys == scalar_values(round_keys@),
            cur@ == mimc7_rounds_spec(x@, k@, keys, i as nat),
        decreases MIMC7_ROUNDS - i,
    {
        cur = mimc7_round(&cur, k, &round_keys[i]);
        i = i + 1;
    }
    let tail = x.add(k).add(k);
    cur.add(&tail)
}

/// The nullifier `mimc7(mimc7(x, y), sk)` of an old commitment with coordinates `(x, y)`.
pub fn nullifier(sk_s: &Scalar, cm_old_x: &Scalar, cm_old_y: &Scalar, round_keys: &Vec<Scalar>) -> (r:
    Scalar)
    requires
        round_keys.len() >= MIMC7_ROUNDS,
    ensures
        r@ == nullifier_spec(sk_s@, cm_old_x@, cm_old_y@, scalar_values(round_keys@)),
{
    let hash = mimc7(cm_old_x, cm_old_y, round_keys);
    mimc7(&hash, sk_s, round_keys)
}

/// The nullifier computed from canonical limbs, returned as canonical limbs.
pub fn get_nf(sk_s: [u64; 4], cm_old_x: [u64; 4], cm_old_y: [u64; 4], round_keys: &Vec<Scalar>) -> (r:
    [u64; 4])
    requires
        limbs_value(sk_s@) < scalar_modulus(),
        limbs_value(cm_old_x@) < scalar_modulus(),
        limbs_value(cm_old_y@) < scalar_modulus(),
        round_keys.len() >= MIMC7_ROUNDS,
    ensures
        limbs_value(r@) == nullifier_spec(
            limbs_value(sk_s@),
            limbs_value(cm_old_x@),
            limbs_value(cm_old_y@),
            scalar_values(round_keys@),
        ),
{
    let sk = Scalar::from_limbs(sk_s).unwrap();
    let x = Scalar::from_limbs(cm_old_x).unwrap();
    let y = Scalar::from_limbs(cm_old_y).unwrap();
    nullifier(&sk, &x, &y, round_keys).to_limbs()
}

} // verus!
