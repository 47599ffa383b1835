//! Elements of the BN254 scalar field, held as canonical little-endian limbs.
use vstd::prelude::*;

use ark_ff::{PrimeField, UniformRand};
use ark_std::rand::rngs::StdRng;

verus! {

/// The order of the BN254 scalar field.
pub open spec fn scalar_modulus() -> nat {
    21888242871839275222246405745257275088548364400416034343698204186575808495617nat
}

/// The integer that four little-endian 64-bit limbs stand for.
pub open spec fn limbs_value(l: Seq<u64>) -> nat
    recommends
        l.len() == 4,
{
    l[0] as nat + l[1] as nat * 0x1_0000_0000_0000_0000nat + l[2] as nat
        * 0x1_0000_0000_0000_0000_0000_0000_0000_0000nat + l[3] as nat
        * 0x1_0000_0000_0000_0000_0000_0000_0000_0000_0000_0000_0000_0000nat
}

/// Field addition on canonical values.
pub open spec fn fr_add(a: nat, b: nat) -> nat {
    (a + b) % scalar_modulus()
}

/// Field multiplication on canonical values.
pub open spec fn fr_mul(a: nat, b: nat) -> nat {
    (a * b) % scalar_modulus()
}

/// The values of a sequence of scalars.
pub open spec fn scalar_values(s: Seq<Scalar>) -> Seq<nat> {
    s.map_values(|e: Scalar| e@)
}

/// A scalar field element in canonical form (its limbs stand for a value below the modulus).
#[derive(Clone, Copy, Debug, PartialEq, Eq)]
pub struct Scalar {
    pub(crate) limbs: [u64; 4],
}

impl View for Scalar {
    type V = nat;

    closed spec fn view(&self) -> nat {
        limbs_value(self.limbs@)
    }
}

impl Scalar {
    #[verifier::type_invariant]
    spec fn canonical(self) -> bool {
        limbs_value(self.limbs@) < scalar_modulus()
    }

    /// The additive identity.
    pub fn zero() -> (r: Scalar)
        ensures
            r@ == 0,
    {
        Scalar { limbs: [0u64, 0u64, 0u64, 0u64] }
    }

    /// The multiplicative identity.
    pub fn one() -> (r: Scalar)
        ensures
            r@ == 1,
    {
        Scalar { limbs: [1u64, 0u64, 0u64, 0u64] }
    }

    /// The field element congruent to a 64-bit integer; every such integer is below the modulus.
    pub fn from_u64(x: u64) -> (r: Scalar)
        ensures
            r@ == x as nat,
    {
        Scalar { limbs: [x, 0u64, 0u64, 0u64] }
    }

    /// The canonical little-endian limbs of the element.
    pub fn to_limbs(&self) -> (r: [u64; 4])
        ensures
            limbs_value(r@) == self@,
            limbs_value(r@) < scalar_modulus(),
            r == self.to_limbs_spec(),
    {
        proof {
            use_type_invariant(self);
        }
        self.limbs
    }

    /// The element whose canonical limbs are `l`, or `None` when `l` stands for a
    /// value at or above the modulus.
    pub fn from_limbs(l: [u64; 4]) -> (r: Option<Scalar>)
        ensures
            r is Some <==> limbs_value(l@) < scalar_modulus(),
            r matches Some(s) ==> s@ == limbs_value(l@) && s.to_limbs_spec() == l,
    {
        ark_from_bigint(l)
    }

    /// The limbs as a spec value.
    pub closed spec fn to_limbs_spec(self) -> [u64; 4] {
        self.limbs
    }

    /// A fresh random element.
    pub fn random(rng: &mut StdRng) -> (r: Scalar) {
        ark_fr_rand(rng)
    }

    /// Field addition.
    pub fn add(&self, other: &Scalar) -> (r: Scalar)
        ensures
            r@ == fr_add(self@, other@),
    {
        ark_add(self, other)
    }

    /// Whether two elements are equal.
    pub(crate) fn same_value(&self, other: &Scalar) -> (r: bool)
        ensures
            r == (self@ == other@),
    {
        let r = self.limbs[0] == other.limbs[0] && self.limbs[1] == other.limbs[1] && self.limbs[2]
            == other.limbs[2] && self.limbs[3] == other.limbs[3];
        proof {
            lemma_limbs_injective(self.limbs@, other.limbs@);
        }
        r
    }

    /// Whether the value is at most the value of `other`.
    pub(crate) fn le_value(&self, other: &Scalar) -> (r: bool)
        ensures
            r == (self@ <= other@),
    {
        limbs_le(self.limbs, other.limbs)
    }

    /// Whether the value is at most `(p - 1) / 2`, half the field order rounded down.
    pub(crate) fn at_most_half(&self) -> (r: bool)
        ensures
            r == (self@ <= half_modulus()),
    {
        let half: [u64; 4] = [
            0xa1f0fac9f8000000u64,
            0x9419f4243cdcb848u64,
            0xdc2822db40c0ac2eu64,
            0x183227397098d014u64,
        ];
        assert(limbs_value(half@) == half_modulus());
        limbs_le(self.limbs, half)
    }

    /// Field multiplication.
    pub fn mul(&self, other: &Scalar) -> (r: Scalar)
        ensures
            r@ == fr_mul(self@, other@),
    {
        ark_mul(self, other)
    }
}

/// Half the field order, rounded down: `(p - 1) / 2`.
pub open spec fn half_modulus() -> nat {
    ((scalar_modulus() - 1) as nat) / 2
}

/// Limbs written as nested digits: `l0 + B * (l1 + B * (l2 + B * l3))`.
proof fn lemma_limbs_nested(l: Seq<u64>)
    requires
        l.len() == 4,
    ensures
        limbs_value(l) as int == l[0] as int + 0x1_0000_0000_0000_0000int * (l[1] as int
            + 0x1_0000_0000_0000_0000int * (l[2] as int + 0x1_0000_0000_0000_0000int * l[3] as int)),
{
    let base: int = 0x1_0000_0000_0000_0000;
    let (a0, a1, a2, a3) = (l[0] as int, l[1] as int, l[2] as int, l[3] as int);
    assert(a0 + base * (a1 + base * (a2 + base * a3)) == a0 + a1 * 0x1_0000_0000_0000_0000int + a2
        * 0x1_0000_0000_0000_0000_0000_0000_0000_0000int + a3
        * 0x1_0000_0000_0000_0000_0000_0000_0000_0000_0000_0000_0000_0000int) by (nonlinear_arith)
        requires
            base == 0x1_0000_0000_0000_0000int,
    ;
}

/// Comparing two-digit numbers: the high digits decide, then the low ones.
proof fn lemma_two_digit_le(a0: int, ah: int, b0: int, bh: int, base: int)
    requires
        base > 0,
        0 <= a0 < base,
        0 <= b0 < base,
        ah >= 0,
        bh >= 0,
    ensures
        (a0 + base * ah <= b0 + base * bh) <==> (ah < bh || (ah == bh && a0 <= b0)),
{
    if ah < bh {
        assert(base * ah + base <= base * bh) by (nonlinear_arith)
            requires
                ah < bh,
                base > 0,
        ;
    } else if ah > bh {
        assert(base * bh + base <= base * ah) by (nonlinear_arith)
            requires
                bh < ah,
                base > 0,
        ;
    }
}

/// Whether the value of `a` is at most the value of `b`, comparing limbs from the top.
fn limbs_le(a: [u64; 4], b: [u64; 4]) -> (r: bool)
    ensures
        r == (limbs_value(a@) <= limbs_value(b@)),
{
    proof {
        let base: int = 0x1_0000_0000_0000_0000;
        lemma_limbs_nested(a@);
        lemma_limbs_nested(b@);
        let ha2 = a[2] as int + base * a[3] as int;
        let hb2 = b[2] as int + base * b[3] as int;
        let ha1 = a[1] as int + base * ha2;
        let hb1 = b[1] as int + base * hb2;
        lemma_two_digit_le(a[2] as int, a[3] as int, b[2] as int, b[3] as int, base);
        assert(ha2 >= 0 && hb2 >= 0) by (nonlinear_arith)
            requires
                ha2 == a[2] as int + base * a[3] as int,
                hb2 == b[2] as int + base * b[3] as int,
                base > 0,
                a[2] >= 0,
                a[3] >= 0,
                b[2] >= 0,
                b[3] >= 0,
        ;
        lemma_two_digit_le(a[1] as int, ha2, b[1] as int, hb2, base);
        assert(ha1 >= 0 && hb1 >= 0) by (nonlinear_arith)
            requires
                ha1 == a[1] as int + base * ha2,
                hb1 == b[1] as int + base * hb2,
                base > 0,
                ha2 >= 0,
                hb2 >= 0,
                a[1] >= 0,
                b[1] >= 0,
        ;
        lemma_two_digit_le(a[0] as int, ha1, b[0] as int, hb1, base);
    }
    if a[3] != b[3] {
        a[3] < b[3]
    } else if a[2] != b[2] {
        a[2] < b[2]
    } else if a[1] != b[1] {
        a[1] < b[1]
    } else {
        a[0] <= b[0]
    }
}

/// Four 64-bit limbs stand for one integer each: equal values have equal limbs.
proof fn lemma_limbs_injective(a: Seq<u64>, b: Seq<u64>)
    requires
        a.len() == 4,
        b.len() == 4,
    ensures
        limbs_value(a) == limbs_value(b) <==> (a[0] == b[0] && a[1] == b[1] && a[2] == b[2] && a[3]
            == b[3]),
{
    let base: int = 0x1_0000_0000_0000_0000;
    if limbs_value(a) == limbs_value(b) {
        let ha = a[1] as int + base * (a[2] as int + base * a[3] as int);
        let hb = b[1] as int + base * (b[2] as int + base * b[3] as int);
        assert(limbs_value(a) == ha * base + a[0] as int) by (nonlinear_arith)
            requires
                base == 0x1_0000_0000_0000_0000int,
                ha == a[1] as int + base * (a[2] as int + base * a[3] as int),
                limbs_value(a) == a[0] as nat + a[1] as nat * 0x1_0000_0000_0000_0000nat + a[2] as nat
                    * 0x1_0000_0000_0000_0000_0000_0000_0000_0000nat + a[3] as nat
                    * 0x1_0000_0000_0000_0000_0000_0000_0000_0000_0000_0000_0000_0000nat,
        ;
        assert(limbs_value(b) == hb * base + b[0] as int) by (nonlinear_arith)
            requires
                base == 0x1_0000_0000_0000_0000int,
                hb == b[1] as int + base * (b[2] as int + base * b[3] as int),
                limbs_value(b) == b[0] as nat + b[1] as nat * 0x1_0000_0000_0000_0000nat + b[2] as nat
                    * 0x1_0000_0000_0000_0000_0000_0000_0000_0000nat + b[3] as nat
                    * 0x1_0000_0000_0000_0000_0000_0000_0000_0000_0000_0000_0000_0000nat,
        ;
        vstd::arithmetic::div_mod::lemma_fundamental_div_mod_converse(
            limbs_value(a) as int,
            base,
            ha,
            a[0] as int,
        );
        vstd::arithmetic::div_mod::lemma_fundamental_div_mod_converse(
            limbs_value(b) as int,
            base,
            hb,
            b[0] as int,
        );
        let ma = a[2] as int + base * a[3] as int;
        let mb = b[2] as int + base * b[3] as int;
        vstd::arithmetic::div_mod::lemma_fundamental_div_mod_converse(ha, base, ma, a[1] as int);
        vstd::arithmetic::div_mod::lemma_fundamental_div_mod_converse(hb, base, mb, b[1] as int);
        vstd::arithmetic::div_mod::lemma_fundamental_div_mod_converse(ma, base, a[3] as int, a[2] as int);
        vstd::arithmetic::div_mod::lemma_fundamental_div_mod_converse(mb, base, b[3] as int, b[2] as int);
    }
}

/// Calls `ark_bn254::Fr::from_bigint` on the limbs and reads the result back with
/// `into_bigint`. Claimed: the result is present exactly when the limbs stand for a
/// value below the modulus (the source checks `is_geq_modulus`), and then it holds
/// the same limbs.
#[verifier::external_body]
fn ark_from_bigint(l: [u64; 4]) -> (r: Option<Scalar>)
    ensures
        r is Some <==> limbs_value(l@) < scalar_modulus(),
        r matches Some(s) ==> s@ == limbs_value(l@) && s.to_limbs_spec() == l,
{
    ark_bn254::Fr::from_bigint(ark_ff::BigInt::new(l)).map(|f| Scalar { limbs: f.into_bigint().0 })
}

/// Calls `+` on two `ark_bn254::Fr` values. Claimed: the canonical value of the sum
/// is the sum of the canonical values modulo the field order.
#[verifier::external_body]
fn ark_add(a: &Scalar, b: &Scalar) -> (r: Scalar)
    ensures
        r@ == fr_add(a@, b@),
{
    let x = ark_bn254::Fr::from_bigint(ark_ff::BigInt::new(a.limbs)).unwrap();
    let y = ark_bn254::Fr::from_bigint(ark_ff::BigInt::new(b.limbs)).unwrap();
    Scalar { limbs: (x + y).into_bigint().0 }
}

/// Calls `*` on two `ark_bn254::Fr` values. Claimed: the canonical value of the
/// product is the product of the canonical values modulo the field order.
#[verifier::external_body]
fn ark_mul(a: &Scalar, b: &Scalar) -> (r: Scalar)
    ensures
        r@ == fr_mul(a@, b@),
{
    let x = ark_bn254::Fr::from_bigint(ark_ff::BigInt::new(a.limbs)).unwrap();
    let y = ark_bn254::Fr::from_bigint(ark_ff::BigInt::new(b.limbs)).unwrap();
    Scalar { limbs: (x * y).into_bigint().0 }
}

/// Calls `ark_bn254::Fr::rand`. Nothing is claimed of the element, which depends on
/// the generator's state.
#[verifier::external_body]
pub(crate) fn ark_fr_rand(rng: &mut StdRng) -> (r: Scalar) {
    Scalar { limbs: ark_bn254::Fr::rand(rng).into_bigint().0 }
}

} // verus!
