//! Points of the BN254 groups G1 and G2, held as the canonical limbs of their
//! affine coordinates, and the group and pairing operations on them.
use vstd::prelude::*;

use crate::field::{limbs_value, scalar_values, Scalar};
use ark_bn254::{Bn254, Fq, Fq2, Fr, G1Affine, G2Affine};
use ark_ec::pairing::Pairing;
use ark_ec::{AffineRepr, CurveGroup, VariableBaseMSM};
use ark_ff::{BigInt, One, PrimeField, UniformRand};
use ark_serialize::{CanonicalDeserialize, CanonicalSerialize};
use ark_std::rand::rngs::StdRng;

verus! {

/// A source of randomness seeded by the caller.
#[verifier::external_type_specification]
#[verifier::external_body]
pub struct ExStdRng(StdRng);

/// The limbs of the affine coordinates `x`, `y` of a G1 point and its infinity flag.
pub type G1Repr = (Seq<u64>, Seq<u64>, bool);

/// The limbs of the affine coordinates `x = x0 + x1 u`, `y = y0 + y1 u` of a G2 point
/// and its infinity flag.
pub type G2Repr = (Seq<u64>, Seq<u64>, Seq<u64>, Seq<u64>, bool);

/// The canonical form of the point at infinity.
pub open spec fn g1_identity_repr() -> G1Repr {
    (seq![0u64, 0u64, 0u64, 0u64], seq![0u64, 0u64, 0u64, 0u64], true)
}

/// The canonical form of the point at infinity of G2.
pub open spec fn g2_identity_repr() -> G2Repr {
    (
        seq![0u64, 0u64, 0u64, 0u64],
        seq![0u64, 0u64, 0u64, 0u64],
        seq![0u64, 0u64, 0u64, 0u64],
        seq![0u64, 0u64, 0u64, 0u64],
        true,
    )
}

/// The sum of two G1 points, in canonical affine form.
pub uninterp spec fn g1_add_spec(a: G1Repr, b: G1Repr) -> G1Repr;

/// A G1 point multiplied by a scalar, in canonical affine form.
pub uninterp spec fn g1_mul_spec(p: G1Repr, s: nat) -> G1Repr;

/// The order of the BN254 base field, over which the coordinates live.
pub open spec fn base_modulus() -> nat {
    21888242871839275222246405745257275088696311157297823662689037894645226208583nat
}

/// The four little-endian 64-bit limbs of `n`, for `n < 2^256`.
pub open spec fn nat_to_limbs(n: nat) -> Seq<u64> {
    let b = 0x1_0000_0000_0000_0000nat;
    seq![
        (n % b) as u64,
        ((n / b) % b) as u64,
        ((n / (b * b)) % b) as u64,
        ((n / (b * b * b)) % b) as u64,
    ]
}

/// The canonical limbs of the negation of a base-field coordinate.
pub open spec fn fq_neg_limbs(y: Seq<u64>) -> Seq<u64> {
    nat_to_limbs(((base_modulus() - limbs_value(y) % base_modulus()) as nat) % base_modulus())
}

/// The negation of a G1 point: `(x, -y)`, the infinity flag kept.
pub open spec fn g1_neg_spec(p: G1Repr) -> G1Repr {
    (p.0, fq_neg_limbs(p.1), p.2)
}

/// The multi-scalar product of the bases with the scalars (over the shorter of the two).
pub uninterp spec fn g1_msm_spec(bases: Seq<G1Repr>, scalars: Seq<nat>) -> G1Repr;

/// A G2 point multiplied by a scalar, in canonical affine form.
pub uninterp spec fn g2_mul_spec(p: G2Repr, s: nat) -> G2Repr;

/// The negation of a G2 point: `(x, -y)` with `-y = -y0 - y1 u`, the infinity flag kept.
pub open spec fn g2_neg_spec(p: G2Repr) -> G2Repr {
    (p.0, p.1, fq_neg_limbs(p.2), fq_neg_limbs(p.3), p.4)
}

/// What `G1Affine::deserialize_compressed` gives on a byte string, if it succeeds.
pub uninterp spec fn g1_decompress_spec(bytes: Seq<u8>) -> Option<G1Repr>;

/// The bytes that `G1Affine::serialize_compressed` writes for a point.
pub uninterp spec fn g1_compress_spec(p: G1Repr) -> Seq<u8>;

/// What `G2Affine::deserialize_compressed` gives on a byte string, if it succeeds.
pub uninterp spec fn g2_decompress_spec(bytes: Seq<u8>) -> Option<G2Repr>;

/// The bytes that `G2Affine::serialize_compressed` writes for a point.
pub uninterp spec fn g2_compress_spec(p: G2Repr) -> Seq<u8>;

/// Whether the product of the pairings `e(a[i], b[i])` is the identity of the target group.
pub uninterp spec fn pairing_is_one_spec(a: Seq<G1Repr>, b: Seq<G2Repr>) -> bool;

/// A point of G1 in affine coordinates.
#[derive(Clone, Copy, Debug, PartialEq, Eq)]
pub struct G1Point {
    x: [u64; 4],
    y: [u64; 4],
    infinity: bool,
}

/// A point of G2 in affine coordinates over the quadratic extension.
#[derive(Clone, Copy, Debug, PartialEq, Eq)]
pub struct G2Point {
    x0: [u64; 4],
    x1: [u64; 4],
    y0: [u64; 4],
    y1: [u64; 4],
    infinity: bool,
}

impl View for G1Point {
    type V = G1Repr;

    closed spec fn view(&self) -> G1Repr {
        (self.x@, self.y@, self.infinity)
    }
}

impl View for G2Point {
    type V = G2Repr;

    closed spec fn view(&self) -> G2Repr {
        (self.x0@, self.x1@, self.y0@, self.y1@, self.infinity)
    }
}

/// The views of a sequence of G1 points.
pub open spec fn g1_views(s: Seq<G1Point>) -> Seq<G1Repr> {
    s.map_values(|p: G1Point| p@)
}

/// The views of a sequence of G2 points.
pub open spec fn g2_views(s: Seq<G2Point>) -> Seq<G2Repr> {
    s.map_values(|p: G2Point| p@)
}

impl G1Point {
    /// The point at infinity (the group identity), as arkworks writes it.
    pub fn identity() -> (r: G1Point)
        ensures
            r@ == g1_identity_repr(),
    {
        G1Point { x: [0u64, 0u64, 0u64, 0u64], y: [0u64, 0u64, 0u64, 0u64], infinity: true }
    }

    /// A fresh random point.
    pub fn random(rng: &mut StdRng) -> (r: G1Point) {
        ark_g1_rand(rng)
    }

    /// The limbs of the affine coordinates and the infinity flag.
    pub fn to_coordinates(&self) -> (r: ([u64; 4], [u64; 4], bool))
        ensures
            (r.0@, r.1@, r.2) == self@,
    {
        (self.x, self.y, self.infinity)
    }

    /// Whether two points have the same canonical affine form.
    pub fn same_point(&self, other: &G1Point) -> (r: bool)
        ensures
            r == (self@ == other@),
    {
        let r = self.infinity == other.infinity && self.x[0] == other.x[0] && self.x[1]
            == other.x[1] && self.x[2] == other.x[2] && self.x[3] == other.x[3] && self.y[0]
            == other.y[0] && self.y[1] == other.y[1] && self.y[2] == other.y[2] && self.y[3]
            == other.y[3];
        proof {
            if r {
                assert(self.x@ =~= other.x@);
                assert(self.y@ =~= other.y@);
            }
        }
        r
    }

    /// The sum of two points.
    pub fn add(&self, other: &G1Point) -> (r: G1Point)
        ensures
            r@ == g1_add_spec(self@, other@),
    {
        ark_g1_add(self, other)
    }

    /// The point multiplied by a scalar.
    pub fn mul(&self, s: &Scalar) -> (r: G1Point)
        ensures
            r@ == g1_mul_spec(self@, s@),
    {
        ark_g1_mul(self, s)
    }

    /// The negated point.
    pub fn neg(&self) -> (r: G1Point)
        ensures
            r@ == g1_neg_spec(self@),
    {
        ark_g1_neg(self)
    }

    /// The point that a compressed encoding stands for, or `None` when the bytes
    /// are not the encoding of a point of G1.
    pub fn from_compressed(bytes: &[u8]) -> (r: Option<G1Point>)
        ensures
            r matches Some(p) ==> g1_decompress_spec(bytes@) == Some(p@),
            r is None ==> g1_decompress_spec(bytes@) is None,
    {
        ark_g1_from_compressed(bytes)
    }

    /// The compressed encoding of the point; decoding it gives the point back.
    pub fn to_compressed(&self) -> (r: Vec<u8>)
        ensures
            r@ == g1_compress_spec(self@),
            g1_decompress_spec(r@) == Some(self@),
    {
        ark_g1_to_compressed(self)
    }
}

impl G2Point {
    /// The point at infinity (the group identity), as arkworks writes it.
    pub fn identity() -> (r: G2Point)
        ensures
            r@ == g2_identity_repr(),
    {
        G2Point {
            x0: [0u64, 0u64, 0u64, 0u64],
            x1: [0u64, 0u64, 0u64, 0u64],
            y0: [0u64, 0u64, 0u64, 0u64],
            y1: [0u64, 0u64, 0u64, 0u64],
            infinity: true,
        }
    }

    /// A fresh random point.
    pub fn random(rng: &mut StdRng) -> (r: G2Point) {
        ark_g2_rand(rng)
    }

    /// The limbs of the affine coordinates and the infinity flag.
    pub fn to_coordinates(&self) -> (r: ([u64; 4], [u64; 4], [u64; 4], [u64; 4], bool))
        ensures
            (r.0@, r.1@, r.2@, r.3@, r.4) == self@,
    {
        (self.x0, self.x1, self.y0, self.y1, self.infinity)
    }

    /// The point multiplied by a scalar.
    pub fn mul(&self, s: &Scalar) -> (r: G2Point)
        ensures
            r@ == g2_mul_spec(self@, s@),
    {
        ark_g2_mul(self, s)
    }

    /// The negated point.
    pub fn neg(&self) -> (r: G2Point)
        ensures
            r@ == g2_neg_spec(self@),
    {
        ark_g2_neg(self)
    }

    /// The point that a compressed encoding stands for, or `None` when the bytes
    /// are not the encoding of a point of G2.
    pub fn from_compressed(bytes: &[u8]) -> (r: Option<G2Point>)
        ensures
            r matches Some(p) ==> g2_decompress_spec(bytes@) == Some(p@),
            r is None ==> g2_decompress_spec(bytes@) is None,
    {
        ark_g2_from_compressed(bytes)
    }

    /// The compressed encoding of the point; decoding it gives the point back.
    pub fn to_compressed(&self) -> (r: Vec<u8>)
        ensures
            r@ == g2_compress_spec(self@),
            g2_decompress_spec(r@) == Some(self@),
    {
        ark_g2_to_compressed(self)
    }
}

/// Calls `ark_bn254::G1Affine + G1Affine` and `into_affine`. Claimed: the result's
/// coordinates are the name `g1_add_spec` applied to the operands' coordinates.
#[verifier::external_body]
fn ark_g1_add(a: &G1Point, b: &G1Point) -> (r: G1Point)
    ensures
        r@ == g1_add_spec(a@, b@),
{
    let p = G1Affine { x: Fq::new(BigInt(a.x)), y: Fq::new(BigInt(a.y)), infinity: a.infinity };
    let q = G1Affine { x: Fq::new(BigInt(b.x)), y: Fq::new(BigInt(b.y)), infinity: b.infinity };
    let s = (p + q).into_affine();
    G1Point { x: s.x.into_bigint().0, y: s.y.into_bigint().0, infinity: s.infinity }
}

/// Calls `ark_bn254::G1Affine * Fr` and `into_affine`. Claimed: the result's
/// coordinates are the name `g1_mul_spec` applied to the point and the scalar's value.
#[verifier::external_body]
fn ark_g1_mul(a: &G1Point, s: &Scalar) -> (r: G1Point)
    ensures
        r@ == g1_mul_spec(a@, s@),
{
    let p = G1Affine { x: Fq::new(BigInt(a.x)), y: Fq::new(BigInt(a.y)), infinity: a.infinity };
    let m = (p * Fr::new(BigInt(s.limbs))).into_affine();
    G1Point { x: m.x.into_bigint().0, y: m.y.into_bigint().0, infinity: m.infinity }
}

/// Calls `-ark_bn254::G1Affine`. Claimed: the result keeps `x` and the infinity
/// flag and holds `-y` in the base field (`g1_neg_spec`); the coordinates of every
/// point of this library are canonical, as `into_bigint` gives them.
#[verifier::external_body]
fn ark_g1_neg(a: &G1Point) -> (r: G1Point)
    ensures
        r@ == g1_neg_spec(a@),
{
    let p = G1Affine { x: Fq::new(BigInt(a.x)), y: Fq::new(BigInt(a.y)), infinity: a.infinity };
    let n = -p;
    G1Point { x: n.x.into_bigint().0, y: n.y.into_bigint().0, infinity: n.infinity }
}

/// Calls `ark_bn254::G1Projective::msm_bigint` and `into_affine`. Claimed: the
/// result's coordinates are the name `g1_msm_spec` applied to the bases'
/// coordinates and the scalars' values.
#[verifier::external_body]
pub(crate) fn ark_g1_msm(bases: &[G1Point], scalars: &[Scalar]) -> (r: G1Point)
    ensures
        r@ == g1_msm_spec(g1_views(bases@), scalar_values(scalars@)),
{
    let mut b = Vec::new();
    for a in bases.iter() {
        b.push(G1Affine { x: Fq::new(BigInt(a.x)), y: Fq::new(BigInt(a.y)), infinity: a.infinity });
    }
    let s: Vec<BigInt<4>> = scalars.iter().map(|s| BigInt(s.limbs)).collect();
    let m = ark_bn254::G1Projective::msm_bigint(&b, &s).into_affine();
    G1Point { x: m.x.into_bigint().0, y: m.y.into_bigint().0, infinity: m.infinity }
}

/// Calls `ark_bn254::G2Affine * Fr` and `into_affine`. Claimed: the result's
/// coordinates are the name `g2_mul_spec` applied to the point and the scalar's value.
#[verifier::external_body]
fn ark_g2_mul(a: &G2Point, s: &Scalar) -> (r: G2Point)
    ensures
        r@ == g2_mul_spec(a@, s@),
{
    let x = Fq2::new(Fq::new(BigInt(a.x0)), Fq::new(BigInt(a.x1)));
    let y = Fq2::new(Fq::new(BigInt(a.y0)), Fq::new(BigInt(a.y1)));
    let m = (G2Affine { x, y, infinity: a.infinity } * Fr::new(BigInt(s.limbs))).into_affine();
    let (mx, my) = (m.x, m.y);
    G2Point {
        x0: mx.c0.into_bigint().0,
        x1: mx.c1.into_bigint().0,
        y0: my.c0.into_bigint().0,
        y1: my.c1.into_bigint().0,
        infinity: m.infinity,
    }
}

/// Calls `-ark_bn254::G2Affine`. Claimed: the result keeps `x` and the infinity
/// flag and holds `-y` in the quadratic extension, negated coefficient by
/// coefficient (`g2_neg_spec`).
#[verifier::external_body]
fn ark_g2_neg(a: &G2Point) -> (r: G2Point)
    ensures
        r@ == g2_neg_spec(a@),
{
    let x = Fq2::new(Fq::new(BigInt(a.x0)), Fq::new(BigInt(a.x1)));
    let y = Fq2::new(Fq::new(BigInt(a.y0)), Fq::new(BigInt(a.y1)));
    let n = -G2Affine { x, y, infinity: a.infinity };
    G2Point {
        x0: n.x.c0.into_bigint().0,
        x1: n.x.c1.into_bigint().0,
        y0: n.y.c0.into_bigint().0,
        y1: n.y.c1.into_bigint().0,
        infinity: n.infinity,
    }
}

/// Calls `ark_bn254::Bn254::multi_pairing` and compares the result with one.
/// Asked: the two sequences have the same length (the source pairs them with
/// `zip_eq`, which panics otherwise). Claimed: the answer is the name
/// `pairing_is_one_spec` applied to the two sequences of coordinates. Left
/// unsaid: the source unwraps the final exponentiation, which returns nothing
/// only when the Miller-loop output is zero; that output is a product of
/// pairing values of group points, which are never zero, but no name of this
/// library says that its points lie on the curve.
#[verifier::external_body]
pub(crate) fn ark_pairing_is_one(a: &Vec<G1Point>, b: &Vec<G2Point>) -> (r: bool)
    requires
        a@.len() == b@.len(),
    ensures
        r == pairing_is_one_spec(g1_views(a@), g2_views(b@)),
{
    let mut g1 = Vec::new();
    for p in a.iter() {
        g1.push(G1Affine { x: Fq::new(BigInt(p.x)), y: Fq::new(BigInt(p.y)), infinity: p.infinity });
    }
    let mut g2 = Vec::new();
    for q in b.iter() {
        let (x, y) = (Fq2::new(Fq::new(BigInt(q.x0)), Fq::new(BigInt(q.x1))), Fq2::new(Fq::new(BigInt(q.y0)), Fq::new(BigInt(q.y1))));
        g2.push(G2Affine { x, y, infinity: q.infinity });
    }
    Bn254::multi_pairing(g1, g2).0.is_one()
}

/// Calls `ark_bn254::G1Affine::deserialize_compressed` on the bytes. Claimed: the
/// outcome is the name `g1_decompress_spec` of the bytes.
#[verifier::external_body]
fn ark_g1_from_compressed(bytes: &[u8]) -> (r: Option<G1Point>)
    ensures
        r matches Some(p) ==> g1_decompress_spec(bytes@) == Some(p@),
        r is None ==> g1_decompress_spec(bytes@) is None,
{
    let p = G1Affine::deserialize_compressed(bytes).ok()?;
    Some(G1Point { x: p.x.into_bigint().0, y: p.y.into_bigint().0, infinity: p.infinity })
}

/// Calls `ark_bn254::G1Affine::serialize_compressed`. Claimed: the bytes are the
/// name `g1_compress_spec` of the point, and `deserialize_compressed` reads the same
/// point back from them (the point is on the curve and in the group, as every
/// point of this library is).
#[verifier::external_body]
fn ark_g1_to_compressed(a: &G1Point) -> (r: Vec<u8>)
    ensures
        r@ == g1_compress_spec(a@),
        g1_decompress_spec(r@) == Some(a@),
{
    let p = G1Affine { x: Fq::new(BigInt(a.x)), y: Fq::new(BigInt(a.y)), infinity: a.infinity };
    let mut bytes = Vec::new();
    p.serialize_compressed(&mut bytes).unwrap();
    bytes
}

/// Calls `ark_bn254::G2Affine::deserialize_compressed` on the bytes. Claimed: the
/// outcome is the name `g2_decompress_spec` of the bytes.
#[verifier::external_body]
fn ark_g2_from_compressed(bytes: &[u8]) -> (r: Option<G2Point>)
    ensures
        r matches Some(p) ==> g2_decompress_spec(bytes@) == Some(p@),
        r is None ==> g2_decompress_spec(bytes@) is None,
{
    let p = G2Affine::deserialize_compressed(bytes).ok()?;
    Some(G2Point {
        x0: p.x.c0.into_bigint().0,
        x1: p.x.c1.into_bigint().0,
        y0: p.y.c0.into_bigint().0,
        y1: p.y.c1.into_bigint().0,
        infinity: p.infinity,
    })
}

/// Calls `ark_bn254::G2Affine::serialize_compressed`. Claimed: the bytes are the
/// name `g2_compress_spec` of the point, and `deserialize_compressed` reads the same
/// point back from them (the point is on the curve and in the group, as every
/// point of this library is).
#[verifier::external_body]
fn ark_g2_to_compressed(a: &G2Point) -> (r: Vec<u8>)
    ensures
        r@ == g2_compress_spec(a@),
        g2_decompress_spec(r@) == Some(a@),
{
    let x = Fq2::new(Fq::new(BigInt(a.x0)), Fq::new(BigInt(a.x1)));
    let y = Fq2::new(Fq::new(BigInt(a.y0)), Fq::new(BigInt(a.y1)));
    let mut bytes = Vec::new();
    G2Affine { x, y, infinity: a.infinity }.serialize_compressed(&mut bytes).unwrap();
    bytes
}

/// Calls `ark_bn254::G1Projective::rand` and `into_affine`. Nothing is claimed of
/// the point, which depends on the generator's state.
#[verifier::external_body]
pub(crate) fn ark_g1_rand(rng: &mut StdRng) -> (r: G1Point) {
    let m = ark_bn254::G1Projective::rand(rng).into_affine();
    G1Point { x: m.x.into_bigint().0, y: m.y.into_bigint().0, infinity: m.infinity }
}

/// Calls `ark_bn254::G2Projective::rand` and `into_affine`. Nothing is claimed of
/// the point, which depends on the generator's state.
#[verifier::external_body]
pub(crate) fn ark_g2_rand(rng: &mut StdRng) -> (r: G2Point) {
    let m = ark_bn254::G2Projective::rand(rng).into_affine();
    G2Point {
        x0: m.x.c0.into_bigint().0,
        x1: m.x.c1.into_bigint().0,
        y0: m.y.c0.into_bigint().0,
        y1: m.y.c1.into_bigint().0,
        infinity: m.infinity,
    }
}

} // verus!
