//! Exponential ElGamal over G1: each attribute `m` is encrypted as
//! `(g * r, pk1 * r + g * m)`, and decryption searches the 64-bit range for `m`.
use vstd::prelude::*;

use crate::field::{ark_fr_rand, scalar_values, Scalar};
use crate::group::{
    ark_g1_rand, g1_add_spec, g1_identity_repr, g1_mul_spec, g1_neg_spec, g1_views, G1Point, G1Repr,
};
use ark_std::rand::rngs::StdRng;

verus! {

/// The error type of the encryption scheme; no operation of this scheme produces it.
#[derive(Debug)]
pub struct EncError;

/// The exponential ElGamal scheme over BN254's G1.
pub struct ElGamal;

/// Public parameters: the generator.
#[derive(Clone, Copy, Debug, PartialEq)]
pub struct Parameters {
    /// the generator `g`
    pub generator: G1Point,
}

/// The commitment key that links ciphertexts: `[g * sk, g]`.
#[derive(Clone, Debug, PartialEq)]
pub struct ElGamalCommitKey {
    /// the key points
    pub ck: Vec<G1Point>,
}

/// The public key `[g, g * sk]`.
#[derive(Clone, Debug, PartialEq)]
pub struct PublicKey {
    /// the key points
    pub pk: Vec<G1Point>,
}

/// The secret key.
#[derive(Clone, Copy, Debug, PartialEq)]
pub struct SecretKey {
    /// the secret scalar
    pub sk: Scalar,
}

/// The encryption randomness, one scalar per attribute.
#[derive(Clone, Debug, PartialEq)]
pub struct Randomness {
    /// the scalars
    pub randness: Vec<Scalar>,
}

/// A ciphertext: one pair `[c0, c1]` per attribute.
#[derive(Clone, Debug, PartialEq)]
pub struct Ciphertext {
    /// the pairs
    pub ct: Vec<Vec<G1Point>>,
}

/// A plaintext: the attributes.
#[derive(Clone, Debug, PartialEq)]
pub struct Plaintext {
    /// the attributes
    pub msg: Vec<Scalar>,
}

impl Default for Parameters {
    /// The identity as generator.
    fn default() -> (r: Parameters)
        ensures
            r.generator@ == g1_identity_repr(),
    {
        Parameters { generator: G1Point::identity() }
    }
}

impl Default for ElGamalCommitKey {
    /// No key points.
    fn default() -> (r: ElGamalCommitKey)
        ensures
            r.ck@.len() == 0,
    {
        ElGamalCommitKey { ck: Vec::new() }
    }
}

impl Default for PublicKey {
    /// No key points.
    fn default() -> (r: PublicKey)
        ensures
            r.pk@.len() == 0,
    {
        PublicKey { pk: Vec::new() }
    }
}

impl Default for SecretKey {
    /// The zero secret.
    fn default() -> (r: SecretKey)
        ensures
            r.sk@ == 0,
    {
        SecretKey { sk: Scalar::zero() }
    }
}

impl Default for Randomness {
    /// No scalars.
    fn default() -> (r: Randomness)
        ensures
            r.randness@.len() == 0,
    {
        Randomness { randness: Vec::new() }
    }
}

impl Default for Ciphertext {
    /// No pairs.
    fn default() -> (r: Ciphertext)
        ensures
            r.ct@.len() == 0,
    {
        Ciphertext { ct: Vec::new() }
    }
}

impl Default for Plaintext {
    /// No attributes.
    fn default() -> (r: Plaintext)
        ensures
            r.msg@.len() == 0,
    {
        Plaintext { msg: Vec::new() }
    }
}

impl Randomness {
    /// The randomness made of the given scalars.
    pub fn from_randomness_vec(random_vec: Vec<Scalar>) -> (r: Randomness)
        ensures
            r.randness@ == random_vec@,
    {
        Randomness { randness: random_vec }
    }
}

impl Ciphertext {
    /// The ciphertext made of the given pairs.
    pub fn from_ciphertext_vec(ct_vec: Vec<Vec<G1Point>>) -> (r: Ciphertext)
        ensures
            r.ct@ == ct_vec@,
    {
        Ciphertext { ct: ct_vec }
    }
}

impl Plaintext {
    /// The plaintext made of the given attributes.
    pub fn from_plaintext_vec(pt_vec: Vec<Scalar>) -> (r: Plaintext)
        ensures
            r.msg@ == pt_vec@,
    {
        Plaintext { msg: pt_vec }
    }
}

/// The views of the pairs of a ciphertext.
pub open spec fn ct_views(ct: Seq<Vec<G1Point>>) -> Seq<Seq<G1Repr>> {
    ct.map_values(|c: Vec<G1Point>| g1_views(c@))
}

/// The pair that encrypts `m` with randomness `r` under generator `g` and key point `h`.
pub open spec fn enc_pair_spec(g: G1Repr, h: G1Repr, m: nat, r: nat) -> Seq<G1Repr> {
    seq![g1_mul_spec(g, r), g1_add_spec(g1_mul_spec(h, r), g1_mul_spec(g, m))]
}

/// The point that decryption looks for: `c1 + -(c0 * sk)`.
pub open spec fn dec_target_spec(sk: nat, c: Seq<G1Repr>) -> G1Repr {
    g1_add_spec(c[1], g1_neg_spec(g1_mul_spec(c[0], sk)))
}

/// The least `i` in `start..=u64::MAX` with `g * i == target`, if there is one.
pub open spec fn dlog_search_spec(g: G1Repr, target: G1Repr, start: nat) -> Option<nat>
    decreases u64::MAX + 1 - start,
{
    if start > u64::MAX {
        None
    } else if g1_mul_spec(g, start) == target {
        Some(start)
    } else {
        dlog_search_spec(g, target, start + 1)
    }
}

/// The decrypted attributes: for each pair in order, the least 64-bit `i` with
/// `g * i == c1 - c0 * sk`; a pair for which there is none contributes nothing.
pub open spec fn decrypt_spec(g: G1Repr, sk: nat, cts: Seq<Seq<G1Repr>>) -> Seq<nat>
    decreases cts.len(),
{
    if cts.len() == 0 {
        Seq::empty()
    } else {
        let prev = decrypt_spec(g, sk, cts.drop_last());
        match dlog_search_spec(g, dec_target_spec(sk, cts.last()), 0) {
            Some(m) => prev.push(m),
            None => prev,
        }
    }
}

/// The keys that the secret `sk` gives under the parameters.
pub open spec fn keys_spec(g: G1Repr, sk: nat, pk: PublicKey, esk: SecretKey, ck: ElGamalCommitKey) -> bool {
    &&& esk.sk@ == sk
    &&& g1_views(pk.pk@) == seq![g, g1_mul_spec(g, sk)]
    &&& g1_views(ck.ck@) == seq![g1_mul_spec(g, sk), g]
}

/// The ciphertext of the attributes `m` with randomness `r`.
pub open spec fn ciphertext_spec(g: G1Repr, h: G1Repr, m: Seq<nat>, r: Seq<nat>, ct: Ciphertext) -> bool {
    &&& ct.ct@.len() == m.len()
    &&& forall|j: int|
        0 <= j < m.len() ==> #[trigger] ct_views(ct.ct@)[j] == enc_pair_spec(g, h, m[j], r[j])
}

impl ElGamal {
    /// The default parameters: the identity as generator.
    pub fn default_params() -> (pp: Parameters)
        ensures
            pp.generator@ == g1_identity_repr(),
    {
        Parameters { generator: G1Point::identity() }
    }

    /// Parameters with a fresh random generator.
    pub fn setup(rng: &mut StdRng) -> (r: Result<Parameters, EncError>)
        ensures
            r is Ok,
    {
        let generator = ark_g1_rand(rng);
        Ok(Parameters { generator })
    }

    /// The keys of the secret `sk`: `pk = [g, g * sk]`, `ck = [g * sk, g]`.
    pub fn keygen_with(pp: &Parameters, sk: &Scalar) -> (r: (PublicKey, SecretKey, ElGamalCommitKey))
        ensures
            keys_spec(pp.generator@, sk@, r.0, r.1, r.2),
    {
        let h = pp.generator.mul(sk);
        let pk = vec![pp.generator, h];
        let ck = vec![h, pp.generator];
        proof {
            assert(g1_views(pk@) =~= seq![pp.generator@, g1_mul_spec(pp.generator@, sk@)]);
            assert(g1_views(ck@) =~= seq![g1_mul_spec(pp.generator@, sk@), pp.generator@]);
        }
        (PublicKey { pk }, SecretKey { sk: *sk }, ElGamalCommitKey { ck })
    }

    /// The keys of a fresh random secret.
    pub fn keygen(pp: &Parameters, rng: &mut StdRng) -> (r: Result<
        (PublicKey, SecretKey, ElGamalCommitKey),
        EncError,
    >)
        ensures
            r matches Ok(k) && keys_spec(pp.generator@, k.1.sk@, k.0, k.1, k.2),
    {
        let sk = ark_fr_rand(rng);
        Ok(Self::keygen_with(pp, &sk))
    }

    /// The ciphertext of the attributes with the given randomness, one scalar per attribute.
    pub fn encrypt_with(pp: &Parameters, pk: &PublicKey, msg: &Plaintext, rs: &Vec<Scalar>) -> (r: (
        Ciphertext,
        Randomness,
    ))
        requires
            rs@.len() == msg.msg@.len(),
            msg.msg@.len() > 0 ==> pk.pk@.len() >= 2,
        ensures
            ciphertext_spec(
                pp.generator@,
                pk.pk@[1]@,
                scalar_values(msg.msg@),
                scalar_values(rs@),
                r.0,
            ),
            r.1.randness@ == rs@,
    {
        let mut ct_vec: Vec<Vec<G1Point>> = Vec::new();
        let mut r_vec: Vec<Scalar> = Vec::new();
        let mut j: usize = 0;
        while j < msg.msg.len()
            invariant
                j <= msg.msg@.len(),
                rs@.len() == msg.msg@.len(),
                msg.msg@.len() > 0 ==> pk.pk@.len() >= 2,
                ct_vec@.len() == j,
                r_vec@ == rs@.subrange(0, j as int),
                forall|i: int|
                    0 <= i < j ==> #[trigger] ct_views(ct_vec@)[i] == enc_pair_spec(
                        pp.generator@,
                        pk.pk@[1]@,
                        msg.msg@[i]@,
                        rs@[i]@,
                    ),
            decreases msg.msg.len() - j,
        {
            let r = rs[j];
            let m = msg.msg[j];
            let ct_0 = pp.generator.mul(&r);
            let ct_1 = pk.pk[1].mul(&r).add(&pp.generator.mul(&m));
            let pair = vec![ct_0, ct_1];
            assert(g1_views(pair@) =~= enc_pair_spec(pp.generator@, pk.pk@[1]@, m@, r@));
            let ghost before = ct_vec@;
            ct_vec.push(pair);
            r_vec.push(r);
            assert forall|i: int| 0 <= i < j + 1 implies #[trigger] ct_views(ct_vec@)[i]
                == enc_pair_spec(pp.generator@, pk.pk@[1]@, msg.msg@[i]@, rs@[i]@) by {
                if i < j {
                    assert(ct_views(ct_vec@)[i] == ct_views(before)[i]);
                }
            }
            assert(rs@.subrange(0, j + 1) =~= rs@.subrange(0, j as int).push(r));
            j = j + 1;
        }
        assert(rs@.subrange(0, rs@.len() as int) =~= rs@);
        (Ciphertext { ct: ct_vec }, Randomness { randness: r_vec })
    }

    /// The ciphertext of the attributes with fresh randomness, one scalar per attribute.
    pub fn encrypt(pp: &Parameters, pk: &PublicKey, msg: &Plaintext, rng: &mut StdRng) -> (r: Result<
        (Ciphertext, Randomness),
        EncError,
    >)
        requires
            msg.msg@.len() > 0 ==> pk.pk@.len() >= 2,
        ensures
            r matches Ok(c) && c.1.randness@.len() == msg.msg@.len() && ciphertext_spec(
                pp.generator@,
                pk.pk@[1]@,
                scalar_values(msg.msg@),
                scalar_values(c.1.randness@),
                c.0,
            ),
    {
        let mut rs: Vec<Scalar> = Vec::new();
        let mut j: usize = 0;
        while j < msg.msg.len()
            invariant
                j <= msg.msg@.len(),
                rs@.len() == j,
            decreases msg.msg.len() - j,
        {
            rs.push(ark_fr_rand(rng));
            j = j + 1;
        }
        Ok(Self::encrypt_with(pp, pk, msg, &rs))
    }

    /// The attributes of a ciphertext: for each pair, the least 64-bit `i` with
    /// `g * i == c1 - c0 * sk` (pairs without one contribute nothing).
    pub fn decrypt(pp: &Parameters, sk: &SecretKey, ciphertext: &Ciphertext) -> (r: Result<
        Plaintext,
        EncError,
    >)
        requires
            forall|j: int| 0 <= j < ciphertext.ct@.len() ==> (#[trigger] ciphertext.ct@[j])@.len() >= 2,
        ensures
            r matches Ok(p) && scalar_values(p.msg@) == decrypt_spec(
                pp.generator@,
                sk.sk@,
                ct_views(ciphertext.ct@),
            ),
    {
        let mut msg_vec: Vec<Scalar> = Vec::new();
        let mut j: usize = 0;
        while j < ciphertext.ct.len()
            invariant
                j <= ciphertext.ct@.len(),
                forall|i: int|
                    0 <= i < ciphertext.ct@.len() ==> (#[trigger] ciphertext.ct@[i])@.len() >= 2,
                scalar_values(msg_vec@) == decrypt_spec(
                    pp.generator@,
                    sk.sk@,
                    ct_views(ciphertext.ct@).subrange(0, j as int),
                ),
            decreases ciphertext.ct.len() - j,
        {
            let ct = &ciphertext.ct[j];
            let ct0 = ct[0];
            let ct1 = ct[1];
            let res = ct1.add(&ct0.mul(&sk.sk).neg());
            let found = search_u64(&pp.generator, &res);
            proof {
                let cts = ct_views(ciphertext.ct@);
                assert(cts.subrange(0, j + 1).drop_last() =~= cts.subrange(0, j as int));
                assert(cts.subrange(0, j + 1).last() == g1_views(ct@));
                assert(res@ == dec_target_spec(sk.sk@, g1_views(ct@)));
            }
            match found {
                Some(m) => {
                    msg_vec.push(m);
                    assert(scalar_values(msg_vec@) =~= decrypt_spec(
                        pp.generator@,
                        sk.sk@,
                        ct_views(ciphertext.ct@).subrange(0, j as int),
                    ).push(m@));
                },
                None => {},
            }
            j = j + 1;
        }
        assert(ct_views(ciphertext.ct@).subrange(0, ciphertext.ct@.len() as int) =~= ct_views(
            ciphertext.ct@,
        ));
        Ok(Plaintext { msg: msg_vec })
    }
}

/// The least `i <= u64::MAX` with `g * i == target`, as a scalar.
fn search_u64(g: &G1Point, target: &G1Point) -> (r: Option<Scalar>)
    ensures
        match dlog_search_spec(g@, target@, 0) {
            Some(m) => r matches Some(s) && s@ == m,
            None => r is None,
        },
{
    let mut i: u64 = 0;
    loop
        invariant
            dlog_search_spec(g@, target@, 0) == dlog_search_spec(g@, target@, i as nat),
        decreases u64::MAX - i,
    {
        let fr_i = Scalar::from_u64(i);
        if g.mul(&fr_i).same_point(target) {
            return Some(fr_i);
        }
        if i == u64::MAX {
            assert(dlog_search_spec(g@, target@, (i + 1) as nat) is None);
            return None;
        }
        i = i + 1;
    }
}

/// The search finds `m` when no smaller 64-bit multiple of `g` meets `g * m`.
proof fn lemma_search_finds(g: G1Repr, m: nat, start: nat)
    requires
        start <= m <= u64::MAX,
        forall|t: nat| t < m ==> #[trigger] g1_mul_spec(g, t) != g1_mul_spec(g, m),
    ensures
        dlog_search_spec(g, g1_mul_spec(g, m), start) == Some(m),
    decreases m - start,
{
    if start < m {
        assert(g1_mul_spec(g, start) != g1_mul_spec(g, m));
        lemma_search_finds(g, m, start + 1);
    }
}

/// Decryption gives back what was encrypted, at every point where the group laws
/// it rests on hold: with `h = g * sk`, for each attribute `m[i]` (a 64-bit value)
/// and randomness `r[i]`, multiplying `g * r[i]` by `sk` gives `h * r[i]`,
/// `(A + B) + -A = B` for `A = h * r[i]` and `B = g * m[i]`, and no smaller multiple
/// of `g` equals `g * m[i]`.
pub proof fn law_decrypt_round_trip(g: G1Repr, sk: nat, m: Seq<nat>, r: Seq<nat>, ct: Ciphertext)
    requires
        ciphertext_spec(g, g1_mul_spec(g, sk), m, r, ct),
        r.len() == m.len(),
        forall|i: int| 0 <= i < m.len() ==> #[trigger] m[i] <= u64::MAX,
        forall|i: int|
            0 <= i < m.len() ==> #[trigger] g1_mul_spec(g1_mul_spec(g, r[i]), sk) == g1_mul_spec(
                g1_mul_spec(g, sk),
                r[i],
            ),
        forall|i: int|
            0 <= i < m.len() ==> #[trigger] g1_add_spec(
                g1_add_spec(g1_mul_spec(g1_mul_spec(g, sk), r[i]), g1_mul_spec(g, m[i])),
                g1_neg_spec(g1_mul_spec(g1_mul_spec(g, sk), r[i])),
            ) == g1_mul_spec(g, m[i]),
        forall|i: int, t: nat|
            0 <= i < m.len() && t < m[i] ==> #[trigger] g1_mul_spec(g, t) != #[trigger] g1_mul_spec(
                g,
                m[i],
            ),
    ensures
        decrypt_spec(g, sk, ct_views(ct.ct@)) == m,
{
    let cts = ct_views(ct.ct@);
    lemma_decrypt_prefix(g, sk, m, r, ct, m.len());
    assert(cts.subrange(0, m.len() as int) =~= cts);
    assert(m.subrange(0, m.len() as int) =~= m);
}

proof fn lemma_decrypt_prefix(g: G1Repr, sk: nat, m: Seq<nat>, r: Seq<nat>, ct: Ciphertext, n: nat)
    requires
        n <= m.len(),
        ciphertext_spec(g, g1_mul_spec(g, sk), m, r, ct),
        r.len() == m.len(),
        forall|i: int| 0 <= i < m.len() ==> #[trigger] m[i] <= u64::MAX,
        forall|i: int|
            0 <= i < m.len() ==> #[trigger] g1_mul_spec(g1_mul_spec(g, r[i]), sk) == g1_mul_spec(
                g1_mul_spec(g, sk),
                r[i],
            ),
        forall|i: int|
            0 <= i < m.len() ==> #[trigger] g1_add_spec(
                g1_add_spec(g1_mul_spec(g1_mul_spec(g, sk), r[i]), g1_mul_spec(g, m[i])),
                g1_neg_spec(g1_mul_spec(g1_mul_spec(g, sk), r[i])),
            ) == g1_mul_spec(g, m[i]),
        forall|i: int, t: nat|
            0 <= i < m.len() && t < m[i] ==> #[trigger] g1_mul_spec(g, t) != #[trigger] g1_mul_spec(
                g,
                m[i],
            ),
    ensures
        decrypt_spec(g, sk, ct_views(ct.ct@).subrange(0, n as int)) == m.subrange(0, n as int),
    decreases n,
{
    let cts = ct_views(ct.ct@);
    if n == 0 {
        assert(cts.subrange(0, 0) =~= Seq::<Seq<G1Repr>>::empty());
        assert(m.subrange(0, 0) =~= Seq::<nat>::empty());
    } else {
        lemma_decrypt_prefix(g, sk, m, r, ct, (n - 1) as nat);
        let i = n - 1;
        let h = g1_mul_spec(g, sk);
        let pre = cts.subrange(0, n as int);
        assert(pre.drop_last() =~= cts.subrange(0, i));
        assert(pre.last() == cts[i]);
        assert(cts[i] == enc_pair_spec(g, h, m[i], r[i]));
        let pair = enc_pair_spec(g, h, m[i], r[i]);
        assert(pair[0] == g1_mul_spec(g, r[i]));
        assert(pair[1] == g1_add_spec(g1_mul_spec(h, r[i]), g1_mul_spec(g, m[i])));
        assert(m[i] <= u64::MAX);
        assert(g1_mul_spec(g1_mul_spec(g, r[i]), sk) == g1_mul_spec(h, r[i]));
        assert(dec_target_spec(sk, pair) == g1_mul_spec(g, m[i]));
        assert forall|t: nat| t < m[i] implies #[trigger] g1_mul_spec(g, t) != g1_mul_spec(g, m[i]) by {
            assert(g1_mul_spec(g, t) != g1_mul_spec(g, m[i]));
        }
        lemma_search_finds(g, m[i], 0);
        assert(m.subrange(0, n as int) =~= m.subrange(0, i).push(m[i]));
    }
}

} // verus!
