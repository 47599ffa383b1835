//! Limb conversions, the attribute commitment, and the linking halves of the DPP
//! and trade setup, proving and verification flows over BN254.
use vstd::prelude::*;

use crate::encryption::{
    ciphertext_spec, ct_views, Ciphertext, ElGamal, ElGamalCommitKey, Parameters, Plaintext,
    PublicKey, SecretKey, keys_spec,
};
use crate::field::{ark_fr_rand, limbs_value, scalar_modulus, scalar_values, Scalar};
use crate::group::{
    ark_g1_msm, ark_g1_rand, g1_add_spec, g1_decompress_spec, g1_msm_spec, g1_mul_spec, g1_views,
    G1Point, G1Repr,
};
use crate::linker::{
    keys_from_secrets, link_check_reprs, link_check_spec, setup_relation_ok, dpp_mode, trade_mode, EK, LinkSnark, PP,
    VK,
};
use crate::matrix::{ip_spec, SparseMatrix};
use crate::relation::append_copies;
use ark_std::rand::rngs::StdRng;

verus! {

/// The canonical limbs of the element that `limbs` stand for: the same limbs.
pub fn format_fr(limbs: [u64; 4]) -> (r: [u64; 4])
    requires
        limbs_value(limbs@) < scalar_modulus(),
    ensures
        r == limbs,
{
    let v = Scalar::from_limbs(limbs).unwrap();
    v.to_limbs()
}

/// The canonical limbs of a fresh random field element.
pub fn get_random_values(rng: &mut StdRng) -> (r: [u64; 4])
    ensures
        limbs_value(r@) < scalar_modulus(),
{
    ark_fr_rand(rng).to_limbs()
}

/// The field elements of 64-bit integers.
pub fn scalars_from_u64(v: &[u64]) -> (r: Vec<Scalar>)
    ensures
        r@.len() == v@.len(),
        forall|i: int| 0 <= i < v@.len() ==> (#[trigger] r@[i])@ == v@[i] as nat,
{
    let mut res: Vec<Scalar> = Vec::new();
    let mut i: usize = 0;
    while i < v.len()
        invariant
            i <= v@.len(),
            res@.len() == i,
            forall|j: int| 0 <= j < i ==> (#[trigger] res@[j])@ == v@[j] as nat,
        decreases v.len() - i,
    {
        res.push(Scalar::from_u64(v[i]));
        i = i + 1;
    }
    res
}

/// The Pedersen-style commitment `msm(ck[1..], attr) + ck[0] * o`.
pub open spec fn commit_spec(ck: Seq<G1Point>, attr: Seq<nat>, o: nat) -> G1Repr {
    g1_add_spec(
        g1_msm_spec(g1_views(ck.subrange(1, ck.len() as int)), attr),
        g1_mul_spec(ck[0]@, o),
    )
}

/// The commitment to the attributes with opening `o`.
pub fn dpp_commit(ck: &Vec<G1Point>, attr: &Vec<Scalar>, o: &Scalar) -> (cm: G1Point)
    requires
        ck@.len() >= 1,
    ensures
        cm@ == commit_spec(ck@, scalar_values(attr@), o@),
{
    let mut bases: Vec<G1Point> = Vec::new();
    let mut i: usize = 1;
    while i < ck.len()
        invariant
            1 <= i <= ck@.len(),
            bases@ == ck@.subrange(1, i as int),
        decreases ck.len() - i,
    {
        bases.push(ck[i]);
        assert(ck@.subrange(1, i + 1) =~= ck@.subrange(1, i as int).push(ck@[i as int]));
        i = i + 1;
    }
    let cm_proj = ark_g1_msm(bases.as_slice(), attr.as_slice());
    cm_proj.add(&ck[0].mul(o))
}

/// The instance points of a ciphertext: its pairs, flattened in order.
pub fn ciphertext_instance(ct: &Ciphertext) -> (r: Vec<G1Point>)
    ensures
        g1_views(r@) == ct_views(ct.ct@).flatten(),
{
    let mut res: Vec<G1Point> = Vec::new();
    let mut j: usize = 0;
    while j < ct.ct.len()
        invariant
            j <= ct.ct@.len(),
            g1_views(res@) == ct_views(ct.ct@).subrange(0, j as int).flatten(),
        decreases ct.ct.len() - j,
    {
        let ghost before = res@;
        append_copies(&mut res, &ct.ct[j]);
        proof {
            let cts = ct_views(ct.ct@);
            assert(cts.subrange(0, j + 1) =~= cts.subrange(0, j as int).push(cts[j as int]));
            cts.subrange(0, j as int).lemma_flatten_push(cts[j as int]);
            assert(g1_views(res@) =~= g1_views(before) + g1_views(ct.ct@[j as int]@));
        }
        j = j + 1;
    }
    assert(ct_views(ct.ct@).subrange(0, ct.ct@.len() as int) =~= ct_views(ct.ct@));
    res
}

/// The linking keys of the DPP statement for `len` attributes: a fresh commitment key
/// of `len + 1` points, the public parameters and the evaluation and verification keys.
pub fn setup_dpp_link(rng: &mut StdRng, len: usize, snark_ck: Vec<G1Point>) -> (res: (
    Vec<G1Point>,
    PP,
    EK,
    VK,
))
    requires
        len + 2 <= usize::MAX,
    ensures
        res.0@.len() == len + 1,
        res.1.l == 2,
        res.1.t == len + 2,
        exists|crs: SparseMatrix<G1Point>, k: Seq<nat>, a: nat|
            setup_relation_ok(dpp_mode(), len as nat, res.0@, snark_ck@, crs) && k.len() == 2
                && #[trigger] keys_from_secrets(res.1, crs, k, a, res.2, res.3),
{
    let mut ck: Vec<G1Point> = Vec::new();
    let mut i: usize = 0;
    while i < len + 1
        invariant
            i <= len + 1,
            len + 2 <= usize::MAX,
            ck@.len() == i,
        decreases len + 1 - i,
    {
        ck.push(ark_g1_rand(rng));
        i = i + 1;
    }
    let mut ck_copy: Vec<G1Point> = Vec::new();
    append_copies(&mut ck_copy, &ck);
    assert(ck_copy@ =~= ck@);
    proof {
        reveal_strlit("dpp");
        assert("dpp"@ =~= dpp_mode());
    }
    let (link_pp, link_crs) = LinkSnark::setup(rng, len, ck_copy, snark_ck, "dpp");
    let ghost crs = link_crs;
    let (link_ek, link_vk) = LinkSnark::keygen(rng, &link_pp, link_crs);
    proof {
        let (k, a) = choose|k: Seq<nat>, a: nat|
            k.len() == link_pp.l && #[trigger] keys_from_secrets(
                link_pp,
                crs,
                k,
                a,
                link_ek,
                link_vk,
            );
        assert(setup_relation_ok(dpp_mode(), len as nat, ck@, snark_ck@, crs));
        assert(keys_from_secrets(link_pp, crs, k, a, link_ek, link_vk));
    }
    let ghost gck = ck@;
    let ghost gpp = link_pp;
    let ghost gek = link_ek;
    let ghost gvk = link_vk;
    let res = (ck, link_pp, link_ek, link_vk);
    assert(res.0@ == gck);
    assert(res.1 == gpp);
    assert(res.2 == gek);
    assert(res.3 == gvk);
    assert(exists|crs2: SparseMatrix<G1Point>, k2: Seq<nat>, a2: nat|
        setup_relation_ok(dpp_mode(), len as nat, res.0@, snark_ck@, crs2) && k2.len() == 2
            && #[trigger] keys_from_secrets(res.1, crs2, k2, a2, res.2, res.3));
    res
}

/// A commitment to the attributes under fresh randomness `o`, and the linking proof
/// that it and the SNARK commitment (with opening `snark_open`) hold the same attributes.
pub fn prove_dpp_link(
    rng: &mut StdRng,
    ck: &Vec<G1Point>,
    link_pp: &PP,
    link_ek: &EK,
    attr: &Vec<Scalar>,
    snark_open: &Scalar,
) -> (res: (G1Point, G1Point))
    requires
        ck@.len() >= 1,
        link_ek.p@.len() == attr@.len() + 2,
    ensures
        exists|o: nat|
            res.0@ == #[trigger] commit_spec(ck@, scalar_values(attr@), o) && res.1@ == ip_spec(
                g1_views(link_ek.p@),
                seq![o, snark_open@] + scalar_values(attr@),
                attr@.len() + 2,
            ),
{
    let o = ark_fr_rand(rng);
    let cm = dpp_commit(ck, attr, &o);
    let mut attr_copy: Vec<Scalar> = Vec::new();
    append_copies(&mut attr_copy, attr);
    let witness = LinkSnark::generate_witness(vec![o], attr_copy, vec![*snark_open]);
    let (link_prf, _aux) = LinkSnark::prove(link_pp, link_ek, &witness);
    assert(scalar_values(witness@) =~= seq![o@, snark_open@] + scalar_values(attr@));
    (cm, link_prf)
}

/// Checks the linking proof for the commitments `cms` and the SNARK commitment.
pub fn verify_link(link_pp: &PP, link_vk: &VK, cms: Vec<G1Point>, snark_cm: G1Point, link_prf: &G1Point) -> (r:
    bool)
    requires
        link_pp.l == cms@.len() + 1,
        link_vk.c@.len() >= cms@.len() + 1,
    ensures
        r == link_check_spec(*link_vk, cms@.push(snark_cm), *link_prf),
{
    let instance = LinkSnark::generate_instance(cms, snark_cm, ());
    LinkSnark::verify(link_pp, link_vk, &instance, link_prf)
}

/// The encryption keys and the linking keys of the trade statement for `len` attributes.
pub fn setup_trade_link(rng: &mut StdRng, len: usize, snark_ck: Vec<G1Point>) -> (res: (
    Parameters,
    PublicKey,
    SecretKey,
    ElGamalCommitKey,
    PP,
    EK,
    VK,
))
    requires
        snark_ck@.len() == len + 1,
        2 * len + 1 <= usize::MAX,
    ensures
        keys_spec(res.0.generator@, res.2.sk@, res.1, res.2, res.3),
        res.4.l == 2 * len + 1,
        res.4.t == 2 * len + 1,
        exists|crs: SparseMatrix<G1Point>, k: Seq<nat>, a: nat|
            setup_relation_ok(trade_mode(), len as nat, res.3.ck@, snark_ck@, crs) && k.len() == 2
                * len + 1 && #[trigger] keys_from_secrets(res.4, crs, k, a, res.5, res.6),
{
    let enc_pp = ElGamal::setup(rng).unwrap();
    let (enc_pk, enc_sk, enc_ck) = ElGamal::keygen(&enc_pp, rng).unwrap();
    let mut ck_copy: Vec<G1Point> = Vec::new();
    append_copies(&mut ck_copy, &enc_ck.ck);
    assert(ck_copy@ =~= enc_ck.ck@);
    proof {
        reveal_strlit("trade");
        assert("trade"@ =~= trade_mode());
        assert(g1_views(enc_ck.ck@).len() == 2);
    }
    let (link_pp, link_crs) = LinkSnark::setup(rng, len, ck_copy, snark_ck, "trade");
    let ghost crs = link_crs;
    let (link_ek, link_vk) = LinkSnark::keygen(rng, &link_pp, link_crs);
    proof {
        let (k, a) = choose|k: Seq<nat>, a: nat|
            k.len() == link_pp.l && #[trigger] keys_from_secrets(
                link_pp,
                crs,
                k,
                a,
                link_ek,
                link_vk,
            );
        assert(setup_relation_ok(trade_mode(), len as nat, enc_ck.ck@, snark_ck@, crs));
        assert(keys_from_secrets(link_pp, crs, k, a, link_ek, link_vk));
    }
    let ghost gck = enc_ck;
    let ghost gpp = link_pp;
    let ghost gek = link_ek;
    let ghost gvk = link_vk;
    let res = (enc_pp, enc_pk, enc_sk, enc_ck, link_pp, link_ek, link_vk);
    assert(res.3 == gck);
    assert(res.4 == gpp);
    assert(res.5 == gek);
    assert(res.6 == gvk);
    res
}

/// The encryption of the attributes under fresh randomness, and the linking proof
/// that the ciphertext and the SNARK commitment (with opening `snark_open`) hold the
/// same attributes.
pub fn prove_trade_link(
    rng: &mut StdRng,
    enc_pp: &Parameters,
    enc_pk: &PublicKey,
    link_pp: &PP,
    link_ek: &EK,
    attr: &Vec<Scalar>,
    snark_open: &Scalar,
) -> (res: (Ciphertext, G1Point))
    requires
        attr@.len() > 0 ==> enc_pk.pk@.len() >= 2,
        link_ek.p@.len() == 2 * attr@.len() + 1,
    ensures
        exists|r: Seq<nat>|
            r.len() == attr@.len() && #[trigger] ciphertext_spec(
                enc_pp.generator@,
                enc_pk.pk@[1]@,
                scalar_values(attr@),
                r,
                res.0,
            ) && res.1@ == ip_spec(
                g1_views(link_ek.p@),
                r + seq![snark_open@] + scalar_values(attr@),
                2 * attr@.len() + 1,
            ),
{
    let mut attr_copy: Vec<Scalar> = Vec::new();
    append_copies(&mut attr_copy, attr);
    assert(attr_copy@ =~= attr@);
    let msg = Plaintext { msg: attr_copy };
    let (ct, r) = ElGamal::encrypt(enc_pp, enc_pk, &msg, rng).unwrap();
    let ghost rs = scalar_values(r.randness@);
    let mut attr_copy2: Vec<Scalar> = Vec::new();
    append_copies(&mut attr_copy2, attr);
    let witness = LinkSnark::generate_witness(r.randness, attr_copy2, vec![*snark_open]);
    let (link_prf, _aux) = LinkSnark::prove(link_pp, link_ek, &witness);
    assert(scalar_values(witness@) =~= rs + seq![snark_open@] + scalar_values(attr@));
    assert(ciphertext_spec(enc_pp.generator@, enc_pk.pk@[1]@, scalar_values(attr@), rs, ct));
    let ghost gct = ct;
    let res = (ct, link_prf);
    assert(res.0 == gct);
    assert(res.1 == link_prf);
    res
}

/// Checks a stored DPP linking proof: the commitment and the proof come as
/// compressed encodings, and `None` says that one of them is not the encoding of a
/// point of G1.
#[verifier::spinoff_prover]
pub fn verify_dpp_link_bytes(
    link_pp: &PP,
    link_vk: &VK,
    cm: &[u8],
    snark_cm: G1Point,
    link_prf: &[u8],
) -> (r: Option<bool>)
    requires
        link_pp.l == 2,
        link_vk.c@.len() >= 2,
    ensures
        r is None <==> (g1_decompress_spec(cm@) is None || g1_decompress_spec(link_prf@) is None),
        r matches Some(b) ==> b == link_check_reprs(
            *link_vk,
            seq![g1_decompress_spec(cm@).unwrap(), snark_cm@],
            g1_decompress_spec(link_prf@).unwrap(),
        ),
{
    let c = match G1Point::from_compressed(cm) {
        Some(c) => c,
        None => return None,
    };
    let p = match G1Point::from_compressed(link_prf) {
        Some(p) => p,
        None => return None,
    };
    let mut cms: Vec<G1Point> = Vec::new();
    cms.push(c);
    let ghost inst = cms@.push(snark_cm);
    let b = verify_link(link_pp, link_vk, cms, snark_cm, &p);
    assert(g1_views(inst) =~= seq![c@, snark_cm@]);
    Some(b)
}

/// Whether every encoding in the pairs decodes to a point of G1.
pub open spec fn pairs_decode(ct: Seq<Vec<Vec<u8>>>) -> bool {
    forall|i: int, j: int|
        0 <= i < ct.len() && 0 <= j < ct[i]@.len() ==> (#[trigger] g1_decompress_spec(ct[i]@[j]@)) is Some
}

/// The points that the encodings in the pairs stand for.
pub open spec fn decoded_pairs(ct: Seq<Vec<Vec<u8>>>) -> Seq<Seq<G1Repr>> {
    Seq::new(
        ct.len(),
        |i: int| Seq::new(ct[i]@.len(), |j: int| g1_decompress_spec(ct[i]@[j]@).unwrap()),
    )
}

/// The ciphertext whose pairs are given as compressed encodings of points, or `None`
/// when one of them is not the encoding of a point of G1.
pub fn decode_ciphertext(ct: &Vec<Vec<Vec<u8>>>) -> (r: Option<Ciphertext>)
    ensures
        r is Some <==> pairs_decode(ct@),
        r matches Some(c) ==> ct_views(c.ct@) == decoded_pairs(ct@),
{
    let mut pairs: Vec<Vec<G1Point>> = Vec::new();
    let mut i: usize = 0;
    while i < ct.len()
        invariant
            i <= ct@.len(),
            pairs@.len() == i,
            forall|a: int| 0 <= a < i ==> #[trigger] ct_views(pairs@)[a] == decoded_pairs(ct@)[a],
            forall|a: int, b: int|
                0 <= a < i && 0 <= b < ct@[a]@.len() ==> (#[trigger] g1_decompress_spec(ct@[a]@[b]@))
                    is Some,
        decreases ct.len() - i,
    {
        let mut pair: Vec<G1Point> = Vec::new();
        let mut j: usize = 0;
        while j < ct[i].len()
            invariant
                i < ct@.len(),
                j <= ct@[i as int]@.len(),
                pair@.len() == j,
                forall|b: int| 0 <= b < j ==> #[trigger] pair@[b]@ == g1_decompress_spec(
                    ct@[i as int]@[b]@,
                ).unwrap(),
                forall|b: int|
                    0 <= b < j ==> (#[trigger] g1_decompress_spec(ct@[i as int]@[b]@)) is Some,
            decreases ct@[i as int]@.len() - j,
        {
            match G1Point::from_compressed(ct[i][j].as_slice()) {
                Some(p) => pair.push(p),
                None => {
                    assert(!pairs_decode(ct@)) by {
                        assert(g1_decompress_spec(ct@[i as int]@[j as int]@) is None);
                    }
                    return None;
                },
            }
            j = j + 1;
        }
        let ghost before = pairs@;
        let ghost pv = pair@;
        assert(g1_views(pv) =~= decoded_pairs(ct@)[i as int]);
        pairs.push(pair);
        assert forall|a: int| 0 <= a < i + 1 implies #[trigger] ct_views(pairs@)[a]
            == decoded_pairs(ct@)[a] by {
            if a < i {
                assert(pairs@[a] == before[a]);
                assert(ct_views(before)[a] == decoded_pairs(ct@)[a]);
                assert(ct_views(pairs@)[a] == g1_views(pairs@[a]@));
                assert(ct_views(before)[a] == g1_views(before[a]@));
            } else {
                assert(pairs@[a]@ == pv);
                assert(ct_views(pairs@)[a] == g1_views(pairs@[a]@));
            }
        }
        i = i + 1;
    }
    let c = Ciphertext { ct: pairs };
    assert(ct_views(c.ct@) =~= decoded_pairs(ct@));
    Some(c)
}

/// Checks a stored trade linking proof: the ciphertext pairs and the proof come as
/// compressed encodings, the instance is the ciphertext flattened and the SNARK
/// commitment; `None` says that one encoding is not that of a point of G1.
pub fn verify_trade_link_bytes(
    link_pp: &PP,
    link_vk: &VK,
    ct: &Vec<Vec<Vec<u8>>>,
    snark_cm: G1Point,
    link_prf: &[u8],
) -> (r: Option<bool>)
    requires
        link_pp.l == decoded_pairs(ct@).flatten().len() + 1,
        link_vk.c@.len() >= link_pp.l,
    ensures
        r is None <==> (!pairs_decode(ct@) || g1_decompress_spec(link_prf@) is None),
        r matches Some(b) ==> b == link_check_reprs(
            *link_vk,
            decoded_pairs(ct@).flatten().push(snark_cm@),
            g1_decompress_spec(link_prf@).unwrap(),
        ),
{
    let c = match decode_ciphertext(ct) {
        Some(c) => c,
        None => return None,
    };
    let p = match G1Point::from_compressed(link_prf) {
        Some(p) => p,
        None => return None,
    };
    let instance = ciphertext_instance(&c);
    assert(g1_views(instance@).len() == instance@.len());
    let b = verify_link(link_pp, link_vk, instance, snark_cm, &p);
    assert(g1_views(instance@.push(snark_cm)) =~= g1_views(instance@).push(snark_cm@));
    Some(b)
}

} // verus!
