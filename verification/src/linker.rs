//! The linking SNARK: it proves that a vector of G1 commitments is the image of
//! one witness vector under a public sparse relation matrix.
use vstd::prelude::*;

use crate::field::{ark_fr_rand, fr_mul, scalar_values, Scalar};
use crate::group::{
    ark_g1_rand, ark_g2_rand, ark_pairing_is_one, g1_identity_repr, g1_views, g2_identity_repr, g2_mul_spec, g2_neg_spec, g2_views,
    pairing_is_one_spec, G1Point, G1Repr, G2Point,
};
use crate::matrix::{
    inner_product, ip_spec, scalar_vector_mult, sparse_ip_spec, SparseLinAlgebra, SparseMatrix,
};
use crate::relation::{
    dpp_relation_columns, generate_cp_dpp_relation, generate_cp_instance,
    generate_cp_trade_relation, generate_cp_witness, trade_relation_columns,
};
use ark_std::rand::rngs::StdRng;

verus! {

/// Public parameters: the matrix shape and the two group generators.
#[derive(Clone, Copy, Debug, PartialEq)]
pub struct PP {
    /// number of rows
    pub l: usize,
    /// number of columns
    pub t: usize,
    /// generator of G1
    pub g1: G1Point,
    /// generator of G2
    pub g2: G2Point,
}

impl PP {
    /// Public parameters from their parts.
    pub fn new(l: usize, t: usize, g1: &G1Point, g2: &G2Point) -> (pp: PP)
        ensures
            pp.l == l,
            pp.t == t,
            pp.g1 == *g1,
            pp.g2 == *g2,
    {
        PP { l, t, g1: *g1, g2: *g2 }
    }
}

/// Evaluation key: one G1 point per column of the relation.
#[derive(Clone, Debug, PartialEq)]
pub struct EK {
    /// `p[c]` is the inner product of the secret vector `k` with column `c`
    pub p: Vec<G1Point>,
}

/// Verification key.
#[derive(Clone, Debug, PartialEq)]
pub struct VK {
    /// `c[i] = g2 * (a * k[i])`
    pub c: Vec<G2Point>,
    /// `a = g2 * a`
    pub a: G2Point,
}

impl Default for PP {
    /// No rows or columns, and the identities as generators.
    fn default() -> (r: PP)
        ensures
            r.l == 0,
            r.t == 0,
            r.g1@ == g1_identity_repr(),
            r.g2@ == g2_identity_repr(),
    {
        PP { l: 0, t: 0, g1: G1Point::identity(), g2: G2Point::identity() }
    }
}

impl Default for EK {
    /// No points.
    fn default() -> (r: EK)
        ensures
            r.p@.len() == 0,
    {
        EK { p: Vec::new() }
    }
}

impl Default for VK {
    /// No points, and the identity for `a`.
    fn default() -> (r: VK)
        ensures
            r.c@.len() == 0,
            r.a@ == g2_identity_repr(),
    {
        VK { c: Vec::new(), a: G2Point::identity() }
    }
}

/// The linking SNARK over BN254.
pub struct LinkSnark;

/// The mode name of the DPP relation.
pub open spec fn dpp_mode() -> Seq<char> {
    seq!['d', 'p', 'p']
}

/// The mode name of the trade relation.
pub open spec fn trade_mode() -> Seq<char> {
    seq!['t', 'r', 'a', 'd', 'e']
}

/// What `setup` asks of its inputs in each mode.
pub open spec fn setup_inputs_ok(mode: Seq<char>, num: nat, ck: Seq<G1Point>, snark_ck: Seq<
    G1Point,
>) -> bool {
    &&& mode == dpp_mode() ==> ck.len() >= num + 1 && num + 2 <= usize::MAX
    &&& mode == trade_mode() ==> (num > 0 ==> ck.len() >= 2) && snark_ck.len() == num + 1 && 2
        * num + 1 <= usize::MAX
}

/// The relation matrix that a mode selects: the DPP relation, the trade relation, or
/// (for any other mode) the empty 0-by-0 matrix.
pub open spec fn setup_relation_ok(
    mode: Seq<char>,
    num: nat,
    ck: Seq<G1Point>,
    snark_ck: Seq<G1Point>,
    crs: SparseMatrix<G1Point>,
) -> bool {
    &&& crs.wf()
    &&& crs.entries_below(crs.nr as nat)
    &&& mode == dpp_mode() ==> crs.nr == 2 && crs.nc == num + 2 && crs.columns()
        == dpp_relation_columns(num, ck, snark_ck)
    &&& mode == trade_mode() ==> crs.nr == 2 * num + 1 && crs.nc == 2 * num + 1 && crs.columns()
        == trade_relation_columns(num, ck, snark_ck)
    &&& mode != dpp_mode() && mode != trade_mode() ==> crs.nr == 0 && crs.nc == 0
}

/// The evaluation and verification keys that the secrets `k` and `a` give.
pub open spec fn keys_from_secrets(
    pp: PP,
    crs: SparseMatrix<G1Point>,
    k: Seq<nat>,
    a: nat,
    ek: EK,
    vk: VK,
) -> bool {
    &&& ek.p@.len() == crs.nc
    &&& forall|c: int|
        0 <= c < crs.nc ==> (#[trigger] ek.p@[c])@ == sparse_ip_spec(crs.columns()[c], k)
    &&& vk.c@.len() == k.len()
    &&& forall|i: int| 0 <= i < k.len() ==> (#[trigger] vk.c@[i])@ == g2_mul_spec(pp.g2@, fr_mul(a, k[i]))
    &&& vk.a@ == g2_mul_spec(pp.g2@, a)
}

/// The pairing equation `prod_i e(x_i, c_i) * e(proof, -a) == 1`, over the
/// coordinates of the instance and of the proof.
pub open spec fn link_check_reprs(vk: VK, instance: Seq<G1Repr>, proof: G1Repr) -> bool {
    pairing_is_one_spec(
        instance.push(proof),
        g2_views(vk.c@.subrange(0, instance.len() as int)).push(g2_neg_spec(vk.a@)),
    )
}

/// The pairing equation that `verify` checks, over the instance and proof points.
pub open spec fn link_check_spec(vk: VK, instance: Seq<G1Point>, proof: G1Point) -> bool {
    link_check_reprs(vk, g1_views(instance), proof@)
}

impl LinkSnark {
    /// Public parameters with the given generators, and the relation matrix of `mode`.
    pub fn setup_with(
        g1: G1Point,
        g2: G2Point,
        num: usize,
        ck: Vec<G1Point>,
        snark_ck: Vec<G1Point>,
        mode: &str,
    ) -> (res: (PP, SparseMatrix<G1Point>))
        requires
            setup_inputs_ok(mode@, num as nat, ck@, snark_ck@),
        ensures
            setup_relation_ok(mode@, num as nat, ck@, snark_ck@, res.1),
            res.0.l == res.1.nr,
            res.0.t == res.1.nc,
            res.0.g1 == g1,
            res.0.g2 == g2,
    {
        proof {
            reveal_strlit("dpp");
            reveal_strlit("trade");
            assert("dpp"@ =~= dpp_mode());
            assert("trade"@ =~= trade_mode());
        }
        let m = mode.to_owned();
        let link_crs = if m == "dpp".to_owned() {
            generate_cp_dpp_relation(num, ck, snark_ck)
        } else if m == "trade".to_owned() {
            generate_cp_trade_relation(num, ck, snark_ck)
        } else {
            let e: SparseMatrix<G1Point> = SparseMatrix::new(0, 0);
            proof {
                assert forall|j: int, k: int|
                    0 <= j < e.columns().len() && 0 <= k < e.columns()[j].len() implies (
                    #[trigger] e.columns()[j][k]).1 < e.nr by {}
            }
            e
        };
        let l = link_crs.nr;
        let t = link_crs.nc;
        let link_pp = PP { l, t, g1, g2 };
        (link_pp, link_crs)
    }

    /// Public parameters with fresh random generators, and the relation matrix of `mode`.
    pub fn setup(rng: &mut StdRng, num: usize, ck: Vec<G1Point>, snark_ck: Vec<G1Point>, mode: &str) -> (res: (
        PP,
        SparseMatrix<G1Point>,
    ))
        requires
            setup_inputs_ok(mode@, num as nat, ck@, snark_ck@),
        ensures
            setup_relation_ok(mode@, num as nat, ck@, snark_ck@, res.1),
            res.0.l == res.1.nr,
            res.0.t == res.1.nc,
    {
        let g1 = ark_g1_rand(rng);
        let g2 = ark_g2_rand(rng);
        Self::setup_with(g1, g2, num, ck, snark_ck, mode)
    }

    /// The keys for the secret vector `k` (one entry per row) and the secret `a`.
    pub fn keygen_with(k: &Vec<Scalar>, a: &Scalar, pp: &PP, crs: &SparseMatrix<G1Point>) -> (res: (
        EK,
        VK,
    ))
        requires
            crs.wf(),
            crs.entries_below(k@.len()),
        ensures
            keys_from_secrets(*pp, *crs, scalar_values(k@), a@, res.0, res.1),
    {
        let p = SparseLinAlgebra::sparse_vector_matrix_mult(k, crs, pp.t);
        let c = scalar_vector_mult(a, k.as_slice(), pp.l);
        let ek = EK { p };
        let vk = VK { c: vec_to_g2(pp, &c), a: pp.g2.mul(a) };
        proof {
            assert forall|i: int| 0 <= i < k@.len() implies (#[trigger] vk.c@[i])@ == g2_mul_spec(
                pp.g2@,
                fr_mul(a@, scalar_values(k@)[i]),
            ) by {
                assert(c@[i]@ == fr_mul(a@, k@[i]@));
            }
        }
        (ek, vk)
    }

    /// The keys for fresh random secrets: `pp.l` entries of `k`, then `a`.
    pub fn keygen(rng: &mut StdRng, pp: &PP, crs: SparseMatrix<G1Point>) -> (res: (EK, VK))
        requires
            crs.wf(),
            crs.entries_below(pp.l as nat),
        ensures
            exists|k: Seq<nat>, a: nat|
                k.len() == pp.l && #[trigger] keys_from_secrets(*pp, crs, k, a, res.0, res.1),
    {
        let mut k: Vec<Scalar> = Vec::with_capacity(pp.l);
        let mut i: usize = 0;
        while i < pp.l
            invariant
                i <= pp.l,
                k@.len() == i,
            decreases pp.l - i,
        {
            k.push(ark_fr_rand(rng));
            i = i + 1;
        }
        let a = ark_fr_rand(rng);
        let res = Self::keygen_with(&k, &a, pp, &crs);
        assert(keys_from_secrets(*pp, crs, scalar_values(k@), a@, res.0, res.1));
        res
    }

    /// The proof for a witness: its inner product with the evaluation key.
    pub fn prove(pp: &PP, ek: &EK, witness: &Vec<Scalar>) -> (res: (G1Point, ()))
        requires
            witness@.len() == ek.p@.len(),
        ensures
            res.0@ == ip_spec(g1_views(ek.p@), scalar_values(witness@), witness@.len()),
    {
        (Self::inner_product(&ek.p, witness), ())
    }

    /// Checks the pairing equation of the instance and the proof.
    pub fn verify(pp: &PP, vk: &VK, instance: &Vec<G1Point>, prf: &G1Point) -> (r: bool)
        requires
            pp.l == instance@.len(),
            vk.c@.len() >= instance@.len(),
        ensures
            r == link_check_spec(*vk, instance@, *prf),
    {
        let mut g1: Vec<G1Point> = Vec::new();
        let mut g2: Vec<G2Point> = Vec::new();
        let mut i: usize = 0;
        while i < instance.len()
            invariant
                i <= instance@.len(),
                vk.c@.len() >= instance@.len(),
                g1@ == instance@.subrange(0, i as int),
                g2@ == vk.c@.subrange(0, i as int),
            decreases instance.len() - i,
        {
            g1.push(instance[i]);
            g2.push(vk.c[i]);
            assert(instance@.subrange(0, i + 1) =~= instance@.subrange(0, i as int).push(
                instance@[i as int],
            ));
            assert(vk.c@.subrange(0, i + 1) =~= vk.c@.subrange(0, i as int).push(vk.c@[i as int]));
            i = i + 1;
        }
        assert(instance@.subrange(0, instance@.len() as int) =~= instance@);
        g1.push(*prf);
        g2.push(vk.a.neg());
        assert(g1_views(g1@) =~= g1_views(instance@).push(prf@));
        assert(g2_views(g2@) =~= g2_views(vk.c@.subrange(0, instance@.len() as int)).push(
            g2_neg_spec(vk.a@),
        ));
        ark_pairing_is_one(&g1, &g2)
    }

    /// The linking witness `r ++ snark_witness ++ u`.
    pub fn generate_witness(r: Vec<Scalar>, u: Vec<Scalar>, snark_witness: Vec<Scalar>) -> (w: Vec<
        Scalar,
    >)
        ensures
            w@ == r@ + snark_witness@ + u@,
    {
        generate_cp_witness(r, u, snark_witness).unwrap()
    }

    /// The linking instance `cm ++ [snark_cm]`.
    pub fn generate_instance(cm: Vec<G1Point>, snark_cm: G1Point, aux_cm: ()) -> (inst: Vec<G1Point>)
        ensures
            inst@ == cm@.push(snark_cm),
    {
        generate_cp_instance(cm, snark_cm).unwrap()
    }

    /// The inner product of the scalars `v` with the points `w`.
    fn inner_product(w: &Vec<G1Point>, v: &Vec<Scalar>) -> (r: G1Point)
        requires
            v@.len() == w@.len(),
        ensures
            r@ == ip_spec(g1_views(w@), scalar_values(v@), v@.len()),
    {
        inner_product(v.as_slice(), w.as_slice())
    }
}

/// Every entry of `v` lifted into G2 by the generator of the parameters.
pub fn vec_to_g2(pp: &PP, v: &Vec<Scalar>) -> (r: Vec<G2Point>)
    ensures
        r@.len() == v@.len(),
        forall|i: int| 0 <= i < v@.len() ==> (#[trigger] r@[i])@ == g2_mul_spec(pp.g2@, v@[i]@),
{
    let mut res: Vec<G2Point> = Vec::new();
    let mut i: usize = 0;
    while i < v.len()
        invariant
            i <= v@.len(),
            res@.len() == i,
            forall|j: int| 0 <= j < i ==> (#[trigger] res@[j])@ == g2_mul_spec(pp.g2@, v@[j]@),
        decreases v.len() - i,
    {
        res.push(pp.g2.mul(&v[i]));
        i = i + 1;
    }
    res
}

} // verus!
