//! Completeness of the linking SNARK over the library's own names: where the
//! group and pairing laws hold for the points involved, `verify` accepts what
//! `prove` gives for an honest instance.
use vstd::prelude::*;

use crate::exponent::{check_exponent, col_dot, law_link_exponents, proof_exponent, row_value};
use crate::field::{fr_mul, scalar_modulus};
use crate::group::{
    g1_add_spec, g1_identity_repr, g1_mul_spec, g1_views, g2_mul_spec, g2_neg_spec, g2_views,
    pairing_is_one_spec, G1Point, G1Repr, G2Repr,
};
use crate::linker::{keys_from_secrets, link_check_spec, EK, PP, VK};
use crate::matrix::{ip_spec, sparse_ip_spec, SparseMatrix};
use vstd::arithmetic::div_mod::{lemma_add_mod_noop, lemma_mod_twice, lemma_mul_mod_noop};

verus! {

/// `sum_{i < n} xs[i] * ys[i]`.
pub open spec fn dot(xs: Seq<nat>, ys: Seq<nat>, n: nat) -> nat
    decreases n,
{
    if n == 0 {
        0
    } else {
        dot(xs, ys, (n - 1) as nat) + xs[n - 1] * ys[n - 1]
    }
}

/// The group laws of G1 on the multiples of `g`: `g * 0` is the identity, and adding
/// or multiplying multiples of `g` adds or multiplies their exponents modulo the
/// group order.
pub open spec fn g1_multiples_laws(g: G1Repr) -> bool {
    &&& g1_mul_spec(g, 0) == g1_identity_repr()
    &&& forall|x: nat, y: nat|
        x < scalar_modulus() && y < scalar_modulus() ==> #[trigger] g1_add_spec(
            g1_mul_spec(g, x),
            g1_mul_spec(g, y),
        ) == g1_mul_spec(g, (x + y) % scalar_modulus())
    &&& forall|x: nat, s: nat|
        x < scalar_modulus() && s < scalar_modulus() ==> #[trigger] g1_mul_spec(g1_mul_spec(g, x), s)
            == g1_mul_spec(g, (x * s) % scalar_modulus())
}

/// Whether every entry is below the group order.
pub open spec fn below_order(s: Seq<nat>) -> bool {
    forall|i: int| 0 <= i < s.len() ==> #[trigger] s[i] < scalar_modulus()
}

/// Bilinearity of the pairing on multiples of `g` and `h`: for exponents below the
/// group order, the product of the pairings `e(g * xs[i], h * ys[i])` is one when
/// `sum_i xs[i] * ys[i]` is a multiple of the group order.
pub open spec fn pairing_laws(g: G1Repr, h: G2Repr) -> bool {
    forall|xs: Seq<nat>, ys: Seq<nat>|
        xs.len() == ys.len() && below_order(xs) && below_order(ys) && #[trigger] dot(
            xs,
            ys,
            xs.len(),
        ) % scalar_modulus() == 0 ==> pairing_is_one_spec(
            Seq::new(xs.len(), |i: int| g1_mul_spec(g, xs[i])),
            Seq::new(ys.len(), |i: int| g2_mul_spec(h, ys[i])),
        )
}

/// The values of a sequence of naturals as integers.
pub open spec fn as_ints(s: Seq<nat>) -> Seq<int> {
    s.map_values(|x: nat| x as int)
}

/// The exponent reading of points through `dl`, as integers.
pub open spec fn dl_int(dl: spec_fn(G1Point) -> nat) -> spec_fn(G1Point) -> int {
    |p: G1Point| dl(p) as int
}

/// Every point of the matrix is `g * dl(point)`, with `dl(point)` below the order.
pub open spec fn matrix_points_are_multiples(
    crs: SparseMatrix<G1Point>,
    g: G1Repr,
    dl: spec_fn(G1Point) -> nat,
) -> bool {
    forall|c: int, j: int|
        0 <= c < crs.columns().len() && 0 <= j < crs.columns()[c].len() ==> {
            &&& (#[trigger] crs.columns()[c][j]).0@ == g1_mul_spec(g, dl(crs.columns()[c][j].0))
            &&& dl(crs.columns()[c][j].0) < scalar_modulus()
        }
}

proof fn lemma_sparse_ip(
    col: Seq<(G1Point, usize)>,
    k: Seq<nat>,
    g: G1Repr,
    dl: spec_fn(G1Point) -> nat,
)
    requires
        g1_multiples_laws(g),
        forall|i: int| 0 <= i < k.len() ==> #[trigger] k[i] < scalar_modulus(),
        forall|j: int|
            0 <= j < col.len() ==> {
                &&& (#[trigger] col[j]).0@ == g1_mul_spec(g, dl(col[j].0))
                &&& dl(col[j].0) < scalar_modulus()
                &&& col[j].1 < k.len()
            },
    ensures
        sparse_ip_spec(col, k) == g1_mul_spec(
            g,
            (col_dot(col, dl_int(dl), as_ints(k)) % (scalar_modulus() as int)) as nat,
        ),
    decreases col.len(),
{
    let p = scalar_modulus() as int;
    if col.len() == 0 {
    } else {
        let prev = col.drop_last();
        assert forall|j: int| 0 <= j < prev.len() implies {
            &&& (#[trigger] prev[j]).0@ == g1_mul_spec(g, dl(prev[j].0))
            &&& dl(prev[j].0) < scalar_modulus()
            &&& prev[j].1 < k.len()
        } by {
            assert(prev[j] == col[j]);
        }
        lemma_sparse_ip(prev, k, g, dl);
        let e = col.last();
        assert(e == col[col.len() - 1]);
        let d = dl(e.0);
        let kr = k[e.1 as int];
        let cd = col_dot(prev, dl_int(dl), as_ints(k));
        let cdm = (cd % p) as nat;
        assert(as_ints(k)[e.1 as int] == kr as int);
        assert(g1_mul_spec(g1_mul_spec(g, d), kr) == g1_mul_spec(g, (d * kr) % scalar_modulus()));
        let dk = (d * kr) % scalar_modulus();
        assert(g1_add_spec(g1_mul_spec(g, cdm), g1_mul_spec(g, dk)) == g1_mul_spec(
            g,
            (cdm + dk) % scalar_modulus(),
        ));
        assert(col_dot(col, dl_int(dl), as_ints(k)) == cd + kr * d);
        lemma_add_mod_noop(cd, (d * kr) as int, p);
        assert(kr * d == d * kr) by (nonlinear_arith);
        assert(((cdm + dk) % scalar_modulus()) as int == (cd + kr * d) % p);
    }
}

proof fn lemma_proof_point(
    crs: SparseMatrix<G1Point>,
    k: Seq<nat>,
    ekv: Seq<G1Repr>,
    w: Seq<nat>,
    g: G1Repr,
    dl: spec_fn(G1Point) -> nat,
    n: nat,
)
    requires
        g1_multiples_laws(g),
        n <= crs.nc,
        n <= w.len(),
        crs.wf(),
        forall|i: int| 0 <= i < w.len() ==> #[trigger] w[i] < scalar_modulus(),
        forall|c: int|
            0 <= c < crs.nc ==> #[trigger] ekv[c] == g1_mul_spec(
                g,
                (col_dot(crs.columns()[c], dl_int(dl), as_ints(k)) % (scalar_modulus() as int)) as nat,
            ),
    ensures
        ip_spec(ekv, w, n) == g1_mul_spec(
            g,
            (proof_exponent(crs.columns(), dl_int(dl), as_ints(w), as_ints(k), n) % (
            scalar_modulus() as int)) as nat,
        ),
    decreases n,
{
    let p = scalar_modulus() as int;
    if n > 0 {
        lemma_proof_point(crs, k, ekv, w, g, dl, (n - 1) as nat);
        let c = n - 1;
        let cd = col_dot(crs.columns()[c], dl_int(dl), as_ints(k));
        let cdm = (cd % p) as nat;
        let wc = w[c];
        let pe = proof_exponent(crs.columns(), dl_int(dl), as_ints(w), as_ints(k), (n - 1) as nat);
        let pem = (pe % p) as nat;
        assert(ekv[c] == g1_mul_spec(g, cdm));
        assert(g1_mul_spec(g1_mul_spec(g, cdm), wc) == g1_mul_spec(g, (cdm * wc) % scalar_modulus()));
        let t = (cdm * wc) % scalar_modulus();
        assert(g1_add_spec(g1_mul_spec(g, pem), g1_mul_spec(g, t)) == g1_mul_spec(
            g,
            (pem + t) % scalar_modulus(),
        ));
        assert(as_ints(w)[c] == wc as int);
        assert(proof_exponent(crs.columns(), dl_int(dl), as_ints(w), as_ints(k), n) == pe + wc * cd);
        lemma_mul_mod_noop(cd, wc as int, p);
        lemma_mod_twice(wc as int, p);
        assert((wc as int) % p == wc as int) by {
            vstd::arithmetic::div_mod::lemma_small_mod(wc, p as nat);
        }
        assert(cd * wc == wc * cd) by (nonlinear_arith);
        assert(t as int == (wc * cd) % p);
        lemma_add_mod_noop(pe, wc * cd, p);
        assert(((pem + t) % scalar_modulus()) as int == (pe + wc * cd) % p);
    }
}

proof fn lemma_dot_prefix(
    xs: Seq<nat>,
    ys: Seq<nat>,
    cols: Seq<Seq<(G1Point, usize)>>,
    dl: spec_fn(G1Point) -> nat,
    w: Seq<nat>,
    k: Seq<nat>,
    a: nat,
    nc: nat,
    j: nat,
)
    requires
        j <= k.len(),
        xs.len() >= k.len(),
        ys.len() >= k.len(),
        forall|i: int|
            0 <= i < k.len() ==> #[trigger] xs[i] as int == row_value(
                cols,
                dl_int(dl),
                as_ints(w),
                i,
                nc,
            ) % (scalar_modulus() as int),
        forall|i: int| 0 <= i < k.len() ==> #[trigger] ys[i] == fr_mul(a, k[i]),
    ensures
        (dot(xs, ys, j) as int) % (scalar_modulus() as int) == (a * check_exponent(
            cols,
            dl_int(dl),
            as_ints(w),
            as_ints(k),
            j,
            nc,
        )) % (scalar_modulus() as int),
    decreases j,
{
    let p = scalar_modulus() as int;
    if j > 0 {
        lemma_dot_prefix(xs, ys, cols, dl, w, k, a, nc, (j - 1) as nat);
        let i = j - 1;
        let d = dot(xs, ys, (j - 1) as nat) as int;
        let c = check_exponent(cols, dl_int(dl), as_ints(w), as_ints(k), (j - 1) as nat, nc);
        let r = row_value(cols, dl_int(dl), as_ints(w), i, nc);
        let ki = k[i] as int;
        assert(as_ints(k)[i] == ki);
        assert(xs[i] as int == r % p);
        assert(ys[i] as int == (a * ki) % p);
        // (d + (r % p) * ((a k) % p)) % p == (a c + r a k) % p
        lemma_mul_mod_noop(r, a * ki, p);
        lemma_add_mod_noop(d, (r % p) * ((a * ki) % p), p);
        lemma_add_mod_noop(a * c, r * (a * ki), p);
        lemma_mod_twice(r * (a * ki), p);
        assert(a * (c + ki * r) == a * c + r * (a * ki)) by (nonlinear_arith);
        assert(dot(xs, ys, j) as int == d + (r % p) * ((a * ki) % p));
        assert(check_exponent(cols, dl_int(dl), as_ints(w), as_ints(k), j, nc) == c + ki * r);
    }
}

proof fn lemma_ek_multiples(
    crs: SparseMatrix<G1Point>,
    k: Seq<nat>,
    ek: EK,
    g: G1Repr,
    dl: spec_fn(G1Point) -> nat,
)
    requires
        crs.wf(),
        crs.entries_below(k.len()),
        ek.p@.len() == crs.nc,
        forall|c: int|
            0 <= c < crs.nc ==> (#[trigger] ek.p@[c])@ == sparse_ip_spec(crs.columns()[c], k),
        forall|i: int| 0 <= i < k.len() ==> #[trigger] k[i] < scalar_modulus(),
        matrix_points_are_multiples(crs, g, dl),
        g1_multiples_laws(g),
    ensures
        forall|c: int|
            0 <= c < crs.nc ==> #[trigger] g1_views(ek.p@)[c] == g1_mul_spec(
                g,
                (col_dot(crs.columns()[c], dl_int(dl), as_ints(k)) % (scalar_modulus() as int)) as nat,
            ),
{
    let cols = crs.columns();
    assert forall|c: int| 0 <= c < crs.nc implies #[trigger] g1_views(ek.p@)[c] == g1_mul_spec(
        g,
        (col_dot(cols[c], dl_int(dl), as_ints(k)) % (scalar_modulus() as int)) as nat,
    ) by {
        let col = cols[c];
        assert forall|j: int| 0 <= j < col.len() implies {
            &&& (#[trigger] col[j]).0@ == g1_mul_spec(g, dl(col[j].0))
            &&& dl(col[j].0) < scalar_modulus()
            &&& col[j].1 < k.len()
        } by {
            assert(cols[c][j] == col[j]);
        }
        lemma_sparse_ip(col, k, g, dl);
        assert(g1_views(ek.p@)[c] == ek.p@[c]@);
    }
}

proof fn lemma_last_term(dn: int, pe: int, a: nat)
    requires
        a < scalar_modulus(),
        dn % (scalar_modulus() as int) == (a * pe) % (scalar_modulus() as int),
    ensures
        (dn + (pe % (scalar_modulus() as int)) * ((((scalar_modulus() - a) as nat) % scalar_modulus())
            as int)) % (scalar_modulus() as int) == 0,
{
    let p = scalar_modulus() as int;
    let na = ((scalar_modulus() - a) as nat) % scalar_modulus();
    lemma_mul_mod_noop(pe, na as int, p);
    lemma_add_mod_noop(dn, (pe % p) * (na as int), p);
    lemma_mod_twice(pe * na, p);
    lemma_add_mod_noop(a * pe, pe * na, p);
    if a == 0 {
        assert(na == 0);
        assert(a * pe == 0);
        assert(pe * na == 0);
    } else {
        assert(na as int == p - a);
        assert(a * pe + pe * (p - a) == pe * p) by (nonlinear_arith);
    }
    vstd::arithmetic::div_mod::lemma_mod_multiples_basic(pe, p);
    assert((pe * p) % p == 0) by {
        assert(pe * p == p * pe) by (nonlinear_arith);
    }
}

/// Completeness of the linking SNARK over the library's names: take the keys that
/// the secrets `k` and `a` give for a relation matrix whose points are multiples
/// `g * dl(P)` of one point `g`, a witness `w`, the proof `prove` returns for it, and
/// the honest instance, whose `i`-th point is `g` times the `i`-th entry of `M w`.
/// Where `g` obeys the group laws on its multiples, the pairing is bilinear on the
/// multiples of `g` and of the second generator `h`, and negating `h * a` gives
/// `h * -a`, the pairing check of `verify` accepts.
#[verifier::spinoff_prover]
pub proof fn law_link_complete(
    pp: PP,
    crs: SparseMatrix<G1Point>,
    k: Seq<nat>,
    a: nat,
    ek: EK,
    vk: VK,
    w: Seq<nat>,
    instance: Seq<G1Point>,
    proof: G1Point,
    g: G1Repr,
    dl: spec_fn(G1Point) -> nat,
)
    requires
        crs.wf(),
        crs.entries_below(k.len()),
        keys_from_secrets(pp, crs, k, a, ek, vk),
        forall|i: int| 0 <= i < k.len() ==> #[trigger] k[i] < scalar_modulus(),
        a < scalar_modulus(),
        w.len() == crs.nc,
        forall|i: int| 0 <= i < w.len() ==> #[trigger] w[i] < scalar_modulus(),
        proof@ == ip_spec(g1_views(ek.p@), w, w.len()),
        instance.len() == k.len(),
        forall|i: int|
            0 <= i < k.len() ==> (#[trigger] instance[i])@ == g1_mul_spec(
                g,
                (row_value(crs.columns(), dl_int(dl), as_ints(w), i, crs.nc as nat) % (
                scalar_modulus() as int)) as nat,
            ),
        matrix_points_are_multiples(crs, g, dl),
        g1_multiples_laws(g),
        pairing_laws(g, pp.g2@),
        g2_neg_spec(g2_mul_spec(pp.g2@, a)) == g2_mul_spec(
            pp.g2@,
            ((scalar_modulus() - a) as nat) % scalar_modulus(),
        ),
    ensures
        link_check_spec(vk, instance, proof),
{
    let p = scalar_modulus() as int;
    let cols = crs.columns();
    let n = k.len();
    let nc = crs.nc as nat;
    let h = pp.g2@;
    lemma_ek_multiples(crs, k, ek, g, dl);
    lemma_proof_point(crs, k, g1_views(ek.p@), w, g, dl, nc);
    let pe = proof_exponent(cols, dl_int(dl), as_ints(w), as_ints(k), nc);
    assert(proof@ == g1_mul_spec(g, (pe % p) as nat));
    law_link_exponents(crs, dl_int(dl), as_ints(k), as_ints(w));
    assert(as_ints(k).len() == n);
    assert(pe == check_exponent(cols, dl_int(dl), as_ints(w), as_ints(k), n, nc));
    let na = ((scalar_modulus() - a) as nat) % scalar_modulus();
    let xs = Seq::new(
        n + 1,
        |i: int|
            if i < n {
                (row_value(cols, dl_int(dl), as_ints(w), i, nc) % p) as nat
            } else {
                (pe % p) as nat
            },
    );
    let ys = Seq::new(n + 1, |i: int| if i < n { fr_mul(a, k[i]) } else { na });
    let lhs = g1_views(instance).push(proof@);
    let rhs = g2_views(vk.c@.subrange(0, instance.len() as int)).push(g2_neg_spec(vk.a@));
    assert(lhs =~= Seq::new(xs.len(), |i: int| g1_mul_spec(g, xs[i])));
    assert(rhs =~= Seq::new(ys.len(), |i: int| g2_mul_spec(h, ys[i])));
    assert forall|i: int| 0 <= i < n implies #[trigger] xs[i] as int == row_value(
        cols,
        dl_int(dl),
        as_ints(w),
        i,
        nc,
    ) % p by {}
    assert forall|i: int| 0 <= i < n implies #[trigger] ys[i] == fr_mul(a, k[i]) by {}
    lemma_dot_prefix(xs, ys, cols, dl, w, k, a, nc, n);
    let dn = dot(xs, ys, n) as int;
    lemma_last_term(dn, pe, a);
    assert(dot(xs, ys, n + 1) as int == dn + ((pe % p) as nat) * na);
    assert(dot(xs, ys, xs.len()) % scalar_modulus() == 0);
    assert(below_order(xs));
    assert forall|i: int| 0 <= i < ys.len() implies #[trigger] ys[i] < scalar_modulus() by {
        if i == n {
            assert(ys[i] == na);
        } else {
            assert(ys[i] == fr_mul(a, k[i]));
        }
    }
}

} // verus!
