use ark_std::rand::{rngs::StdRng, SeedableRng};
use crypto::encryption::{Ciphertext, ElGamal, Plaintext};
use crypto::field::Scalar;
use crypto::group::{G1Point, G2Point};
use crypto::linker::{vec_to_g2, LinkSnark, PP};
use crypto::matrix::{inner_product, scalar_vector_mult, SparseLinAlgebra, SparseMatrix};
use crypto::protocol::{
    ciphertext_instance, dpp_commit, prove_dpp_link, prove_trade_link, setup_dpp_link,
    setup_trade_link, verify_link,
};

fn points(rng: &mut StdRng, n: usize) -> Vec<G1Point> {
    (0..n).map(|_| G1Point::random(rng)).collect()
}

fn small(v: &[u64]) -> Vec<Scalar> {
    v.iter().map(|&x| Scalar::from_u64(x)).collect()
}

#[test]
fn group_identity_and_scalar_laws() {
    let mut rng = StdRng::seed_from_u64(3);
    let p = G1Point::random(&mut rng);
    let o = G1Point::identity();
    assert!(p.add(&o).same_point(&p));
    assert!(p.mul(&Scalar::one()).same_point(&p));
    assert!(p.mul(&Scalar::zero()).same_point(&o));
    assert!(p.add(&p.neg()).same_point(&o));
    assert!(p.add(&p).same_point(&p.mul(&Scalar::from_u64(2))));
    assert!(!p.same_point(&o));
    let q = G2Point::random(&mut rng);
    assert_eq!(q.mul(&Scalar::one()), q);
    assert_eq!(q.mul(&Scalar::zero()), G2Point::identity());
    assert_ne!(q.neg(), q);
}

#[test]
fn inner_products_and_scalar_vectors() {
    let mut rng = StdRng::seed_from_u64(4);
    let w = points(&mut rng, 3);
    let v = small(&[2, 0, 5]);
    let expected = w[0].mul(&v[0]).add(&w[2].mul(&v[2]));
    assert!(inner_product(&v, &w).same_point(&expected));
    let mut m: SparseMatrix<G1Point> = SparseMatrix::new(3, 2);
    m.insert_val(0, 0, &w[0]);
    m.insert_val(2, 0, &w[2]);
    m.insert_val(1, 1, &w[1]);
    let col0 = SparseLinAlgebra::sparse_inner_product(&v, m.get_col(0));
    assert!(col0.same_point(&expected));
    let prod = SparseLinAlgebra::sparse_vector_matrix_mult(&v, &m, 2);
    assert_eq!(prod.len(), 2);
    assert!(prod[1].same_point(&G1Point::identity()));
    let sv = scalar_vector_mult(&Scalar::from_u64(3), &v, 3);
    assert_eq!(sv, small(&[6, 0, 15]));
    let pp = PP::new(3, 2, &w[0], &G2Point::random(&mut rng));
    let g2s = vec_to_g2(&pp, &v);
    assert_eq!(g2s[1], G2Point::identity());
    assert_eq!(g2s[0], pp.g2.mul(&v[0]));
}

#[test]
fn link_setup_modes() {
    let mut rng = StdRng::seed_from_u64(5);
    let ck = points(&mut rng, 4);
    let snark_ck = points(&mut rng, 4);
    let (pp, crs) = LinkSnark::setup(&mut rng, 3, ck.clone(), snark_ck.clone(), "dpp");
    assert_eq!((pp.l, pp.t, crs.nr, crs.nc), (2, 5, 2, 5));
    let (pp, crs) = LinkSnark::setup(&mut rng, 3, ck[..2].to_vec(), snark_ck.clone(), "trade");
    assert_eq!((pp.l, pp.t, crs.nr, crs.nc), (7, 7, 7, 7));
    let (pp, crs) = LinkSnark::setup(&mut rng, 3, ck, snark_ck, "other");
    assert_eq!((pp.l, pp.t, crs.nr, crs.nc), (0, 0, 0, 0));
}

#[test]
fn dpp_link_accepts_matching_commitments() {
    let mut rng = StdRng::seed_from_u64(6);
    let len = 3;
    let snark_ck = points(&mut rng, len + 1);
    let (ck, pp, ek, vk) = setup_dpp_link(&mut rng, len, snark_ck.clone());
    assert_eq!(ck.len(), len + 1);
    assert_eq!(ek.p.len(), len + 2);
    assert_eq!(vk.c.len(), 2);
    let attr = small(&[2, 2, 2]);
    let open = Scalar::random(&mut rng);
    let (cm, prf) = prove_dpp_link(&mut rng, &ck, &pp, &ek, &attr, &open);
    let mut snark_w = vec![open];
    snark_w.extend(attr.iter().cloned());
    let snark_cm = inner_product(&snark_w, &snark_ck);
    assert!(verify_link(&pp, &vk, vec![cm], snark_cm, &prf));
    let mut other_w = vec![open];
    other_w.extend(small(&[2, 3, 2]));
    let other_cm = inner_product(&other_w, &snark_ck);
    assert!(!verify_link(&pp, &vk, vec![cm], other_cm, &prf));
    assert!(!verify_link(&pp, &vk, vec![cm], snark_cm, &prf.add(&ck[0])));
}

#[test]
fn dpp_commitment_formula() {
    let mut rng = StdRng::seed_from_u64(7);
    let ck = points(&mut rng, 3);
    let attr = small(&[4, 9]);
    let o = Scalar::from_u64(5);
    let cm = dpp_commit(&ck, &attr, &o);
    let expected = ck[1].mul(&attr[0]).add(&ck[2].mul(&attr[1])).add(&ck[0].mul(&o));
    assert!(cm.same_point(&expected));
}

#[test]
fn trade_link_accepts_ciphertext_of_attributes() {
    let mut rng = StdRng::seed_from_u64(8);
    let len = 3;
    let snark_ck = points(&mut rng, len + 1);
    let (enc_pp, enc_pk, enc_sk, enc_ck, pp, ek, vk) = setup_trade_link(&mut rng, len, snark_ck.clone());
    assert_eq!(enc_pk.pk.len(), 2);
    assert_eq!(enc_ck.ck, vec![enc_pk.pk[1], enc_pp.generator]);
    assert_eq!((pp.l, pp.t, ek.p.len(), vk.c.len()), (7, 7, 7, 7));
    let attr = small(&[2, 7, 1]);
    let open = Scalar::random(&mut rng);
    let (ct, prf) = prove_trade_link(&mut rng, &enc_pp, &enc_pk, &pp, &ek, &attr, &open);
    let instance = ciphertext_instance(&ct);
    assert_eq!(instance.len(), 2 * len);
    assert_eq!(instance[2], ct.ct[1][0]);
    let mut snark_w = vec![open];
    snark_w.extend(attr.iter().cloned());
    let snark_cm = inner_product(&snark_w, &snark_ck);
    assert!(verify_link(&pp, &vk, instance.clone(), snark_cm, &prf));
    let mut wrong = instance;
    wrong.swap(0, 2);
    assert!(!verify_link(&pp, &vk, wrong, snark_cm, &prf));
    let dec = ElGamal::decrypt(&enc_pp, &enc_sk, &ct).unwrap();
    assert_eq!(dec.msg, attr);
}

#[test]
fn elgamal_round_trip_and_layout() {
    let mut rng = StdRng::seed_from_u64(9);
    let pp = ElGamal::setup(&mut rng).unwrap();
    let (pk, sk, ck) = ElGamal::keygen(&pp, &mut rng).unwrap();
    assert_eq!(pk.pk[0], pp.generator);
    assert_eq!(pk.pk[1], pp.generator.mul(&sk.sk));
    assert_eq!(ck.ck, vec![pk.pk[1], pk.pk[0]]);
    let msg = Plaintext::from_plaintext_vec(small(&[0, 5, 3, 12]));
    let (ct, r) = ElGamal::encrypt(&pp, &pk, &msg, &mut rng).unwrap();
    assert_eq!(ct.ct.len(), 4);
    assert_eq!(r.randness.len(), 4);
    assert_eq!(ct.ct[1][0], pp.generator.mul(&r.randness[1]));
    let expected1 = pk.pk[1].mul(&r.randness[1]).add(&pp.generator.mul(&msg.msg[1]));
    assert_eq!(ct.ct[1][1], expected1);
    let dec = ElGamal::decrypt(&pp, &sk, &ct).unwrap();
    assert_eq!(dec.msg, msg.msg);
    let empty = ElGamal::decrypt(&pp, &sk, &Ciphertext::from_ciphertext_vec(vec![])).unwrap();
    assert!(empty.msg.is_empty());
}

#[test]
fn elgamal_encrypt_with_given_randomness() {
    let mut rng = StdRng::seed_from_u64(10);
    let pp = ElGamal::setup(&mut rng).unwrap();
    let (pk, _sk, _ck) = ElGamal::keygen_with(&pp, &Scalar::from_u64(4));
    assert_eq!(pk.pk[1], pp.generator.mul(&Scalar::from_u64(4)));
    let msg = Plaintext::from_plaintext_vec(small(&[1]));
    let (ct, r) = ElGamal::encrypt_with(&pp, &pk, &msg, &small(&[2]));
    assert_eq!(r.randness, small(&[2]));
    assert_eq!(ct.ct[0][0], pp.generator.mul(&Scalar::from_u64(2)));
    assert_eq!(ct.ct[0][1], pp.generator.mul(&Scalar::from_u64(9)));
}

#[test]
fn link_proof_equals_secret_combination_of_instance() {
    // Points with known exponents: P_j = g * e_j.
    let mut rng = StdRng::seed_from_u64(11);
    let g = G1Point::random(&mut rng);
    let e = small(&[3, 5, 7, 11]);
    let p: Vec<G1Point> = e.iter().map(|x| g.mul(x)).collect();
    let mut m: SparseMatrix<G1Point> = SparseMatrix::new(2, 3);
    m.insert_val(0, 0, &p[0]);
    m.insert_val(1, 1, &p[1]);
    m.insert_val(0, 2, &p[2]);
    m.insert_val(1, 2, &p[3]);
    let k = small(&[2, 9]);
    let pp = PP::new(2, 3, &g, &G2Point::random(&mut rng));
    let (ek, _vk) = LinkSnark::keygen_with(&k, &Scalar::from_u64(6), &pp, &m);
    let w = small(&[4, 1, 10]);
    let (prf, ()) = LinkSnark::prove(&pp, &ek, &w);
    // The instance x = M w: x_0 = 4*P0 + 10*P2, x_1 = 1*P1 + 10*P3.
    let x0 = p[0].mul(&w[0]).add(&p[2].mul(&w[2]));
    let x1 = p[1].mul(&w[1]).add(&p[3].mul(&w[2]));
    let combined = inner_product(&k, &[x0, x1]);
    assert!(prf.same_point(&combined));
    // In the exponent: 2*(4*3 + 10*7) + 9*(1*5 + 10*11) = 1199.
    assert!(prf.same_point(&g.mul(&Scalar::from_u64(1199))));
}

/// The instance `M w` of a relation matrix of points and a witness.
fn relation_times_witness(m: &SparseMatrix<G1Point>, w: &[Scalar]) -> Vec<G1Point> {
    let mut acc = vec![G1Point::identity(); m.nr];
    for c in 0..m.nc {
        for e in m.get_col(c).iter() {
            acc[e.pos] = acc[e.pos].add(&e.val.mul(&w[c]));
        }
    }
    acc
}

#[test]
fn dpp_relation_maps_witness_to_commitments() {
    let mut rng = StdRng::seed_from_u64(12);
    let len = 3;
    let ck = points(&mut rng, len + 1);
    let snark_ck = points(&mut rng, len + 1);
    let crs = crypto::relation::generate_cp_dpp_relation(len, ck.clone(), snark_ck.clone());
    let attr = small(&[6, 1, 4]);
    let o = Scalar::from_u64(13);
    let open = Scalar::from_u64(17);
    let w = LinkSnark::generate_witness(vec![o], attr.clone(), vec![open]);
    let x = relation_times_witness(&crs, &w);
    assert!(x[0].same_point(&dpp_commit(&ck, &attr, &o)));
    let mut snark_w = vec![open];
    snark_w.extend(attr.iter().cloned());
    assert!(x[1].same_point(&inner_product(&snark_w, &snark_ck)));
}

#[test]
fn trade_relation_maps_witness_to_ciphertext() {
    let mut rng = StdRng::seed_from_u64(13);
    let len = 2;
    let pp = ElGamal::setup(&mut rng).unwrap();
    let (pk, _sk, ck) = ElGamal::keygen_with(&pp, &Scalar::from_u64(21));
    let snark_ck = points(&mut rng, len + 1);
    let crs = crypto::relation::generate_cp_trade_relation(len, ck.ck.clone(), snark_ck.clone());
    let attr = small(&[8, 3]);
    let rs = small(&[5, 9]);
    let (ct, _) = ElGamal::encrypt_with(&pp, &pk, &Plaintext::from_plaintext_vec(attr.clone()), &rs);
    let open = Scalar::from_u64(2);
    let w = LinkSnark::generate_witness(rs, attr.clone(), vec![open]);
    let x = relation_times_witness(&crs, &w);
    assert_eq!(x.len(), 2 * len + 1);
    for i in 0..len {
        assert!(x[2 * i].same_point(&ct.ct[i][0]));
        assert!(x[2 * i + 1].same_point(&ct.ct[i][1]));
    }
    let mut snark_w = vec![open];
    snark_w.extend(attr.iter().cloned());
    assert!(x[2 * len].same_point(&inner_product(&snark_w, &snark_ck)));
}

#[test]
fn test_cp_dpp_bn254() {
    const LEN: usize = 50;
    let mut rng = StdRng::seed_from_u64(14);
    let attr = small(&[2u64; LEN]);
    // The SNARK's commitment key, drawn at random: the SNARK itself is not part of this crate.
    let snark_ck = points(&mut rng, LEN + 1);
    let (ck, link_pp, link_ek, link_vk) = setup_dpp_link(&mut rng, LEN, snark_ck.clone());
    let open = Scalar::random(&mut rng);
    let (cm, link_prf) = prove_dpp_link(&mut rng, &ck, &link_pp, &link_ek, &attr, &open);
    let mut snark_w = vec![open];
    snark_w.extend(attr.iter().cloned());
    let snark_cm = inner_product(&snark_w, &snark_ck);
    assert!(verify_link(&link_pp, &link_vk, vec![cm], snark_cm, &link_prf));
}

#[test]
fn trade_circuit_test_cp_trade_bn254() {
    const LEN: usize = 50;
    let mut rng = StdRng::seed_from_u64(15);
    let attr = small(&[2u64; LEN]);
    let cm_old = Scalar::random(&mut rng);
    let sk_s = Scalar::random(&mut rng);
    let keys: Vec<Scalar> = (0..crypto::mimc7::MIMC7_ROUNDS as u64).map(|i| Scalar::from_u64(i * i + 7)).collect();
    let nf = crypto::mimc7::mimc7(&cm_old, &sk_s, &keys);
    let circuit = crypto::circuit::TradeCircuit::new(attr.clone(), sk_s, cm_old, nf, LEN, keys);
    assert_eq!(circuit.is_satisfied(), Some(true));
    // The SNARK's commitment key, drawn at random: the SNARK itself is not part of this crate.
    let snark_ck = points(&mut rng, LEN + 1);
    let (enc_pp, enc_pk, enc_sk, _enc_ck, link_pp, link_ek, link_vk) =
        setup_trade_link(&mut rng, LEN, snark_ck.clone());
    let open = Scalar::random(&mut rng);
    let (ct, link_prf) = prove_trade_link(&mut rng, &enc_pp, &enc_pk, &link_pp, &link_ek, &attr, &open);
    let mut snark_w = vec![open];
    snark_w.extend(attr.iter().cloned());
    let snark_cm = inner_product(&snark_w, &snark_ck);
    let ct_instance = ciphertext_instance(&ct);
    assert!(verify_link(&link_pp, &link_vk, ct_instance, snark_cm, &link_prf), "[Linker] Verification Failed");
    let dec_msg = ElGamal::decrypt(&enc_pp, &enc_sk, &ct).unwrap();
    assert_eq!(dec_msg.msg, attr);
}

#[test]
fn compressed_points_round_trip() {
    let mut rng = StdRng::seed_from_u64(16);
    let p = G1Point::random(&mut rng);
    let bytes = p.to_compressed();
    assert_eq!(bytes.len(), 32);
    assert_eq!(G1Point::from_compressed(&bytes), Some(p));
    assert_eq!(G1Point::from_compressed(&G1Point::identity().to_compressed()), Some(G1Point::identity()));
    assert_eq!(G1Point::from_compressed(&[0xffu8; 32]), None);
    assert_eq!(G1Point::from_compressed(&[]), None);
    let q = G2Point::random(&mut rng);
    let qb = q.to_compressed();
    assert_eq!(qb.len(), 64);
    assert_eq!(G2Point::from_compressed(&qb), Some(q));
    assert_eq!(G2Point::from_compressed(&qb[..10]), None);
    assert_eq!(p.neg().neg(), p);
    assert_eq!(p.neg().to_coordinates().0, p.to_coordinates().0);
    assert_eq!(G1Point::identity().neg(), G1Point::identity());
}

#[test]
fn dpp_link_checked_from_encodings() {
    let mut rng = StdRng::seed_from_u64(17);
    let len = 3;
    let snark_ck = points(&mut rng, len + 1);
    let (ck, pp, ek, vk) = setup_dpp_link(&mut rng, len, snark_ck.clone());
    let attr = small(&[1, 4, 2]);
    let open = Scalar::random(&mut rng);
    let (cm, prf) = prove_dpp_link(&mut rng, &ck, &pp, &ek, &attr, &open);
    let mut snark_w = vec![open];
    snark_w.extend(attr.iter().cloned());
    let snark_cm = inner_product(&snark_w, &snark_ck);
    let cm_b = cm.to_compressed();
    let prf_b = prf.to_compressed();
    assert_eq!(crypto::protocol::verify_dpp_link_bytes(&pp, &vk, &cm_b, snark_cm, &prf_b), Some(true));
    let other = G1Point::random(&mut rng).to_compressed();
    assert_eq!(crypto::protocol::verify_dpp_link_bytes(&pp, &vk, &other, snark_cm, &prf_b), Some(false));
    assert_eq!(crypto::protocol::verify_dpp_link_bytes(&pp, &vk, &[1u8; 5], snark_cm, &prf_b), None);
}

#[test]
fn trade_link_checked_from_encodings() {
    let mut rng = StdRng::seed_from_u64(18);
    let len = 2;
    let snark_ck = points(&mut rng, len + 1);
    let (enc_pp, enc_pk, _enc_sk, _enc_ck, pp, ek, vk) = setup_trade_link(&mut rng, len, snark_ck.clone());
    let attr = small(&[3, 5]);
    let open = Scalar::random(&mut rng);
    let (ct, prf) = prove_trade_link(&mut rng, &enc_pp, &enc_pk, &pp, &ek, &attr, &open);
    let mut snark_w = vec![open];
    snark_w.extend(attr.iter().cloned());
    let snark_cm = inner_product(&snark_w, &snark_ck);
    let ct_b: Vec<Vec<Vec<u8>>> = ct.ct.iter().map(|pair| pair.iter().map(|p| p.to_compressed()).collect()).collect();
    let decoded = crypto::protocol::decode_ciphertext(&ct_b).unwrap();
    assert_eq!(decoded, ct);
    let prf_b = prf.to_compressed();
    assert_eq!(crypto::protocol::verify_trade_link_bytes(&pp, &vk, &ct_b, snark_cm, &prf_b), Some(true));
    let mut bad = ct_b.clone();
    bad[1][0] = vec![0xffu8; 32];
    assert_eq!(crypto::protocol::decode_ciphertext(&bad), None);
    assert_eq!(crypto::protocol::verify_trade_link_bytes(&pp, &vk, &bad, snark_cm, &prf_b), None);
    let mut swapped = ct_b;
    swapped.swap(0, 1);
    assert_eq!(crypto::protocol::verify_trade_link_bytes(&pp, &vk, &swapped, snark_cm, &prf_b), Some(false));
}
