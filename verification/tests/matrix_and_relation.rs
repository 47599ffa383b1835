use crypto::matrix::{CoeffPos, SparseMatrix};
use crypto::relation::{
    generate_cp_dpp_relation, generate_cp_instance, generate_cp_trade_relation, generate_cp_witness,
};

fn entries(m: &SparseMatrix<u32>, c: usize) -> Vec<(u32, usize)> {
    m.get_col(c).iter().map(|e| (e.val, e.pos)).collect()
}

#[test]
fn sparse_matrix_insertions() {
    let mut m: SparseMatrix<u32> = SparseMatrix::new(3, 4);
    assert_eq!((m.nr, m.nc), (3, 4));
    assert!(m.get_col(2).is_empty());
    m.insert_val(1, 2, &7);
    m.insert_row_slice(0, 1, &vec![5, 6, 8]);
    assert_eq!(entries(&m, 0), vec![]);
    assert_eq!(entries(&m, 1), vec![(5, 0)]);
    assert_eq!(entries(&m, 2), vec![(7, 1), (6, 0)]);
    assert_eq!(entries(&m, 3), vec![(8, 0)]);
    assert_eq!(m.get_col(3)[0], CoeffPos { val: 8, pos: 0 });
}

#[test]
fn dpp_relation_layout() {
    // ck = [10, 11, 12, 13], snark_ck = [20, 21, 22, 23, 24] (cut to 4 entries)
    let m = generate_cp_dpp_relation(3, vec![10u32, 11, 12, 13], vec![20u32, 21, 22, 23, 24]);
    assert_eq!((m.nr, m.nc), (2, 5));
    assert_eq!(entries(&m, 0), vec![(10, 0)]);
    assert_eq!(entries(&m, 1), vec![(20, 1)]);
    assert_eq!(entries(&m, 2), vec![(11, 0), (21, 1)]);
    assert_eq!(entries(&m, 3), vec![(12, 0), (22, 1)]);
    assert_eq!(entries(&m, 4), vec![(13, 0), (23, 1)]);
}

#[test]
fn dpp_relation_with_short_snark_key() {
    let m = generate_cp_dpp_relation(2, vec![1u32, 2, 3], vec![9u32]);
    assert_eq!(entries(&m, 1), vec![(9, 1)]);
    assert_eq!(entries(&m, 2), vec![(2, 0)]);
    assert_eq!(entries(&m, 3), vec![(3, 0)]);
}

#[test]
fn trade_relation_layout() {
    // ck = [h, g] = [100, 200]; snark_ck = [30, 31, 32]
    let m = generate_cp_trade_relation(2, vec![100u32, 200], vec![30u32, 31, 32]);
    assert_eq!((m.nr, m.nc), (5, 5));
    assert_eq!(entries(&m, 0), vec![(200, 0), (100, 1)]);
    assert_eq!(entries(&m, 1), vec![(200, 2), (100, 3)]);
    assert_eq!(entries(&m, 2), vec![(30, 4)]);
    assert_eq!(entries(&m, 3), vec![(200, 1), (31, 4)]);
    assert_eq!(entries(&m, 4), vec![(200, 3), (32, 4)]);
}

#[test]
fn trade_relation_for_no_attributes() {
    let m = generate_cp_trade_relation(0, Vec::<u32>::new(), vec![5u32]);
    assert_eq!((m.nr, m.nc), (1, 1));
    assert_eq!(entries(&m, 0), vec![(5, 0)]);
}

#[test]
fn witness_and_instance_layout() {
    let w = generate_cp_witness(vec![1u8, 2], vec![7u8, 8, 9], vec![5u8]).unwrap();
    assert_eq!(w, vec![1, 2, 5, 7, 8, 9]);
    let inst = generate_cp_instance(vec![3u8, 4], 6u8).unwrap();
    assert_eq!(inst, vec![3, 4, 6]);
}
