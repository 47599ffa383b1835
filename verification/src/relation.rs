//! The sparse relation matrices that link commitments to the SNARK's own
//! commitment, and the witness and instance vectors that go with them.
use vstd::prelude::*;

use crate::matrix::SparseMatrix;
use ark_relations::r1cs::SynthesisError;

verus! {

/// The error type of constraint synthesis.
#[verifier::external_type_specification]
#[verifier::external_body]
pub struct ExSynthesisError(SynthesisError);

/// The columns of the DPP relation: row 0 commits to the opening `o` (column 0) and
/// to the attributes (columns `2..`); row 1 holds the SNARK commitment key, cut to
/// `msg_len + 1` entries, from column 1 on.
pub open spec fn dpp_relation_columns<T>(msg_len: nat, ck: Seq<T>, snark_ck: Seq<T>) -> Seq<
    Seq<(T, usize)>,
> {
    let s = if snark_ck.len() < msg_len + 1 {
        snark_ck.len()
    } else {
        msg_len + 1
    };
    Seq::new(
        msg_len + 2,
        |j: int|
            (if j == 0 {
                seq![(ck[0], 0usize)]
            } else if j >= 2 {
                seq![(ck[j - 1], 0usize)]
            } else {
                Seq::empty()
            }) + (if 1 <= j && j - 1 < s {
                seq![(snark_ck[j - 1], 1usize)]
            } else {
                Seq::empty()
            }),
    )
}

/// The columns of the trade relation for `m` attributes: for each `i < m`, rows
/// `2i` and `2i + 1` hold the two halves of the `i`-th ciphertext (column `i` the
/// randomness, column `m + 1 + i` the attribute); row `2m` holds the SNARK
/// commitment key from column `m` on.
pub open spec fn trade_relation_columns<T>(m: nat, ck: Seq<T>, snark_ck: Seq<T>) -> Seq<
    Seq<(T, usize)>,
> {
    Seq::new(
        2 * m + 1,
        |j: int|
            if j < m {
                seq![(ck[1], (2 * j) as usize), (ck[0], (2 * j + 1) as usize)]
            } else if j == m {
                seq![(snark_ck[0], (2 * m) as usize)]
            } else {
                seq![(ck[1], (2 * (j - m - 1) + 1) as usize), (snark_ck[j - m], (2 * m) as usize)]
            },
    )
}

/// The relation matrix of the DPP statement.
pub fn generate_cp_dpp_relation<T: Copy>(msg_len: usize, ck: Vec<T>, snark_ck: Vec<T>) -> (crs:
    SparseMatrix<T>)
    requires
        ck.len() >= msg_len + 1,
        msg_len + 2 <= usize::MAX,
    ensures
        crs.wf(),
        crs.nr == 2,
        crs.nc == msg_len + 2,
        crs.columns() == dpp_relation_columns(msg_len as nat, ck@, snark_ck@),
        crs.entries_below(crs.nr as nat),
{
    let l: usize = 2;
    let t: usize = msg_len + 2;
    let ghost snark_orig = snark_ck@;
    let mut snark_ck = snark_ck;
    snark_ck.truncate(msg_len + 1);
    let mut crs: SparseMatrix<T> = SparseMatrix::new(l, t);
    crs.insert_row_slice(0, 0, &vec![ck[0]]);
    let mut i: usize = 0;
    while i < msg_len
        invariant
            crs.wf(),
            crs.nr == l,
            crs.nc == t,
            l == 2,
            t == msg_len + 2,
            i <= msg_len,
            ck.len() >= msg_len + 1,
            crs.columns() == Seq::new(
                t as nat,
                |j: int|
                    if j == 0 {
                        seq![(ck@[0], 0usize)]
                    } else if 2 <= j < i + 2 {
                        seq![(ck@[j - 1], 0usize)]
                    } else {
                        Seq::<(T, usize)>::empty()
                    },
            ),
        decreases msg_len - i,
    {
        crs.insert_row_slice(0, i + 2, &vec![ck[i + 1]]);
        proof {
            assert forall|j: int| 0 <= j < t implies #[trigger] crs.columns()[j] == (if j == 0 {
                seq![(ck@[0], 0usize)]
            } else if 2 <= j < i + 3 {
                seq![(ck@[j - 1], 0usize)]
            } else {
                Seq::<(T, usize)>::empty()
            }) by {
                if j == i + 2 {
                    assert(Seq::<(T, usize)>::empty().push((ck@[j - 1], 0usize)) =~= seq![
                        (ck@[j - 1], 0usize),
                    ]);
                }
            }
            assert(crs.columns() =~= Seq::new(
                t as nat,
                |j: int|
                    if j == 0 {
                        seq![(ck@[0], 0usize)]
                    } else if 2 <= j < i + 3 {
                        seq![(ck@[j - 1], 0usize)]
                    } else {
                        Seq::<(T, usize)>::empty()
                    },
            ));
        }
        i = i + 1;
    }
    let ghost before = crs.columns();
    crs.insert_row_slice(l - 1, 1, &snark_ck);
    proof {
        let target = dpp_relation_columns(msg_len as nat, ck@, snark_orig);
        assert forall|j: int| 0 <= j < t implies #[trigger] crs.columns()[j] =~= target[j] by {
            if j == 0 {
                assert(before[j] =~= seq![(ck@[0], 0usize)] + Seq::<(T, usize)>::empty());
            }
        }
        assert(crs.columns() =~= target);
        assert forall|j: int, k: int|
            0 <= j < crs.columns().len() && 0 <= k < crs.columns()[j].len() implies (
            #[trigger] crs.columns()[j][k]).1 < 2 by {
            assert(crs.columns()[j] == target[j]);
        }
    }
    crs
}

/// The relation matrix of the trade statement.
pub fn generate_cp_trade_relation<T: Copy>(msg_len: usize, ck: Vec<T>, snark_ck: Vec<T>) -> (crs:
    SparseMatrix<T>)
    requires
        msg_len > 0 ==> ck.len() >= 2,
        snark_ck.len() == msg_len + 1,
        2 * msg_len + 1 <= usize::MAX,
    ensures
        crs.wf(),
        crs.nr == 2 * msg_len + 1,
        crs.nc == 2 * msg_len + 1,
        crs.columns() == trade_relation_columns(msg_len as nat, ck@, snark_ck@),
        crs.entries_below(crs.nr as nat),
{
    let l: usize = 2 * msg_len + 1;
    let t: usize = 2 * msg_len + 1;
    let mut crs: SparseMatrix<T> = SparseMatrix::new(l, t);
    let mut i: usize = 0;
    while i < msg_len
        invariant
            crs.wf(),
            crs.nr == l,
            crs.nc == t,
            l == 2 * msg_len + 1,
            t == 2 * msg_len + 1,
            i <= msg_len,
            msg_len > 0 ==> ck.len() >= 2,
            crs.columns() == Seq::new(
                t as nat,
                |j: int|
                    if j < i {
                        seq![(ck@[1], (2 * j) as usize), (ck@[0], (2 * j + 1) as usize)]
                    } else if msg_len + 1 <= j < msg_len + 1 + i {
                        seq![(ck@[1], (2 * (j - msg_len - 1) + 1) as usize)]
                    } else {
                        Seq::<(T, usize)>::empty()
                    },
            ),
        decreases msg_len - i,
    {
        crs.insert_row_slice(2 * i, i, &vec![ck[1]]);
        crs.insert_row_slice(2 * i + 1, i, &vec![ck[0]]);
        crs.insert_row_slice(2 * i + 1, i + msg_len + 1, &vec![ck[1]]);
        proof {
            assert forall|j: int| 0 <= j < t implies #[trigger] crs.columns()[j] =~= (if j < i + 1 {
                seq![(ck@[1], (2 * j) as usize), (ck@[0], (2 * j + 1) as usize)]
            } else if msg_len + 1 <= j < msg_len + 1 + i + 1 {
                seq![(ck@[1], (2 * (j - msg_len - 1) + 1) as usize)]
            } else {
                Seq::<(T, usize)>::empty()
            }) by {}
            assert(crs.columns() =~= Seq::new(
                t as nat,
                |j: int|
                    if j < i + 1 {
                        seq![(ck@[1], (2 * j) as usize), (ck@[0], (2 * j + 1) as usize)]
                    } else if msg_len + 1 <= j < msg_len + 1 + i + 1 {
                        seq![(ck@[1], (2 * (j - msg_len - 1) + 1) as usize)]
                    } else {
                        Seq::<(T, usize)>::empty()
                    },
            ));
        }
        i = i + 1;
    }
    crs.insert_row_slice(l - 1, msg_len, &snark_ck);
    proof {
        let target = trade_relation_columns(msg_len as nat, ck@, snark_ck@);
        assert forall|j: int| 0 <= j < t implies #[trigger] crs.columns()[j] =~= target[j] by {}
        assert(crs.columns() =~= target);
        assert forall|j: int, k: int|
            0 <= j < crs.columns().len() && 0 <= k < crs.columns()[j].len() implies (
            #[trigger] crs.columns()[j][k]).1 < l by {
            assert(crs.columns()[j] == target[j]);
        }
    }
    crs
}

/// The linking witness: the encryption (or commitment) randomness, then the
/// SNARK's own commitment randomness, then the attributes.
pub fn generate_cp_witness<S: Copy>(r: Vec<S>, u: Vec<S>, snark_witness: Vec<S>) -> (w: Result<
    Vec<S>,
    SynthesisError,
>)
    ensures
        w matches Ok(v) && v@ == r@ + snark_witness@ + u@,
{
    let mut witness_vec: Vec<S> = Vec::new();
    append_copies(&mut witness_vec, &r);
    append_copies(&mut witness_vec, &snark_witness);
    append_copies(&mut witness_vec, &u);
    Ok(witness_vec)
}

/// The linking instance: the commitments, then the SNARK's commitment.
pub fn generate_cp_instance<S>(cm: Vec<S>, snark_cm: S) -> (inst: Result<Vec<S>, SynthesisError>)
    ensures
        inst matches Ok(v) && v@ == cm@.push(snark_cm),
{
    let mut instance_vec = cm;
    instance_vec.push(snark_cm);
    Ok(instance_vec)
}

/// Appends copies of the elements of `src` to `dst`.
pub(crate) fn append_copies<S: Copy>(dst: &mut Vec<S>, src: &Vec<S>)
    ensures
        final(dst)@ == old(dst)@ + src@,
{
    let mut i: usize = 0;
    while i < src.len()
        invariant
            i <= src.len(),
            dst@ == old(dst)@ + src@.subrange(0, i as int),
        decreases src.len() - i,
    {
        dst.push(src[i]);
        assert(src@.subrange(0, i + 1) =~= src@.subrange(0, i as int).push(src@[i as int]));
        i = i + 1;
    }
    assert(src@.subrange(0, src.len() as int) =~= src@);
}

} // verus!

verus! {

/// The DPP relation links each row to the right terms: with the witness laid out as
/// `[o, open] ++ attr` (the layout of `generate_cp_witness([o], attr, [open])`), every
/// entry of row 0 pairs `ck[0]` with `o` or `ck[i + 1]` with `attr[i]`, every entry
/// of row 1 pairs `snark_ck[0]` with `open` or `snark_ck[i + 1]` with `attr[i]`,
/// and each of these terms is present (the SNARK ones as far as `snark_ck` reaches).
pub proof fn law_dpp_relation_rows<T, S>(
    msg_len: nat,
    ck: Seq<T>,
    snark_ck: Seq<T>,
    o: S,
    open: S,
    attr: Seq<S>,
)
    requires
        ck.len() >= msg_len + 1,
        attr.len() == msg_len,
        snark_ck.len() >= msg_len + 1,
    ensures
        ({
            let cols = dpp_relation_columns(msg_len, ck, snark_ck);
            let w = seq![o] + seq![open] + attr;
            &&& cols.len() == w.len()
            &&& forall|j: int, k: int|
                #![trigger cols[j][k]]
                0 <= j < cols.len() && 0 <= k < cols[j].len() ==> {
                    let (p, row) = cols[j][k];
                    ||| row == 0 && j == 0 && p == ck[0] && w[j] == o
                    ||| row == 0 && j >= 2 && p == ck[j - 1] && w[j] == attr[j - 2]
                    ||| row == 1 && j == 1 && p == snark_ck[0] && w[j] == open
                    ||| row == 1 && j >= 2 && p == snark_ck[j - 1] && w[j] == attr[j - 2]
                }
            &&& cols[0].contains((ck[0], 0usize))
            &&& cols[1].contains((snark_ck[0], 1usize))
            &&& forall|i: int|
                0 <= i < msg_len ==> #[trigger] cols[i + 2].contains((ck[i + 1], 0usize))
                    && cols[i + 2].contains((snark_ck[i + 1], 1usize))
        }),
{
    let cols = dpp_relation_columns(msg_len, ck, snark_ck);
    let w = seq![o] + seq![open] + attr;
    assert(cols.len() == w.len());
    assert forall|j: int, k: int|
        #![trigger cols[j][k]]
        0 <= j < cols.len() && 0 <= k < cols[j].len() implies {
            let (p, row) = cols[j][k];
            ||| row == 0 && j == 0 && p == ck[0] && w[j] == o
            ||| row == 0 && j >= 2 && p == ck[j - 1] && w[j] == attr[j - 2]
            ||| row == 1 && j == 1 && p == snark_ck[0] && w[j] == open
            ||| row == 1 && j >= 2 && p == snark_ck[j - 1] && w[j] == attr[j - 2]
        } by {
        if j >= 2 {
            assert(w[j] == attr[j - 2]);
        }
    }
    assert(cols[0][0] == (ck[0], 0usize));
    assert(cols[1][0] == (snark_ck[0], 1usize));
    assert forall|i: int| 0 <= i < msg_len implies #[trigger] cols[i + 2].contains((ck[i + 1], 0usize))
        && cols[i + 2].contains((snark_ck[i + 1], 1usize)) by {
        assert(cols[i + 2][0] == (ck[i + 1], 0usize));
        assert(cols[i + 2][1] == (snark_ck[i + 1], 1usize));
    }
}

/// The trade relation links each row to the right terms: with the witness laid out
/// as `r ++ [open] ++ attr` (the layout of `generate_cp_witness(r, attr, [open])`) and
/// the commitment key `[h, g]`, row `2i` is exactly `g * r[i]`, row `2i + 1` is
/// exactly `h * r[i] + g * attr[i]` (in that order), and every entry of row `2m`
/// pairs `snark_ck[0]` with `open` or `snark_ck[i + 1]` with `attr[i]`.
pub proof fn law_trade_relation_rows<T, S>(
    m: nat,
    ck: Seq<T>,
    snark_ck: Seq<T>,
    r: Seq<S>,
    open: S,
    attr: Seq<S>,
)
    requires
        ck.len() >= 2,
        snark_ck.len() == m + 1,
        r.len() == m,
        attr.len() == m,
        2 * m + 1 <= usize::MAX,
    ensures
        ({
            let cols = trade_relation_columns(m, ck, snark_ck);
            let w = r + seq![open] + attr;
            &&& cols.len() == w.len()
            &&& forall|j: int, k: int|
                #![trigger cols[j][k]]
                0 <= j < cols.len() && 0 <= k < cols[j].len() ==> {
                    let (p, row) = cols[j][k];
                    ||| j < m && row == 2 * j && k == 0 && p == ck[1] && w[j] == r[j]
                    ||| j < m && row == 2 * j + 1 && k == 1 && p == ck[0] && w[j] == r[j]
                    ||| j > m && row == 2 * (j - m - 1) + 1 && k == 0 && p == ck[1] && w[j] == attr[j
                        - m - 1]
                    ||| j == m && row == 2 * m && p == snark_ck[0] && w[j] == open
                    ||| j > m && row == 2 * m && p == snark_ck[j - m] && w[j] == attr[j - m - 1]
                }
            &&& forall|i: int|
                0 <= i < m ==> #[trigger] cols[i] == seq![(ck[1], (2 * i) as usize), (ck[0], (2 * i + 1) as usize)]
                    && cols[m + 1 + i][0] == (ck[1], (2 * i + 1) as usize)
        }),
{
    let cols = trade_relation_columns(m, ck, snark_ck);
    let w = r + seq![open] + attr;
    assert forall|j: int, k: int|
        #![trigger cols[j][k]]
        0 <= j < cols.len() && 0 <= k < cols[j].len() implies {
            let (p, row) = cols[j][k];
            ||| j < m && row == 2 * j && k == 0 && p == ck[1] && w[j] == r[j]
            ||| j < m && row == 2 * j + 1 && k == 1 && p == ck[0] && w[j] == r[j]
            ||| j > m && row == 2 * (j - m - 1) + 1 && k == 0 && p == ck[1] && w[j] == attr[j - m
                - 1]
            ||| j == m && row == 2 * m && p == snark_ck[0] && w[j] == open
            ||| j > m && row == 2 * m && p == snark_ck[j - m] && w[j] == attr[j - m - 1]
        } by {
        if j < m {
            assert(w[j] == r[j]);
            assert(cols[j] == seq![(ck[1], (2 * j) as usize), (ck[0], (2 * j + 1) as usize)]);
        } else if j == m {
            assert(w[j] == open);
            assert(cols[j] == seq![(snark_ck[0], (2 * m) as usize)]);
        } else {
            assert(w[j] == attr[j - m - 1]);
            assert(cols[j] == seq![(ck[1], (2 * (j - m - 1) + 1) as usize), (snark_ck[j - m], (2 * m) as usize)]);
        }
    }
}

} // verus!
