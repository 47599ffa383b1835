//! The identities that the linking SNARK and the ElGamal scheme rest on, stated
//! in the exponent: every group element is read as the multiple of a fixed
//! generator that it is, so the group operations become field arithmetic.
use vstd::prelude::*;

use crate::field::{fr_add, fr_mul, scalar_modulus};
use crate::matrix::SparseMatrix;
use crate::relation::{dpp_relation_columns, trade_relation_columns};

verus! {

/// The negation of a canonical field value.
pub open spec fn fr_neg(a: nat) -> nat {
    ((scalar_modulus() - a % scalar_modulus()) as nat) % scalar_modulus()
}

/// The exponent of the inner product of a column with `k`: the sum of
/// `dlog(P) * k[row]` over the entries `(P, row)`.
pub open spec fn col_dot<T>(col: Seq<(T, usize)>, dlog: spec_fn(T) -> int, k: Seq<int>) -> int
    decreases col.len(),
{
    if col.len() == 0 {
        0
    } else {
        col_dot(col.drop_last(), dlog, k) + k[col.last().1 as int] * dlog(col.last().0)
    }
}

/// The sum of the exponents of the entries of a column that sit in row `i`.
pub open spec fn col_at_row<T>(col: Seq<(T, usize)>, dlog: spec_fn(T) -> int, i: int) -> int
    decreases col.len(),
{
    if col.len() == 0 {
        0
    } else {
        col_at_row(col.drop_last(), dlog, i) + if col.last().1 == i {
            dlog(col.last().0)
        } else {
            0
        }
    }
}

/// The exponent of the `i`-th instance element `(M w)_i`, over the first `n` columns.
pub open spec fn row_value<T>(
    cols: Seq<Seq<(T, usize)>>,
    dlog: spec_fn(T) -> int,
    w: Seq<int>,
    i: int,
    n: nat,
) -> int
    decreases n,
{
    if n == 0 {
        0
    } else {
        row_value(cols, dlog, w, i, (n - 1) as nat) + w[n - 1] * col_at_row(cols[n - 1], dlog, i)
    }
}

/// The exponent of the linking proof `<w, k^T M>`, over the first `n` columns.
pub open spec fn proof_exponent<T>(
    cols: Seq<Seq<(T, usize)>>,
    dlog: spec_fn(T) -> int,
    w: Seq<int>,
    k: Seq<int>,
    n: nat,
) -> int
    decreases n,
{
    if n == 0 {
        0
    } else {
        proof_exponent(cols, dlog, w, k, (n - 1) as nat) + w[n - 1] * col_dot(cols[n - 1], dlog, k)
    }
}

/// The exponent that the verifier combines from the instance, `<k, M w>`, over the
/// first `m` rows and the first `n` columns.
pub open spec fn check_exponent<T>(
    cols: Seq<Seq<(T, usize)>>,
    dlog: spec_fn(T) -> int,
    w: Seq<int>,
    k: Seq<int>,
    m: nat,
    n: nat,
) -> int
    decreases m,
{
    if m == 0 {
        0
    } else {
        check_exponent(cols, dlog, w, k, (m - 1) as nat, n) + k[m - 1] * row_value(
            cols,
            dlog,
            w,
            m - 1,
            n,
        )
    }
}

/// `sum_{i < m} k[i] * col_at_row(col, i)`.
spec fn picked<T>(col: Seq<(T, usize)>, dlog: spec_fn(T) -> int, k: Seq<int>, m: nat) -> int
    decreases m,
{
    if m == 0 {
        0
    } else {
        picked(col, dlog, k, (m - 1) as nat) + k[m - 1] * col_at_row(col, dlog, m - 1)
    }
}

proof fn lemma_picked_push<T>(
    col: Seq<(T, usize)>,
    e: (T, usize),
    dlog: spec_fn(T) -> int,
    k: Seq<int>,
    m: nat,
)
    ensures
        picked(col.push(e), dlog, k, m) == picked(col, dlog, k, m) + if e.1 < m {
            k[e.1 as int] * dlog(e.0)
        } else {
            0
        },
    decreases m,
{
    let c2 = col.push(e);
    assert(c2.drop_last() =~= col);
    if m > 0 {
        lemma_picked_push(col, e, dlog, k, (m - 1) as nat);
        let i = m - 1;
        let a = col_at_row(col, dlog, i);
        let b: int = if e.1 == i {
            dlog(e.0)
        } else {
            0
        };
        assert(col_at_row(c2, dlog, i) == a + b);
        let ki = k[i];
        assert(ki * (a + b) == ki * a + ki * b) by (nonlinear_arith);
    }
}

proof fn lemma_picked_is_dot<T>(col: Seq<(T, usize)>, dlog: spec_fn(T) -> int, k: Seq<int>, m: nat)
    requires
        forall|j: int| 0 <= j < col.len() ==> (#[trigger] col[j]).1 < m,
    ensures
        picked(col, dlog, k, m) == col_dot(col, dlog, k),
    decreases col.len(),
{
    if col.len() == 0 {
        lemma_picked_empty(col, dlog, k, m);
    } else {
        let prev = col.drop_last();
        assert(prev.push(col.last()) =~= col);
        lemma_picked_is_dot(prev, dlog, k, m);
        lemma_picked_push(prev, col.last(), dlog, k, m);
        assert(col.last() == col[col.len() - 1]);
    }
}

proof fn lemma_picked_empty<T>(col: Seq<(T, usize)>, dlog: spec_fn(T) -> int, k: Seq<int>, m: nat)
    requires
        col.len() == 0,
    ensures
        picked(col, dlog, k, m) == 0,
    decreases m,
{
    if m > 0 {
        lemma_picked_empty(col, dlog, k, (m - 1) as nat);
    }
}

proof fn lemma_check_step<T>(
    cols: Seq<Seq<(T, usize)>>,
    dlog: spec_fn(T) -> int,
    w: Seq<int>,
    k: Seq<int>,
    m: nat,
    n: nat,
)
    requires
        n > 0,
    ensures
        check_exponent(cols, dlog, w, k, m, n) == check_exponent(cols, dlog, w, k, m, (n - 1) as nat)
            + w[n - 1] * picked(cols[n - 1], dlog, k, m),
    decreases m,
{
    if m > 0 {
        lemma_check_step(cols, dlog, w, k, (m - 1) as nat, n);
        let ki = k[m - 1];
        let a = row_value(cols, dlog, w, m - 1, (n - 1) as nat);
        let wn = w[n - 1];
        let c = col_at_row(cols[n - 1], dlog, m - 1);
        let p = picked(cols[n - 1], dlog, k, (m - 1) as nat);
        assert(ki * (a + wn * c) == ki * a + wn * (ki * c)) by (nonlinear_arith);
        assert(wn * p + wn * (ki * c) == wn * (p + ki * c)) by (nonlinear_arith);
    }
}

/// Completeness of the linking SNARK in the exponent: for every relation matrix
/// whose entries sit in the rows of `k`, every reading `dlog` of its points as
/// exponents and every witness `w`, the proof `<w, k^T M>` equals the combination
/// `<k, M w>` of the instance that the verifier checks it against.
pub proof fn law_link_exponents<T: Copy>(
    m: SparseMatrix<T>,
    dlog: spec_fn(T) -> int,
    k: Seq<int>,
    w: Seq<int>,
)
    requires
        m.wf(),
        m.entries_below(k.len()),
        w.len() == m.nc,
    ensures
        proof_exponent(m.columns(), dlog, w, k, m.nc as nat) == check_exponent(
            m.columns(),
            dlog,
            w,
            k,
            k.len(),
            m.nc as nat,
        ),
{
    lemma_link_upto(m, dlog, k, w, m.nc as nat);
}

proof fn lemma_link_upto<T: Copy>(
    m: SparseMatrix<T>,
    dlog: spec_fn(T) -> int,
    k: Seq<int>,
    w: Seq<int>,
    n: nat,
)
    requires
        m.wf(),
        m.entries_below(k.len()),
        n <= m.nc,
    ensures
        proof_exponent(m.columns(), dlog, w, k, n) == check_exponent(
            m.columns(),
            dlog,
            w,
            k,
            k.len(),
            n,
        ),
    decreases n,
{
    let cols = m.columns();
    if n == 0 {
        lemma_check_zero_cols(cols, dlog, w, k, k.len());
    } else {
        lemma_link_upto(m, dlog, k, w, (n - 1) as nat);
        lemma_check_step(cols, dlog, w, k, k.len(), n);
        let col = cols[n - 1];
        assert forall|j: int| 0 <= j < col.len() implies (#[trigger] col[j]).1 < k.len() by {
            assert(cols[n - 1][j] == col[j]);
        }
        lemma_picked_is_dot(col, dlog, k, k.len());
    }
}

proof fn lemma_check_zero_cols<T>(
    cols: Seq<Seq<(T, usize)>>,
    dlog: spec_fn(T) -> int,
    w: Seq<int>,
    k: Seq<int>,
    m: nat,
)
    ensures
        check_exponent(cols, dlog, w, k, m, 0) == 0,
    decreases m,
{
    if m > 0 {
        lemma_check_zero_cols(cols, dlog, w, k, (m - 1) as nat);
    }
}

/// Correctness of ElGamal decryption in the exponent: with `h = g * sk`, the pair
/// `(g * r, h * r + g * m)` gives `c1 - c0 * sk = g * m`, for every `sk`, `r`, `m`.
pub proof fn law_elgamal_exponent(sk: nat, r: nat, m: nat)
    ensures
        fr_add(fr_add(fr_mul(sk, r), m), fr_neg(fr_mul(r, sk))) == m % scalar_modulus(),
{
    let p = scalar_modulus() as int;
    let x = (sk * r) as int;
    assert(sk * r == r * sk) by (nonlinear_arith);
    let a = x % p;
    let s = (a + m as int) % p;
    let n = (p - a) % p;
    assert(0 <= a < p);
    vstd::arithmetic::div_mod::lemma_add_mod_noop(a, m as int, p);
    vstd::arithmetic::div_mod::lemma_add_mod_noop(s, p - a, p);
    vstd::arithmetic::div_mod::lemma_mod_twice(a + m as int, p);
    vstd::arithmetic::div_mod::lemma_mod_twice(p - a, p);
    vstd::arithmetic::div_mod::lemma_add_mod_noop(a + m as int, p - a, p);
    assert(a + m as int + (p - a) == m as int + p);
    vstd::arithmetic::div_mod::lemma_mod_add_multiples_vanish(m as int, p);
    assert(fr_mul(r, sk) as int == a);
    assert(fr_neg(fr_mul(r, sk)) as int == n);
    assert(fr_add(fr_mul(sk, r), m) as int == s);
}

/// The exponent of `sum_{i < n} bases[i] * scalars[i]`.
pub open spec fn msm_exponent<T>(bases: Seq<T>, dlog: spec_fn(T) -> int, scalars: Seq<int>, n: nat) -> int
    decreases n,
{
    if n == 0 {
        0
    } else {
        msm_exponent(bases, dlog, scalars, (n - 1) as nat) + scalars[n - 1] * dlog(bases[n - 1])
    }
}

proof fn lemma_col_at_row_one<T>(a: (T, usize), dlog: spec_fn(T) -> int, i: int)
    ensures
        col_at_row(seq![a], dlog, i) == if a.1 == i {
            dlog(a.0)
        } else {
            0
        },
{
    assert(seq![a].drop_last() =~= Seq::<(T, usize)>::empty());
    assert(col_at_row(Seq::<(T, usize)>::empty(), dlog, i) == 0);
    assert(seq![a].last() == a);
}

proof fn lemma_col_at_row_two<T>(a: (T, usize), b: (T, usize), dlog: spec_fn(T) -> int, i: int)
    ensures
        col_at_row(seq![a, b], dlog, i) == (if a.1 == i {
            dlog(a.0)
        } else {
            0
        }) + (if b.1 == i {
            dlog(b.0)
        } else {
            0
        }),
{
    assert(seq![a, b].drop_last() =~= seq![a]);
    lemma_col_at_row_one(a, dlog, i);
}

proof fn lemma_dpp_rows_upto<T>(
    n: nat,
    ck: Seq<T>,
    snark_ck: Seq<T>,
    dlog: spec_fn(T) -> int,
    o: int,
    open: int,
    attr: Seq<int>,
    c: nat,
)
    requires
        ck.len() >= n + 1,
        snark_ck.len() >= n + 1,
        attr.len() == n,
        2 <= c <= n + 2,
    ensures
        ({
            let cols = dpp_relation_columns(n, ck, snark_ck);
            let w = seq![o, open] + attr;
            &&& row_value(cols, dlog, w, 0, c) == o * dlog(ck[0]) + msm_exponent(
                ck.subrange(1, n + 1 as int),
                dlog,
                attr,
                (c - 2) as nat,
            )
            &&& row_value(cols, dlog, w, 1, c) == open * dlog(snark_ck[0]) + msm_exponent(
                snark_ck.subrange(1, n + 1 as int),
                dlog,
                attr,
                (c - 2) as nat,
            )
        }),
    decreases c,
{
    let cols = dpp_relation_columns(n, ck, snark_ck);
    let w = seq![o, open] + attr;
    if c == 2 {
        assert(cols[0] =~= seq![(ck[0], 0usize)]);
        assert(cols[1] =~= seq![(snark_ck[0], 1usize)]);
        lemma_col_at_row_one((ck[0], 0usize), dlog, 0);
        lemma_col_at_row_one((ck[0], 0usize), dlog, 1);
        lemma_col_at_row_one((snark_ck[0], 1usize), dlog, 0);
        lemma_col_at_row_one((snark_ck[0], 1usize), dlog, 1);
        assert(row_value(cols, dlog, w, 0, 0) == 0);
        assert(row_value(cols, dlog, w, 1, 0) == 0);
        assert(w[0] == o && w[1] == open);
        assert(row_value(cols, dlog, w, 0, 1) == o * dlog(ck[0]));
        assert(row_value(cols, dlog, w, 1, 1) == 0);
        assert(row_value(cols, dlog, w, 0, 2) == o * dlog(ck[0]));
        assert(row_value(cols, dlog, w, 1, 2) == open * dlog(snark_ck[0]));
    } else {
        lemma_dpp_rows_upto(n, ck, snark_ck, dlog, o, open, attr, (c - 1) as nat);
        let j = c - 1;
        assert(cols[j] =~= seq![(ck[j - 1], 0usize), (snark_ck[j - 1], 1usize)]);
        lemma_col_at_row_two((ck[j - 1], 0usize), (snark_ck[j - 1], 1usize), dlog, 0);
        lemma_col_at_row_two((ck[j - 1], 0usize), (snark_ck[j - 1], 1usize), dlog, 1);
        assert(w[j] == attr[j - 2]);
        assert(ck.subrange(1, n + 1 as int)[j - 2] == ck[j - 1]);
        assert(snark_ck.subrange(1, n + 1 as int)[j - 2] == snark_ck[j - 1]);
        assert(col_at_row(cols[j], dlog, 0) == dlog(ck[j - 1]));
        assert(col_at_row(cols[j], dlog, 1) == dlog(snark_ck[j - 1]));
        assert(row_value(cols, dlog, w, 0, c) == row_value(cols, dlog, w, 0, (c - 1) as nat) + attr[j
            - 2] * dlog(ck[j - 1]));
        assert(row_value(cols, dlog, w, 1, c) == row_value(cols, dlog, w, 1, (c - 1) as nat) + attr[j
            - 2] * dlog(snark_ck[j - 1]));
    }
}

/// The DPP relation, applied to the witness `[o, open] ++ attr`, gives in row 0
/// the exponent of the commitment `ck[0] * o + sum_i ck[i + 1] * attr[i]`, and in
/// row 1 that of the SNARK commitment `snark_ck[0] * open + sum_i snark_ck[i + 1] *
/// attr[i]`: the statement that the linking proof proves is the one the DPP flow
/// needs.
pub proof fn law_dpp_instance_exponents<T>(
    n: nat,
    ck: Seq<T>,
    snark_ck: Seq<T>,
    dlog: spec_fn(T) -> int,
    o: int,
    open: int,
    attr: Seq<int>,
)
    requires
        ck.len() >= n + 1,
        snark_ck.len() >= n + 1,
        attr.len() == n,
    ensures
        ({
            let cols = dpp_relation_columns(n, ck, snark_ck);
            let w = seq![o, open] + attr;
            &&& row_value(cols, dlog, w, 0, n + 2) == o * dlog(ck[0]) + msm_exponent(
                ck.subrange(1, n + 1 as int),
                dlog,
                attr,
                n,
            )
            &&& row_value(cols, dlog, w, 1, n + 2) == open * dlog(snark_ck[0]) + msm_exponent(
                snark_ck.subrange(1, n + 1 as int),
                dlog,
                attr,
                n,
            )
        }),
{
    lemma_dpp_rows_upto(n, ck, snark_ck, dlog, o, open, attr, n + 2);
}

/// The exponent at row `row` of column `j` of the trade relation, case by case.
spec fn trade_col_at<T>(m: nat, ck: Seq<T>, snark_ck: Seq<T>, dlog: spec_fn(T) -> int, j: int, row: int) -> int {
    if j < m {
        (if row == 2 * j {
            dlog(ck[1])
        } else {
            0
        }) + (if row == 2 * j + 1 {
            dlog(ck[0])
        } else {
            0
        })
    } else if j == m {
        if row == 2 * m {
            dlog(snark_ck[0])
        } else {
            0
        }
    } else {
        (if row == 2 * (j - m - 1) + 1 {
            dlog(ck[1])
        } else {
            0
        }) + (if row == 2 * m {
            dlog(snark_ck[j - m])
        } else {
            0
        })
    }
}

proof fn lemma_trade_col<T>(
    m: nat,
    ck: Seq<T>,
    snark_ck: Seq<T>,
    dlog: spec_fn(T) -> int,
    j: int,
    row: int,
)
    requires
        0 <= j < 2 * m + 1,
        2 * m + 1 <= usize::MAX,
    ensures
        col_at_row(trade_relation_columns(m, ck, snark_ck)[j], dlog, row) == trade_col_at(
            m,
            ck,
            snark_ck,
            dlog,
            j,
            row,
        ),
{
    let cols = trade_relation_columns(m, ck, snark_ck);
    if j < m {
        let a = (ck[1], (2 * j) as usize);
        let b = (ck[0], (2 * j + 1) as usize);
        assert(cols[j] == seq![a, b]);
        lemma_col_at_row_two(a, b, dlog, row);
    } else if j == m {
        let a = (snark_ck[0], (2 * m) as usize);
        assert(cols[j] == seq![a]);
        lemma_col_at_row_one(a, dlog, row);
    } else {
        let a = (ck[1], (2 * (j - m - 1) + 1) as usize);
        let b = (snark_ck[j - m], (2 * m) as usize);
        assert(cols[j] == seq![a, b]);
        lemma_col_at_row_two(a, b, dlog, row);
    }
}

proof fn lemma_trade_rows_upto<T>(
    m: nat,
    ck: Seq<T>,
    snark_ck: Seq<T>,
    dlog: spec_fn(T) -> int,
    r: Seq<int>,
    open: int,
    attr: Seq<int>,
    i: int,
    c: nat,
)
    requires
        r.len() == m,
        attr.len() == m,
        snark_ck.len() == m + 1,
        2 * m + 1 <= usize::MAX,
        0 <= i < m,
        c <= 2 * m + 1,
    ensures
        ({
            let cols = trade_relation_columns(m, ck, snark_ck);
            let w = r + seq![open] + attr;
            &&& row_value(cols, dlog, w, 2 * i, c) == if c > i {
                r[i] * dlog(ck[1])
            } else {
                0
            }
            &&& row_value(cols, dlog, w, 2 * i + 1, c) == (if c > i {
                r[i] * dlog(ck[0])
            } else {
                0
            }) + (if c > m + 1 + i {
                attr[i] * dlog(ck[1])
            } else {
                0
            })
        }),
    decreases c,
{
    if c > 0 {
        lemma_trade_rows_upto(m, ck, snark_ck, dlog, r, open, attr, i, (c - 1) as nat);
        let j = c - 1;
        let w = r + seq![open] + attr;
        let cols = trade_relation_columns(m, ck, snark_ck);
        lemma_trade_col(m, ck, snark_ck, dlog, j, 2 * i);
        lemma_trade_col(m, ck, snark_ck, dlog, j, 2 * i + 1);
        assert(row_value(cols, dlog, w, 2 * i, c) == row_value(cols, dlog, w, 2 * i, (c - 1) as nat)
            + w[j] * trade_col_at(m, ck, snark_ck, dlog, j, 2 * i));
        assert(row_value(cols, dlog, w, 2 * i + 1, c) == row_value(
            cols,
            dlog,
            w,
            2 * i + 1,
            (c - 1) as nat,
        ) + w[j] * trade_col_at(m, ck, snark_ck, dlog, j, 2 * i + 1));
        if j < m {
            assert(w[j] == r[j]);
            if j == i {
                assert(trade_col_at(m, ck, snark_ck, dlog, j, 2 * i) == dlog(ck[1]));
                assert(trade_col_at(m, ck, snark_ck, dlog, j, 2 * i + 1) == dlog(ck[0]));
            } else {
                assert(trade_col_at(m, ck, snark_ck, dlog, j, 2 * i) == 0);
                assert(trade_col_at(m, ck, snark_ck, dlog, j, 2 * i + 1) == 0);
            }
        } else if j == m {
            assert(trade_col_at(m, ck, snark_ck, dlog, j, 2 * i) == 0);
            assert(trade_col_at(m, ck, snark_ck, dlog, j, 2 * i + 1) == 0);
        } else {
            assert(w[j] == attr[j - m - 1]);
            assert(trade_col_at(m, ck, snark_ck, dlog, j, 2 * i) == 0);
            if j == m + 1 + i {
                assert(trade_col_at(m, ck, snark_ck, dlog, j, 2 * i + 1) == dlog(ck[1]));
            } else {
                assert(trade_col_at(m, ck, snark_ck, dlog, j, 2 * i + 1) == 0);
            }
        }
    }
}

proof fn lemma_trade_last_row_upto<T>(
    m: nat,
    ck: Seq<T>,
    snark_ck: Seq<T>,
    dlog: spec_fn(T) -> int,
    r: Seq<int>,
    open: int,
    attr: Seq<int>,
    c: nat,
)
    requires
        r.len() == m,
        attr.len() == m,
        snark_ck.len() == m + 1,
        2 * m + 1 <= usize::MAX,
        c <= 2 * m + 1,
    ensures
        ({
            let cols = trade_relation_columns(m, ck, snark_ck);
            let w = r + seq![open] + attr;
            row_value(cols, dlog, w, 2 * m as int, c) == if c > m {
                open * dlog(snark_ck[0]) + msm_exponent(
                    snark_ck.subrange(1, m + 1 as int),
                    dlog,
                    attr,
                    (c - m - 1) as nat,
                )
            } else {
                0
            }
        }),
    decreases c,
{
    if c > 0 {
        lemma_trade_last_row_upto(m, ck, snark_ck, dlog, r, open, attr, (c - 1) as nat);
        let j = c - 1;
        let w = r + seq![open] + attr;
        let cols = trade_relation_columns(m, ck, snark_ck);
        lemma_trade_col(m, ck, snark_ck, dlog, j, 2 * m as int);
        assert(row_value(cols, dlog, w, 2 * m as int, c) == row_value(
            cols,
            dlog,
            w,
            2 * m as int,
            (c - 1) as nat,
        ) + w[j] * trade_col_at(m, ck, snark_ck, dlog, j, 2 * m as int));
        if j < m {
            assert(trade_col_at(m, ck, snark_ck, dlog, j, 2 * m as int) == 0);
        } else if j == m {
            assert(w[j] == open);
            assert(msm_exponent(snark_ck.subrange(1, m + 1 as int), dlog, attr, 0) == 0);
        } else {
            assert(w[j] == attr[j - m - 1]);
            assert(snark_ck.subrange(1, m + 1 as int)[j - m - 1] == snark_ck[j - m]);
            assert(trade_col_at(m, ck, snark_ck, dlog, j, 2 * m as int) == dlog(snark_ck[j - m]));
        }
    }
}

/// The trade relation, applied to the witness `r ++ [open] ++ attr` with the
/// commitment key `[h, g]`, gives for each attribute `i` in row `2i` the exponent
/// of `g * r[i]` and in row `2i + 1` that of `h * r[i] + g * attr[i]`, the two
/// halves of the ElGamal pair, and in row `2m` the exponent of the SNARK
/// commitment `snark_ck[0] * open + sum_i snark_ck[i + 1] * attr[i]`.
pub proof fn law_trade_instance_exponents<T>(
    m: nat,
    ck: Seq<T>,
    snark_ck: Seq<T>,
    dlog: spec_fn(T) -> int,
    r: Seq<int>,
    open: int,
    attr: Seq<int>,
)
    requires
        r.len() == m,
        attr.len() == m,
        snark_ck.len() == m + 1,
        2 * m + 1 <= usize::MAX,
    ensures
        ({
            let cols = trade_relation_columns(m, ck, snark_ck);
            let w = r + seq![open] + attr;
            &&& forall|i: int|
                0 <= i < m ==> #[trigger] row_value(cols, dlog, w, 2 * i, 2 * m + 1) == r[i] * dlog(
                    ck[1],
                )
            &&& forall|i: int|
                0 <= i < m ==> #[trigger] row_value(cols, dlog, w, 2 * i + 1, 2 * m + 1) == r[i]
                    * dlog(ck[0]) + attr[i] * dlog(ck[1])
            &&& row_value(cols, dlog, w, 2 * m as int, 2 * m + 1) == open * dlog(snark_ck[0])
                + msm_exponent(snark_ck.subrange(1, m + 1 as int), dlog, attr, m)
        }),
{
    let cols = trade_relation_columns(m, ck, snark_ck);
    let w = r + seq![open] + attr;
    assert forall|i: int| 0 <= i < m implies #[trigger] row_value(cols, dlog, w, 2 * i, 2 * m + 1)
        == r[i] * dlog(ck[1]) by {
        lemma_trade_rows_upto(m, ck, snark_ck, dlog, r, open, attr, i, 2 * m + 1);
    }
    assert forall|i: int| 0 <= i < m implies #[trigger] row_value(
        cols,
        dlog,
        w,
        2 * i + 1,
        2 * m + 1,
    ) == r[i] * dlog(ck[0]) + attr[i] * dlog(ck[1]) by {
        lemma_trade_rows_upto(m, ck, snark_ck, dlog, r, open, attr, i, 2 * m + 1);
    }
    lemma_trade_last_row_upto(m, ck, snark_ck, dlog, r, open, attr, 2 * m + 1);
}

/// `sum_{i < n} k[i] * x[i]`.
pub open spec fn weighted_sum(k: Seq<int>, x: Seq<int>, n: nat) -> int
    decreases n,
{
    if n == 0 {
        0
    } else {
        weighted_sum(k, x, (n - 1) as nat) + k[n - 1] * x[n - 1]
    }
}

proof fn lemma_check_is_weighted<T>(
    cols: Seq<Seq<(T, usize)>>,
    dlog: spec_fn(T) -> int,
    w: Seq<int>,
    k: Seq<int>,
    x: Seq<int>,
    n: nat,
    m: nat,
)
    requires
        forall|i: int| 0 <= i < m ==> #[trigger] row_value(cols, dlog, w, i, n) == x[i],
    ensures
        check_exponent(cols, dlog, w, k, m, n) == weighted_sum(k, x, m),
    decreases m,
{
    if m > 0 {
        lemma_check_is_weighted(cols, dlog, w, k, x, n, (m - 1) as nat);
        assert(row_value(cols, dlog, w, m - 1, n) == x[m - 1]);
    }
}

/// The exponents of the DPP instance: the commitment `ck[0] * o + sum_i ck[i + 1] *
/// attr[i]`, then the SNARK commitment `snark_ck[0] * open + sum_i snark_ck[i + 1] *
/// attr[i]`.
pub open spec fn dpp_instance_exponents<T>(
    n: nat,
    ck: Seq<T>,
    snark_ck: Seq<T>,
    dlog: spec_fn(T) -> int,
    o: int,
    open: int,
    attr: Seq<int>,
) -> Seq<int> {
    seq![
        o * dlog(ck[0]) + msm_exponent(ck.subrange(1, n + 1 as int), dlog, attr, n),
        open * dlog(snark_ck[0]) + msm_exponent(snark_ck.subrange(1, n + 1 as int), dlog, attr, n),
    ]
}

/// Completeness of the DPP link in the exponent: for the relation matrix that the
/// DPP setup builds, the secrets `k` and the witness `[o, open] ++ attr`, the proof is
/// `k[0] * cm + k[1] * snark_cm`, the combination of the instance that the pairing
/// check compares it with.
pub proof fn law_dpp_link_complete<T: Copy>(
    crs: SparseMatrix<T>,
    n: nat,
    ck: Seq<T>,
    snark_ck: Seq<T>,
    dlog: spec_fn(T) -> int,
    k: Seq<int>,
    o: int,
    open: int,
    attr: Seq<int>,
)
    requires
        crs.wf(),
        crs.nc == n + 2,
        crs.columns() == dpp_relation_columns(n, ck, snark_ck),
        crs.entries_below(2),
        ck.len() >= n + 1,
        snark_ck.len() >= n + 1,
        attr.len() == n,
        k.len() == 2,
    ensures
        proof_exponent(crs.columns(), dlog, seq![o, open] + attr, k, n + 2) == weighted_sum(
            k,
            dpp_instance_exponents(n, ck, snark_ck, dlog, o, open, attr),
            2,
        ),
{
    let w = seq![o, open] + attr;
    let x = dpp_instance_exponents(n, ck, snark_ck, dlog, o, open, attr);
    law_link_exponents(crs, dlog, k, w);
    law_dpp_instance_exponents(n, ck, snark_ck, dlog, o, open, attr);
    assert forall|i: int| 0 <= i < 2 implies #[trigger] row_value(
        crs.columns(),
        dlog,
        w,
        i,
        n + 2,
    ) == x[i] by {}
    lemma_check_is_weighted(crs.columns(), dlog, w, k, x, n + 2, 2);
}

/// The exponents of the trade instance: for each attribute `i`, the pair
/// `g * r[i]`, `h * r[i] + g * attr[i]` with `ck = [h, g]`, then the SNARK commitment
/// `snark_ck[0] * open + sum_i snark_ck[i + 1] * attr[i]`.
pub open spec fn trade_instance_exponents<T>(
    m: nat,
    ck: Seq<T>,
    snark_ck: Seq<T>,
    dlog: spec_fn(T) -> int,
    r: Seq<int>,
    open: int,
    attr: Seq<int>,
) -> Seq<int> {
    Seq::new(
        2 * m + 1,
        |row: int|
            if row < 2 * m {
                if row % 2 == 0 {
                    r[row / 2] * dlog(ck[1])
                } else {
                    r[row / 2] * dlog(ck[0]) + attr[row / 2] * dlog(ck[1])
                }
            } else {
                open * dlog(snark_ck[0]) + msm_exponent(
                    snark_ck.subrange(1, m + 1 as int),
                    dlog,
                    attr,
                    m,
                )
            },
    )
}

/// Completeness of the trade link in the exponent: for the relation matrix that the
/// trade setup builds, the secrets `k` and the witness `r ++ [open] ++ attr`, the
/// proof is `sum_row k[row] * x[row]` over the instance `x`, the ciphertext's pairs
/// followed by the SNARK commitment: the combination that the pairing check
/// compares it with.
pub proof fn law_trade_link_complete<T: Copy>(
    crs: SparseMatrix<T>,
    m: nat,
    ck: Seq<T>,
    snark_ck: Seq<T>,
    dlog: spec_fn(T) -> int,
    k: Seq<int>,
    r: Seq<int>,
    open: int,
    attr: Seq<int>,
)
    requires
        crs.wf(),
        crs.nc == 2 * m + 1,
        crs.columns() == trade_relation_columns(m, ck, snark_ck),
        crs.entries_below(2 * m + 1),
        r.len() == m,
        attr.len() == m,
        snark_ck.len() == m + 1,
        2 * m + 1 <= usize::MAX,
        k.len() == 2 * m + 1,
    ensures
        proof_exponent(crs.columns(), dlog, r + seq![open] + attr, k, 2 * m + 1) == weighted_sum(
            k,
            trade_instance_exponents(m, ck, snark_ck, dlog, r, open, attr),
            2 * m + 1,
        ),
{
    let w = r + seq![open] + attr;
    let x = trade_instance_exponents(m, ck, snark_ck, dlog, r, open, attr);
    let cols = crs.columns();
    law_link_exponents(crs, dlog, k, w);
    law_trade_instance_exponents(m, ck, snark_ck, dlog, r, open, attr);
    assert forall|row: int| 0 <= row < 2 * m + 1 implies #[trigger] row_value(
        cols,
        dlog,
        w,
        row,
        2 * m + 1,
    ) == x[row] by {
        if row < 2 * m {
            let i = row / 2;
            if row % 2 == 0 {
                assert(row == 2 * i);
                assert(row_value(cols, dlog, w, 2 * i, 2 * m + 1) == r[i] * dlog(ck[1]));
            } else {
                assert(row == 2 * i + 1);
                assert(row_value(cols, dlog, w, 2 * i + 1, 2 * m + 1) == r[i] * dlog(ck[0]) + attr[i]
                    * dlog(ck[1]));
            }
        }
    }
    lemma_check_is_weighted(cols, dlog, w, k, x, 2 * m + 1, 2 * m + 1);
}

} // verus!
