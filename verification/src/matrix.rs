//! Column-major sparse matrices.
use vstd::prelude::*;

use crate::field::{fr_mul, scalar_values, Scalar};
use crate::group::{g1_add_spec, g1_identity_repr, g1_mul_spec, g1_views, G1Point, G1Repr};

verus! {

/// A coefficient together with its row position inside a column.
#[derive(Clone, Copy, Debug, PartialEq)]
pub struct CoeffPos<T> {
    /// value of the coefficient
    pub val: T,
    /// position of the coefficient in the column
    pub pos: usize,
}

/// The (value, row) pairs that a column holds, in insertion order.
pub open spec fn col_entries<T>(col: Seq<CoeffPos<T>>) -> Seq<(T, usize)> {
    col.map_values(|e: CoeffPos<T>| (e.val, e.pos))
}

/// Column-major sparse matrix with `nr` rows and `nc` columns.
#[derive(Clone, Debug, PartialEq)]
pub struct SparseMatrix<T> {
    /// the columns, each a vector of coefficients with their rows
    pub cols: Vec<Vec<CoeffPos<T>>>,
    /// number of rows
    pub nr: usize,
    /// number of columns
    pub nc: usize,
}

impl<T: Copy> Default for SparseMatrix<T> {
    /// The 0-by-0 matrix.
    fn default() -> (m: SparseMatrix<T>)
        ensures
            m.wf(),
            m.nr == 0,
            m.nc == 0,
    {
        SparseMatrix { cols: Vec::new(), nr: 0, nc: 0 }
    }
}

impl<T: Copy> SparseMatrix<T> {
    /// There is one stored column per column of the matrix.
    pub open spec fn wf(&self) -> bool {
        self.cols@.len() == self.nc
    }

    /// The entries of every column, in insertion order.
    pub open spec fn columns(&self) -> Seq<Seq<(T, usize)>> {
        self.cols@.map_values(|c: Vec<CoeffPos<T>>| col_entries(c@))
    }

    /// Every entry of every column sits in a row below `rows`.
    pub open spec fn entries_below(&self, rows: nat) -> bool {
        forall|j: int, k: int|
            0 <= j < self.columns().len() && 0 <= k < self.columns()[j].len() ==> (
            #[trigger] self.columns()[j][k]).1 < rows
    }

    /// A matrix with `nr` rows and `nc` empty columns.
    pub fn new(nr: usize, nc: usize) -> (m: SparseMatrix<T>)
        ensures
            m.wf(),
            m.nr == nr,
            m.nc == nc,
            m.columns() == Seq::new(nc as nat, |j: int| Seq::<(T, usize)>::empty()),
    {
        let mut cols: Vec<Vec<CoeffPos<T>>> = Vec::new();
        let mut j: usize = 0;
        while j < nc
            invariant
                j <= nc,
                cols@.len() == j,
                forall|k: int| 0 <= k < j ==> (#[trigger] cols@[k])@.len() == 0,
            decreases nc - j,
        {
            cols.push(Vec::new());
            j = j + 1;
        }
        let m = SparseMatrix { cols, nr, nc };
        assert forall|k: int| 0 <= k < nc implies #[trigger] m.columns()[k] =~= Seq::<(
            T,
            usize,
        )>::empty() by {
            assert(m.cols@[k]@.len() == 0);
        }
        assert(m.columns() =~= Seq::new(nc as nat, |j: int| Seq::<(T, usize)>::empty()));
        m
    }

    /// Appends the value `v` at row `r` to column `c`.
    pub fn insert_val(&mut self, r: usize, c: usize, v: &T)
        requires
            c < old(self).cols@.len(),
        ensures
            final(self).cols@.len() == old(self).cols@.len(),
            final(self).nr == old(self).nr,
            final(self).nc == old(self).nc,
            final(self).columns() == old(self).columns().update(
                c as int,
                old(self).columns()[c as int].push((*v, r)),
            ),
    {
        let coeff_pos = CoeffPos { pos: r, val: *v };
        let ghost old_cols = self.cols@;
        self.cols[c].push(coeff_pos);
        proof {
            let new_cols = self.cols@;
            assert(new_cols[c as int]@ == old_cols[c as int]@.push(coeff_pos));
            assert(col_entries(new_cols[c as int]@) =~= col_entries(old_cols[c as int]@).push(
                (*v, r),
            ));
            assert(self.columns() =~= old(self).columns().update(
                c as int,
                old(self).columns()[c as int].push((*v, r)),
            ));
        }
    }

    /// Appends `vs[i]` at row `r` to column `c_offset + i`, for every `i`.
    pub fn insert_row_slice(&mut self, r: usize, c_offset: usize, vs: &Vec<T>)
        requires
            c_offset + vs.len() <= old(self).cols@.len(),
        ensures
            final(self).cols@.len() == old(self).cols@.len(),
            final(self).nr == old(self).nr,
            final(self).nc == old(self).nc,
            final(self).columns() == Seq::new(
                old(self).cols@.len(),
                |j: int|
                    if c_offset <= j < c_offset + vs.len() {
                        old(self).columns()[j].push((vs@[j - c_offset], r))
                    } else {
                        old(self).columns()[j]
                    },
            ),
    {
        let ghost start = self.columns();
        let ncols = self.cols.len();
        let mut i: usize = 0;
        while i < vs.len()
            invariant
                ncols == self.cols@.len(),
                self.cols@.len() == old(self).cols@.len(),
                self.nr == old(self).nr,
                self.nc == old(self).nc,
                start == old(self).columns(),
                start.len() == self.cols@.len(),
                c_offset + vs.len() <= self.cols@.len(),
                i <= vs.len(),
                self.columns() == Seq::new(
                    self.cols@.len(),
                    |j: int|
                        if c_offset <= j < c_offset + i {
                            start[j].push((vs@[j - c_offset], r))
                        } else {
                            start[j]
                        },
                ),
            decreases vs.len() - i,
        {
            let ghost before = self.columns();
            self.insert_val(r, c_offset + i, &vs[i]);
            assert(self.columns() =~= Seq::new(
                self.cols@.len(),
                |j: int|
                    if c_offset <= j < c_offset + (i + 1) {
                        start[j].push((vs@[j - c_offset], r))
                    } else {
                        start[j]
                    },
            ));
            i = i + 1;
        }
        assert(self.columns() =~= Seq::new(
            old(self).cols@.len(),
            |j: int|
                if c_offset <= j < c_offset + vs.len() {
                    old(self).columns()[j].push((vs@[j - c_offset], r))
                } else {
                    old(self).columns()[j]
                },
        ));
    }

    /// The column at index `c`.
    pub fn get_col(&self, c: usize) -> (col: &Vec<CoeffPos<T>>)
        requires
            c < self.cols@.len(),
        ensures
            col_entries(col@) == self.columns()[c as int],
    {
        &self.cols[c]
    }
}

} // verus!

verus! {

/// The inner product of the entries of a sparse column with the vector `v`: the
/// left fold, from the identity, of `acc + g * v[pos]` over the entries in order.
pub open spec fn sparse_ip_spec(entries: Seq<(G1Point, usize)>, v: Seq<nat>) -> G1Repr
    decreases entries.len(),
{
    if entries.len() == 0 {
        g1_identity_repr()
    } else {
        let last = entries.last();
        g1_add_spec(
            sparse_ip_spec(entries.drop_last(), v),
            g1_mul_spec(last.0@, v[last.1 as int]),
        )
    }
}

/// The inner product of `w` with the first `n` entries of `v`: the left fold, from
/// the identity, of `acc + w[i] * v[i]`.
pub open spec fn ip_spec(w: Seq<G1Repr>, v: Seq<nat>, n: nat) -> G1Repr
    decreases n,
{
    if n == 0 {
        g1_identity_repr()
    } else {
        g1_add_spec(ip_spec(w, v, (n - 1) as nat), g1_mul_spec(w[n - 1], v[n - 1]))
    }
}

/// Linear algebra between scalar vectors and sparse matrices of G1 points.
pub struct SparseLinAlgebra;

impl SparseLinAlgebra {
    /// The inner product of `v` with a sparse column `w`.
    pub fn sparse_inner_product(v: &Vec<Scalar>, w: &Vec<CoeffPos<G1Point>>) -> (r: G1Point)
        requires
            forall|k: int| 0 <= k < w@.len() ==> (#[trigger] w@[k]).pos < v@.len(),
        ensures
            r@ == sparse_ip_spec(col_entries(w@), scalar_values(v@)),
    {
        let mut res = G1Point::identity();
        let mut k: usize = 0;
        while k < w.len()
            invariant
                k <= w@.len(),
                forall|j: int| 0 <= j < w@.len() ==> (#[trigger] w@[j]).pos < v@.len(),
                res@ == sparse_ip_spec(col_entries(w@.subrange(0, k as int)), scalar_values(v@)),
            decreases w.len() - k,
        {
            let g = w[k].val;
            let i = w[k].pos;
            let tmp = g.mul(&v[i]);
            res = res.add(&tmp);
            proof {
                let e = col_entries(w@.subrange(0, k + 1));
                assert(e.drop_last() =~= col_entries(w@.subrange(0, k as int)));
                assert(e.last() == (g, i));
            }
            k = k + 1;
        }
        assert(w@.subrange(0, w@.len() as int) =~= w@);
        res
    }

    /// The vector whose `c`-th entry is the inner product of `v` with column `c` of `m`.
    pub fn sparse_vector_matrix_mult(v: &Vec<Scalar>, m: &SparseMatrix<G1Point>, t: usize) -> (r:
        Vec<G1Point>)
        requires
            m.nc <= m.cols@.len(),
            forall|c: int, k: int|
                0 <= c < m.nc && 0 <= k < m.columns()[c].len() ==> (#[trigger] m.columns()[c][k]).1
                    < v@.len(),
        ensures
            r@.len() == m.nc,
            forall|c: int|
                0 <= c < m.nc ==> (#[trigger] r@[c])@ == sparse_ip_spec(
                    m.columns()[c],
                    scalar_values(v@),
                ),
    {
        let mut res: Vec<G1Point> = Vec::with_capacity(t);
        let mut c: usize = 0;
        while c < m.nc
            invariant
                m.nc <= m.cols@.len(),
                forall|c: int, k: int|
                    0 <= c < m.nc && 0 <= k < m.columns()[c].len() ==> (#[trigger] m.columns()[c][k]).1
                        < v@.len(),
                c <= m.nc,
                res@.len() == c,
                forall|j: int|
                    0 <= j < c ==> (#[trigger] res@[j])@ == sparse_ip_spec(
                        m.columns()[j],
                        scalar_values(v@),
                    ),
            decreases m.nc - c,
        {
            let col = m.get_col(c);
            assert forall|k: int| 0 <= k < col@.len() implies (#[trigger] col@[k]).pos < v@.len() by {
                assert(m.columns()[c as int][k] == (col@[k].val, col@[k].pos));
            }
            res.push(Self::sparse_inner_product(v, col));
            c = c + 1;
        }
        res
    }
}

/// The inner product of the scalars `v` with the points `w`.
pub fn inner_product(v: &[Scalar], w: &[G1Point]) -> (r: G1Point)
    requires
        v@.len() == w@.len(),
    ensures
        r@ == ip_spec(g1_views(w@), scalar_values(v@), v@.len()),
{
    let mut res = G1Point::identity();
    let mut i: usize = 0;
    while i < v.len()
        invariant
            i <= v@.len(),
            v@.len() == w@.len(),
            res@ == ip_spec(g1_views(w@), scalar_values(v@), i as nat),
        decreases v.len() - i,
    {
        let tmp = w[i].mul(&v[i]);
        res = res.add(&tmp);
        i = i + 1;
    }
    res
}

/// Every entry of `v` multiplied by the scalar `a`.
pub fn scalar_vector_mult(a: &Scalar, v: &[Scalar], l: usize) -> (r: Vec<Scalar>)
    ensures
        r@.len() == v@.len(),
        forall|i: int| 0 <= i < v@.len() ==> (#[trigger] r@[i])@ == fr_mul(a@, v@[i]@),
{
    let mut res: Vec<Scalar> = Vec::with_capacity(l);
    let mut i: usize = 0;
    while i < v.len()
        invariant
            i <= v@.len(),
            res@.len() == i,
            forall|j: int| 0 <= j < i ==> (#[trigger] res@[j])@ == fr_mul(a@, v@[j]@),
        decreases v.len() - i,
    {
        res.push(a.mul(&v[i]));
        i = i + 1;
    }
    res
}

} // verus!
