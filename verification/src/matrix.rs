//! Dense matrices over an abstract scalar, stored as a list of rows.

use vstd::prelude::*;

use crate::scalar::Scalar;
use crate::vector::dot_spec;
use crate::vector::Vector;

verus! {

/// A dense matrix held row by row. Well-formedness ties every row to the
/// declared column count.
pub struct Matrix<T> {
    pub cols: usize,
    pub rows: Vec<Vector<T>>,
}

impl<T: Scalar> Matrix<T> {
    /// Every row has exactly `cols` entries.
    pub open spec fn wf(&self) -> bool {
        forall|i: int| 0 <= i < self.rows@.len() ==> (#[trigger] self.rows@[i])@.len() == self.cols
    }

    /// The number of rows.
    pub open spec fn row_count(&self) -> nat {
        self.rows@.len()
    }

    /// The number of columns.
    pub open spec fn col_count(&self) -> nat {
        self.cols as nat
    }

    /// The entry in row `i`, column `j`.
    pub open spec fn entry(&self, i: int, j: int) -> T {
        self.rows@[i]@[j]
    }

    /// Row `i` as a sequence of entries.
    pub open spec fn row_seq(&self, i: int) -> Seq<T> {
        self.rows@[i]@
    }

    /// Column `j` as a sequence of entries.
    pub open spec fn col_seq(&self, j: int) -> Seq<T> {
        Seq::new(self.row_count(), |i: int| self.entry(i, j))
    }

    /// All rows, as sequences of entries.
    pub open spec fn rows_view(&self) -> Seq<Seq<T>> {
        Seq::new(self.row_count(), |i: int| self.row_seq(i))
    }

    pub fn nrows(&self) -> (r: usize)
        ensures
            r == self.row_count(),
    {
        self.rows.len()
    }

    pub fn ncols(&self) -> (r: usize)
        ensures
            r == self.col_count(),
    {
        self.cols
    }

    /// Runtime well-formedness test, for matrices received from unverified
    /// collaborators.
    pub fn is_wf(&self) -> (r: bool)
        ensures
            r == self.wf(),
    {
        let n = self.rows.len();
        for i in 0..n
            invariant
                n == self.rows@.len(),
                forall|k: int| 0 <= k < i ==> (#[trigger] self.rows@[k])@.len() == self.cols,
        {
            if self.rows[i].dim() != self.cols {
                return false;
            }
        }
        true
    }

    /// Builds a matrix from rows that all have `cols` entries.
    pub fn from_rows(cols: usize, rows: Vec<Vector<T>>) -> (r: Self)
        requires
            forall|i: int| 0 <= i < rows@.len() ==> (#[trigger] rows@[i])@.len() == cols,
        ensures
            r.wf(),
            r.row_count() == rows@.len(),
            r.col_count() == cols,
            forall|i: int| 0 <= i < rows@.len() ==> #[trigger] r.rows@[i]@ == rows@[i]@,
    {
        Matrix { cols, rows }
    }

    pub fn get(&self, i: usize, j: usize) -> (r: T)
        requires
            self.wf(),
            i < self.row_count(),
            j < self.col_count(),
        ensures
            r == self.entry(i as int, j as int),
    {
        self.rows[i].get(j)
    }

    /// A copy of row `i`.
    pub fn row(&self, i: usize) -> (r: Vector<T>)
        requires
            self.wf(),
            i < self.row_count(),
        ensures
            r@.len() == self.col_count(),
            r@ == self.rows@[i as int]@,
    {
        self.rows[i].duplicate()
    }

    /// A copy of column `j`.
    pub fn column(&self, j: usize) -> (r: Vector<T>)
        requires
            self.wf(),
            j < self.col_count(),
        ensures
            r@.len() == self.row_count(),
            forall|i: int| 0 <= i < r@.len() ==> r@[i] == self.entry(i, j as int),
            r@ == self.col_seq(j as int),
    {
        let n = self.rows.len();
        let mut out: Vec<T> = Vec::new();
        for i in 0..n
            invariant
                self.wf(),
                n == self.row_count(),
                j < self.col_count(),
                out@.len() == i,
                forall|k: int| 0 <= k < i ==> out@[k] == self.entry(k, j as int),
        {
            out.push(self.rows[i].get(j));
        }
        proof {
            assert(out@ =~= self.col_seq(j as int));
        }
        Vector::from_elems(out)
    }

    /// The zero matrix.
    pub fn zeros(nrows: usize, ncols: usize) -> (r: Self)
        ensures
            r.wf(),
            r.row_count() == nrows,
            r.col_count() == ncols,
            forall|i: int, j: int|
                0 <= i < nrows && 0 <= j < ncols ==> #[trigger] r.entry(i, j) == T::spec_zero(),
    {
        let mut rows: Vec<Vector<T>> = Vec::new();
        for i in 0..nrows
            invariant
                rows@.len() == i,
                forall|k: int| 0 <= k < i ==> (#[trigger] rows@[k])@.len() == ncols,
                forall|k: int, j: int|
                    0 <= k < i && 0 <= j < ncols ==> #[trigger] rows@[k]@[j] == T::spec_zero(),
        {
            rows.push(Vector::zeros(ncols));
        }
        Matrix { cols: ncols, rows }
    }

    /// The identity matrix of order `n`.
    pub fn identity(n: usize) -> (r: Self)
        ensures
            r.wf(),
            r.row_count() == n,
            r.col_count() == n,
            forall|i: int, j: int|
                0 <= i < n && 0 <= j < n ==> #[trigger] r.entry(i, j) == if i == j {
                    T::spec_one()
                } else {
                    T::spec_zero()
                },
    {
        let mut rows: Vec<Vector<T>> = Vec::new();
        for i in 0..n
            invariant
                rows@.len() == i,
                forall|k: int| 0 <= k < i ==> (#[trigger] rows@[k])@.len() == n,
                forall|k: int, j: int|
                    0 <= k < i && 0 <= j < n ==> #[trigger] rows@[k]@[j] == if k == j {
                        T::spec_one()
                    } else {
                        T::spec_zero()
                    },
        {
            let mut entries: Vec<T> = Vec::new();
            for j in 0..n
                invariant
                    entries@.len() == j,
                    forall|t: int| 0 <= t < j ==> #[trigger] entries@[t] == if i == t {
                        T::spec_one()
                    } else {
                        T::spec_zero()
                    },
            {
                if i == j {
                    entries.push(T::one());
                } else {
                    entries.push(T::zero());
                }
            }
            rows.push(Vector::from_elems(entries));
        }
        Matrix { cols: n, rows }
    }

    /// Entrywise sum.
    pub fn add(&self, other: &Self) -> (r: Self)
        requires
            self.wf(),
            other.wf(),
            self.row_count() == other.row_count(),
            self.col_count() == other.col_count(),
        ensures
            r.wf(),
            r.row_count() == self.row_count(),
            r.col_count() == self.col_count(),
            forall|i: int, j: int|
                0 <= i < r.row_count() && 0 <= j < r.col_count() ==> #[trigger] r.entry(i, j)
                    == self.entry(i, j).spec_add(other.entry(i, j)),
    {
        let n = self.rows.len();
        let mut rows: Vec<Vector<T>> = Vec::new();
        for i in 0..n
            invariant
                self.wf(),
                other.wf(),
                n == self.row_count(),
                n == other.row_count(),
                self.col_count() == other.col_count(),
                rows@.len() == i,
                forall|k: int| 0 <= k < i ==> (#[trigger] rows@[k])@.len() == self.col_count(),
                forall|k: int, j: int|
                    0 <= k < i && 0 <= j < self.col_count() ==> #[trigger] rows@[k]@[j]
                        == self.entry(k, j).spec_add(other.entry(k, j)),
        {
            rows.push(self.rows[i].add(&other.rows[i]));
        }
        Matrix { cols: self.cols, rows }
    }

    /// Entrywise difference.
    pub fn sub(&self, other: &Self) -> (r: Self)
        requires
            self.wf(),
            other.wf(),
            self.row_count() == other.row_count(),
            self.col_count() == other.col_count(),
        ensures
            r.wf(),
            r.row_count() == self.row_count(),
            r.col_count() == self.col_count(),
            forall|i: int, j: int|
                0 <= i < r.row_count() && 0 <= j < r.col_count() ==> #[trigger] r.entry(i, j)
                    == self.entry(i, j).spec_sub(other.entry(i, j)),
    {
        let n = self.rows.len();
        let mut rows: Vec<Vector<T>> = Vec::new();
        for i in 0..n
            invariant
                self.wf(),
                other.wf(),
                n == self.row_count(),
                n == other.row_count(),
                self.col_count() == other.col_count(),
                rows@.len() == i,
                forall|k: int| 0 <= k < i ==> (#[trigger] rows@[k])@.len() == self.col_count(),
                forall|k: int, j: int|
                    0 <= k < i && 0 <= j < self.col_count() ==> #[trigger] rows@[k]@[j]
                        == self.entry(k, j).spec_sub(other.entry(k, j)),
        {
            rows.push(self.rows[i].sub(&other.rows[i]));
        }
        Matrix { cols: self.cols, rows }
    }

    /// Every entry divided by `c`.
    pub fn scale_div(&self, c: T) -> (r: Self)
        requires
            self.wf(),
        ensures
            r.wf(),
            r.row_count() == self.row_count(),
            r.col_count() == self.col_count(),
            forall|i: int, j: int|
                0 <= i < r.row_count() && 0 <= j < r.col_count() ==> #[trigger] r.entry(i, j)
                    == self.entry(i, j).spec_div(c),
    {
        let n = self.rows.len();
        let mut rows: Vec<Vector<T>> = Vec::new();
        for i in 0..n
            invariant
                self.wf(),
                n == self.row_count(),
                rows@.len() == i,
                forall|k: int| 0 <= k < i ==> (#[trigger] rows@[k])@.len() == self.col_count(),
                forall|k: int, j: int|
                    0 <= k < i && 0 <= j < self.col_count() ==> #[trigger] rows@[k]@[j]
                        == self.entry(k, j).spec_div(c),
        {
            rows.push(self.rows[i].scale_div(c));
        }
        Matrix { cols: self.cols, rows }
    }

    /// The transpose.
    pub fn transpose(&self) -> (r: Self)
        requires
            self.wf(),
        ensures
            r.wf(),
            r.row_count() == self.col_count(),
            r.col_count() == self.row_count(),
            forall|i: int, j: int|
                0 <= i < r.row_count() && 0 <= j < r.col_count() ==> r.entry(i, j) == self.entry(
                    j,
                    i,
                ),
    {
        let m = self.cols;
        let mut rows: Vec<Vector<T>> = Vec::new();
        for j in 0..m
            invariant
                self.wf(),
                m == self.col_count(),
                rows@.len() == j,
                forall|k: int| 0 <= k < j ==> (#[trigger] rows@[k])@.len() == self.row_count(),
                forall|k: int, i: int|
                    0 <= k < j && 0 <= i < self.row_count() ==> rows@[k]@[i] == #[trigger] self.entry(
                        i,
                        k,
                    ),
        {
            rows.push(self.column(j));
        }
        Matrix { cols: self.rows.len(), rows }
    }

    /// The matrix-vector product.
    pub fn matvec(&self, x: &Vector<T>) -> (r: Vector<T>)
        requires
            self.wf(),
            x@.len() == self.col_count(),
        ensures
            r@.len() == self.row_count(),
            forall|i: int|
                0 <= i < r@.len() ==> r@[i] == dot_spec(#[trigger] self.row_seq(i), x@),
    {
        let n = self.rows.len();
        let mut out: Vec<T> = Vec::new();
        for i in 0..n
            invariant
                self.wf(),
                n == self.row_count(),
                x@.len() == self.col_count(),
                out@.len() == i,
                forall|k: int| 0 <= k < i ==> out@[k] == dot_spec(#[trigger] self.row_seq(k), x@),
        {
            out.push(self.rows[i].dot(x));
        }
        Vector::from_elems(out)
    }

    /// The matrix product `self * other`.
    pub fn matmul(&self, other: &Self) -> (r: Self)
        requires
            self.wf(),
            other.wf(),
            self.col_count() == other.row_count(),
        ensures
            r.wf(),
            r.row_count() == self.row_count(),
            r.col_count() == other.col_count(),
            forall|i: int, j: int|
                0 <= i < r.row_count() && 0 <= j < r.col_count() ==> #[trigger] r.entry(i, j)
                    == dot_spec(self.row_seq(i), other.col_seq(j)),
    {
        let n = self.rows.len();
        let m = other.cols;
        let mut rows: Vec<Vector<T>> = Vec::new();
        for i in 0..n
            invariant
                self.wf(),
                other.wf(),
                self.col_count() == other.row_count(),
                n == self.row_count(),
                m == other.col_count(),
                rows@.len() == i,
                forall|k: int| 0 <= k < i ==> (#[trigger] rows@[k])@.len() == m,
                forall|k: int, j: int|
                    0 <= k < i && 0 <= j < m ==> #[trigger] rows@[k]@[j] == dot_spec(
                        self.row_seq(k),
                        other.col_seq(j),
                    ),
        {
            let mut entries: Vec<T> = Vec::new();
            for j in 0..m
                invariant
                    self.wf(),
                    other.wf(),
                    self.col_count() == other.row_count(),
                    i < n,
                    n == self.row_count(),
                    m == other.col_count(),
                    entries@.len() == j,
                    forall|t: int|
                        0 <= t < j ==> entries@[t] == dot_spec(
                            self.row_seq(i as int),
                            #[trigger] other.col_seq(t),
                        ),
            {
                let col = other.column(j);
                entries.push(self.rows[i].dot(&col));
            }
            rows.push(Vector::from_elems(entries));
        }
        Matrix { cols: m, rows }
    }

    /// The outer product `u * v^T` as a matrix.
    pub fn outer(u: &Vector<T>, v: &Vector<T>) -> (r: Self)
        ensures
            r.wf(),
            r.row_count() == u@.len(),
            r.col_count() == v@.len(),
            forall|i: int, j: int|
                0 <= i < u@.len() && 0 <= j < v@.len() ==> #[trigger] r.entry(i, j)
                    == v@[j].spec_mul(u@[i]),
    {
        let n = u.dim();
        let mut rows: Vec<Vector<T>> = Vec::new();
        for i in 0..n
            invariant
                n == u@.len(),
                rows@.len() == i,
                forall|k: int| 0 <= k < i ==> (#[trigger] rows@[k])@.len() == v@.len(),
                forall|k: int, j: int|
                    0 <= k < i && 0 <= j < v@.len() ==> #[trigger] rows@[k]@[j] == v@[j].spec_mul(
                        u@[k],
                    ),
        {
            rows.push(v.scale(u.get(i)));
        }
        Matrix { cols: v.dim(), rows }
    }
}

} // verus!
