use vstd::prelude::*;

verus! {

/// A dense matrix of demands: one row per process, one column per
/// resource. The storage is nalgebra's `DMatrix<u64>`, which Verus sees
/// only through `matrix_rows` and the contracts of the methods below.
#[verifier::external_body]
pub struct RequestMatrix {
    inner: nalgebra::DMatrix<u64>,
}

/// The rows the matrix currently holds, top to bottom, each row left to
/// right.
pub uninterp spec fn matrix_rows(m: RequestMatrix) -> Seq<Seq<u64>>;

impl RequestMatrix {
    /// Relies on nalgebra's `DMatrix::zeros`: an `nrows` by `ncols` matrix
    /// with every entry zero.
    #[verifier::external_body]
    pub fn zeros(nrows: usize, ncols: usize) -> (m: RequestMatrix)
        ensures
            matrix_rows(m).len() == nrows,
            forall|i: int| 0 <= i < nrows ==> (#[trigger] matrix_rows(m)[i]).len() == ncols,
            forall|i: int, j: int|
                0 <= i < nrows && 0 <= j < ncols ==> matrix_rows(m)[i][j] == 0,
    {
        RequestMatrix { inner: nalgebra::DMatrix::zeros(nrows, ncols) }
    }

    /// Relies on nalgebra's `Index<(usize, usize)>` for matrices: reads the
    /// entry in row `i`, column `j`.
    #[verifier::external_body]
    pub fn get(&self, i: usize, j: usize) -> (v: u64)
        requires
            i < matrix_rows(*self).len(),
            j < matrix_rows(*self)[i as int].len(),
        ensures
            v == matrix_rows(*self)[i as int][j as int],
    {
        self.inner[(i, j)]
    }

    /// Relies on nalgebra's `IndexMut<(usize, usize)>` for matrices: writes
    /// the entry in row `i`, column `j` and moves nothing else.
    #[verifier::external_body]
    pub fn set(&mut self, i: usize, j: usize, v: u64)
        requires
            i < matrix_rows(*old(self)).len(),
            j < matrix_rows(*old(self))[i as int].len(),
        ensures
            matrix_rows(*final(self)) == matrix_rows(*old(self)).update(
                i as int,
                matrix_rows(*old(self))[i as int].update(j as int, v),
            ),
    {
        self.inner[(i, j)] = v;
    }

    /// Relies on nalgebra's `remove_row`: the same matrix with row `i`
    /// taken out and all later rows moved up by one.
    #[verifier::external_body]
    pub fn remove_row(self, i: usize) -> (m: RequestMatrix)
        requires
            i < matrix_rows(self).len(),
        ensures
            matrix_rows(m) == matrix_rows(self).remove(i as int),
    {
        RequestMatrix { inner: self.inner.remove_row(i) }
    }
}

/// A vector of per-resource capacities. The storage is nalgebra's
/// `DVector<u64>`, seen only through `vector_entries` and the contracts
/// below.
#[verifier::external_body]
pub struct AmountVector {
    inner: nalgebra::DVector<u64>,
}

/// The entries the vector currently holds, top to bottom.
pub uninterp spec fn vector_entries(v: AmountVector) -> Seq<u64>;

impl AmountVector {
    /// Relies on nalgebra's `DVector::zeros`: a vector of `n` zero entries.
    #[verifier::external_body]
    pub fn zeros(n: usize) -> (v: AmountVector)
        ensures
            vector_entries(v).len() == n,
            forall|i: int| 0 <= i < n ==> vector_entries(v)[i] == 0,
    {
        AmountVector { inner: nalgebra::DVector::zeros(n) }
    }

    /// Relies on nalgebra's `Index<usize>` for vectors: reads entry `i`.
    #[verifier::external_body]
    pub fn get(&self, i: usize) -> (v: u64)
        requires
            i < vector_entries(*self).len(),
        ensures
            v == vector_entries(*self)[i as int],
    {
        self.inner[i]
    }

    /// Relies on nalgebra's `IndexMut<usize>` for vectors: writes entry `i`
    /// and moves nothing else.
    #[verifier::external_body]
    pub fn set(&mut self, i: usize, v: u64)
        requires
            i < vector_entries(*old(self)).len(),
        ensures
            vector_entries(*final(self)) == vector_entries(*old(self)).update(i as int, v),
    {
        self.inner[i] = v;
    }
}

} // verus!
