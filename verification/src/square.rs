use vstd::prelude::*;

use crate::error::LinalgError;
use crate::matrix::Matrix;
use crate::scalar::Scalar;

verus! {

/// The sum of the first `k` diagonal elements of the grid `g`.
pub open spec fn trace_sum<T: Scalar>(g: Seq<Seq<T>>, k: int) -> T
    decreases k,
{
    if k <= 0 {
        T::zero_spec()
    } else {
        T::add_spec(trace_sum(g, k - 1), g[k - 1][k - 1])
    }
}

impl<T> Matrix<T> {
    /// Reports the dimensions.
    pub fn size(&self) -> (r: (usize, usize))
        ensures
            r.0 == self.rows,
            r.1 == self.cols,
    {
        (self.rows, self.cols)
    }

    /// Verifies that the matrix is square: `Ok` exactly when the row count
    /// equals the column count, `NotSquare` with the observed dimensions
    /// otherwise. Every operation that assumes squareness calls this first
    /// and propagates its failure unchanged.
    pub fn check_square(&self) -> (r: Result<(), LinalgError>)
        ensures
            self.rows == self.cols ==> r == Ok::<(), LinalgError>(()),
            self.rows != self.cols ==> r == Err::<(), LinalgError>(
                LinalgError::NotSquare { rows: self.rows, cols: self.cols },
            ),
    {
        if self.rows == self.cols {
            Ok(())
        } else {
            Err(LinalgError::NotSquare { rows: self.rows, cols: self.cols })
        }
    }
}

impl<T: Scalar> Matrix<T> {
    /// The trace: the sum of the diagonal of a square matrix, added left to
    /// right; `NotSquare` otherwise.
    pub fn trace(&self) -> (r: Result<T, LinalgError>)
        requires
            self.wf(),
        ensures
            self.rows == self.cols ==> r == Ok::<T, LinalgError>(
                trace_sum(self@, self.rows as int),
            ),
            self.rows != self.cols ==> r == Err::<T, LinalgError>(
                LinalgError::NotSquare { rows: self.rows, cols: self.cols },
            ),
    {
        match self.check_square() {
            Err(e) => Err(e),
            Ok(()) => {
                let n = self.rows;
                let mut acc = T::zero();
                let mut k: usize = 0;
                while k < n
                    invariant
                        self.wf(),
                        k <= n,
                        n == self.rows,
                        self.rows == self.cols,
                        acc == trace_sum(self@, k as int),
                    decreases n - k,
                {
                    acc = T::add(acc, self.get(k, k));
                    k = k + 1;
                }
                Ok(acc)
            },
        }
    }
}

} // verus!
