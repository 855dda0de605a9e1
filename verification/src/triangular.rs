use vstd::prelude::*;

use crate::error::LinalgError;
use crate::layout::Layout;
use crate::matrix::Matrix;
use crate::scalar::Scalar;
use crate::solve::{ImplSolve, Uplo};

verus! {

/// The triangular-solve capability: solving `self · x = b` when only one
/// triangle of `self` carries the system. Each entry point validates
/// squareness, resolves the memory layout, and only then lets the native
/// solver run; a non-square or unclassifiable matrix never reaches it.
pub trait TriangularMatrix<T>: Sized {
    /// Well-formedness of the container.
    spec fn tri_wf(&self) -> bool;

    /// Number of rows.
    spec fn tri_rows(&self) -> usize;

    /// Number of columns.
    spec fn tri_cols(&self) -> usize;

    /// The resolved memory layout, when one exists.
    spec fn tri_layout(&self) -> Option<Layout>;

    /// Solves the system carried by the upper triangle. Fails with
    /// `NotSquare` exactly on a non-square matrix, with `InvalidLayout`
    /// exactly on a square matrix of unclassifiable layout; otherwise the
    /// native solver decides, and any failure it reports comes back as
    /// `SolverFailure`. The right-hand side's length is not pre-checked
    /// here: detecting a mismatch is left to the native routine, matching
    /// its minimal-validation design.
    fn solve_upper(&self, b: Vec<T>) -> (r: Result<Vec<T>, LinalgError>)
        requires
            self.tri_wf(),
        ensures
            self.tri_rows() != self.tri_cols() ==> r == Err::<Vec<T>, LinalgError>(
                LinalgError::NotSquare { rows: self.tri_rows(), cols: self.tri_cols() },
            ),
            self.tri_rows() == self.tri_cols() && self.tri_layout() is None ==> r == Err::<
                Vec<T>,
                LinalgError,
            >(LinalgError::InvalidLayout),
            self.tri_rows() == self.tri_cols() && self.tri_layout() is Some ==> match r {
                Ok(_) => true,
                Err(e) => e.is_solver_failure(),
            },
    ;

    /// Solves the system carried by the lower triangle; the same discipline
    /// as `solve_upper` with the other triangular selector.
    fn solve_lower(&self, b: Vec<T>) -> (r: Result<Vec<T>, LinalgError>)
        requires
            self.tri_wf(),
        ensures
            self.tri_rows() != self.tri_cols() ==> r == Err::<Vec<T>, LinalgError>(
                LinalgError::NotSquare { rows: self.tri_rows(), cols: self.tri_cols() },
            ),
            self.tri_rows() == self.tri_cols() && self.tri_layout() is None ==> r == Err::<
                Vec<T>,
                LinalgError,
            >(LinalgError::InvalidLayout),
            self.tri_rows() == self.tri_cols() && self.tri_layout() is Some ==> match r {
                Ok(_) => true,
                Err(e) => e.is_solver_failure(),
            },
    ;
}

impl<T: Copy + ImplSolve> TriangularMatrix<T> for Matrix<T> {
    open spec fn tri_wf(&self) -> bool {
        self.wf()
    }

    open spec fn tri_rows(&self) -> usize {
        self.rows
    }

    open spec fn tri_cols(&self) -> usize {
        self.cols
    }

    open spec fn tri_layout(&self) -> Option<Layout> {
        self.layout_of()
    }

    fn solve_upper(&self, b: Vec<T>) -> (r: Result<Vec<T>, LinalgError>) {
        match self.check_square() {
            Err(e) => {
                return Err(e);
            },
            Ok(()) => {},
        }
        let (n, _) = self.size();
        let layout = match self.layout() {
            Ok(l) => l,
            Err(e) => {
                return Err(e);
            },
        };
        let a = self.to_flat();
        match T::solve_triangle(layout, Uplo::Upper, n, &a, b) {
            Ok(x) => Ok(x),
            Err(code) => Err(LinalgError::SolverFailure { code }),
        }
    }

    fn solve_lower(&self, b: Vec<T>) -> (r: Result<Vec<T>, LinalgError>) {
        match self.check_square() {
            Err(e) => {
                return Err(e);
            },
            Ok(()) => {},
        }
        let (n, _) = self.size();
        let layout = match self.layout() {
            Ok(l) => l,
            Err(e) => {
                return Err(e);
            },
        };
        let a = self.to_flat();
        match T::solve_triangle(layout, Uplo::Lower, n, &a, b) {
            Ok(x) => Ok(x),
            Err(code) => Err(LinalgError::SolverFailure { code }),
        }
    }
}

/// The grid `g` with every element strictly above the diagonal replaced by
/// the additive identity.
pub open spec fn spec_drop_upper<T: Scalar>(g: Seq<Seq<T>>) -> Seq<Seq<T>> {
    Seq::new(
        g.len(),
        |i: int|
            Seq::new(
                g[i].len(),
                |j: int|
                    if i < j {
                        T::zero_spec()
                    } else {
                        g[i][j]
                    },
            ),
    )
}

/// The grid `g` with every element strictly below the diagonal replaced by
/// the additive identity.
pub open spec fn spec_drop_lower<T: Scalar>(g: Seq<Seq<T>>) -> Seq<Seq<T>> {
    Seq::new(
        g.len(),
        |i: int|
            Seq::new(
                g[i].len(),
                |j: int|
                    if i > j {
                        T::zero_spec()
                    } else {
                        g[i][j]
                    },
            ),
    )
}

/// Zeroes every element strictly above the diagonal, in place; elements on
/// and below the diagonal are untouched. Total: any shape is accepted,
/// every element is visited exactly once.
pub fn drop_upper<T: Scalar>(a: Matrix<T>) -> (r: Matrix<T>)
    requires
        a.wf(),
    ensures
        r.wf(),
        r.rows == a.rows,
        r.cols == a.cols,
        r.row_stride == a.row_stride,
        r.col_stride == a.col_stride,
        r@ == spec_drop_upper(a@),
{
    let ghost a0 = a;
    let mut m = a;
    let mut i: usize = 0;
    while i < m.rows
        invariant
            m.wf(),
            m.rows == a0.rows,
            m.cols == a0.cols,
            m.row_stride == a0.row_stride,
            m.col_stride == a0.col_stride,
            m.data@.len() == a0.data@.len(),
            i <= m.rows,
            forall|r: int, c: int|
                0 <= r < i && 0 <= c < m.cols ==> m@[r][c] == (if r < c {
                    T::zero_spec()
                } else {
                    a0@[r][c]
                }),
            forall|r: int, c: int|
                i <= r < m.rows && 0 <= c < m.cols ==> m@[r][c] == a0@[r][c],
        decreases m.rows - i,
    {
        let mut j: usize = 0;
        while j < m.cols
            invariant
                m.wf(),
                m.rows == a0.rows,
                m.cols == a0.cols,
                m.row_stride == a0.row_stride,
                m.col_stride == a0.col_stride,
                m.data@.len() == a0.data@.len(),
                i < m.rows,
                j <= m.cols,
                forall|r: int, c: int|
                    0 <= r < i && 0 <= c < m.cols ==> m@[r][c] == (if r < c {
                        T::zero_spec()
                    } else {
                        a0@[r][c]
                    }),
                forall|c: int|
                    0 <= c < j ==> m@[i as int][c] == (if (i as int) < c {
                        T::zero_spec()
                    } else {
                        a0@[i as int][c]
                    }),
                forall|c: int| j <= c < m.cols ==> m@[i as int][c] == a0@[i as int][c],
                forall|r: int, c: int|
                    i < r < m.rows && 0 <= c < m.cols ==> m@[r][c] == a0@[r][c],
            decreases m.cols - j,
        {
            if i < j {
                m.set(i, j, T::zero());
            }
            j = j + 1;
        }
        i = i + 1;
    }
    proof {
        assert(m@ =~~= spec_drop_upper(a0@));
    }
    m
}

/// Zeroes every element strictly below the diagonal, in place; elements on
/// and above the diagonal are untouched. The mirror of `drop_upper`.
pub fn drop_lower<T: Scalar>(a: Matrix<T>) -> (r: Matrix<T>)
    requires
        a.wf(),
    ensures
        r.wf(),
        r.rows == a.rows,
        r.cols == a.cols,
        r.row_stride == a.row_stride,
        r.col_stride == a.col_stride,
        r@ == spec_drop_lower(a@),
{
    let ghost a0 = a;
    let mut m = a;
    let mut i: usize = 0;
    while i < m.rows
        invariant
            m.wf(),
            m.rows == a0.rows,
            m.cols == a0.cols,
            m.row_stride == a0.row_stride,
            m.col_stride == a0.col_stride,
            m.data@.len() == a0.data@.len(),
            i <= m.rows,
            forall|r: int, c: int|
                0 <= r < i && 0 <= c < m.cols ==> m@[r][c] == (if r > c {
                    T::zero_spec()
                } else {
                    a0@[r][c]
                }),
            forall|r: int, c: int|
                i <= r < m.rows && 0 <= c < m.cols ==> m@[r][c] == a0@[r][c],
        decreases m.rows - i,
    {
        let mut j: usize = 0;
        while j < m.cols
            invariant
                m.wf(),
                m.rows == a0.rows,
                m.cols == a0.cols,
                m.row_stride == a0.row_stride,
                m.col_stride == a0.col_stride,
                m.data@.len() == a0.data@.len(),
                i < m.rows,
                j <= m.cols,
                forall|r: int, c: int|
                    0 <= r < i && 0 <= c < m.cols ==> m@[r][c] == (if r > c {
                        T::zero_spec()
                    } else {
                        a0@[r][c]
                    }),
                forall|c: int|
                    0 <= c < j ==> m@[i as int][c] == (if (i as int) > c {
                        T::zero_spec()
                    } else {
                        a0@[i as int][c]
                    }),
                forall|c: int| j <= c < m.cols ==> m@[i as int][c] == a0@[i as int][c],
                forall|r: int, c: int|
                    i < r < m.rows && 0 <= c < m.cols ==> m@[r][c] == a0@[r][c],
            decreases m.cols - j,
        {
            if i > j {
                m.set(i, j, T::zero());
            }
            j = j + 1;
        }
        i = i + 1;
    }
    proof {
        assert(m@ =~~= spec_drop_lower(a0@));
    }
    m
}

/// Zeroing the strict upper triangle is idempotent: a second pass finds
/// every element above the diagonal already zero and changes nothing.
pub proof fn lemma_drop_upper_idempotent<T: Scalar>(g: Seq<Seq<T>>)
    ensures
        spec_drop_upper(spec_drop_upper(g)) == spec_drop_upper(g),
{
    assert(spec_drop_upper(spec_drop_upper(g)) =~~= spec_drop_upper(g));
}

/// Zeroing the strict lower triangle is idempotent.
pub proof fn lemma_drop_lower_idempotent<T: Scalar>(g: Seq<Seq<T>>)
    ensures
        spec_drop_lower(spec_drop_lower(g)) == spec_drop_lower(g),
{
    assert(spec_drop_lower(spec_drop_lower(g)) =~~= spec_drop_lower(g));
}

/// The two maskings partition a matrix into its three triangular parts:
/// after `drop_upper` and then `drop_lower`, exactly the diagonal remains
/// — each strict-upper element was zeroed by the first pass alone, each
/// strict-lower element by the second alone, and no element is processed
/// twice.
pub proof fn lemma_drop_partition<T: Scalar>(g: Seq<Seq<T>>)
    ensures
        spec_drop_lower(spec_drop_upper(g)).len() == g.len(),
        forall|i: int|
            0 <= i < g.len() ==> #[trigger] spec_drop_lower(spec_drop_upper(g))[i].len()
                == g[i].len(),
        forall|i: int, j: int|
            0 <= i < g.len() && 0 <= j < g[i].len() ==> #[trigger] spec_drop_lower(
                spec_drop_upper(g),
            )[i][j] == (if i == j {
                g[i][j]
            } else {
                T::zero_spec()
            }),
{
}

/// On a matrix whose diagonal is already zero, `drop_upper` followed by
/// `drop_lower` yields the all-zero matrix. (A matrix with a nonzero
/// diagonal element keeps it: neither masking touches the diagonal.)
pub proof fn lemma_drop_upper_then_lower_zero<T: Scalar>(g: Seq<Seq<T>>)
    requires
        forall|i: int| 0 <= i < g.len() && i < g[i].len() ==> #[trigger] g[i][i] == T::zero_spec(),
    ensures
        forall|i: int, j: int|
            0 <= i < g.len() && 0 <= j < g[i].len() ==> #[trigger] spec_drop_lower(
                spec_drop_upper(g),
            )[i][j] == T::zero_spec(),
{
    lemma_drop_partition::<T>(g);
}

} // verus!
