use vstd::prelude::*;

use crate::error::LinalgError;
use crate::layout::Layout;

verus! {

/// A dense 2-D container addressed through explicit strides, as the usual
/// n-dimensional array containers arrange their storage: the element at row
/// `i`, column `j` lives at position `i * row_stride + j * col_stride` of
/// the backing buffer. A sub-view of a larger buffer is represented by
/// strides that match neither contiguous arrangement.
pub struct Matrix<T> {
    /// The backing buffer, in memory order.
    pub data: Vec<T>,
    /// Number of rows.
    pub rows: usize,
    /// Number of columns.
    pub cols: usize,
    /// Buffer distance between vertically adjacent elements.
    pub row_stride: usize,
    /// Buffer distance between horizontally adjacent elements.
    pub col_stride: usize,
}

impl<T> Matrix<T> {
    /// The buffer position of the element at row `i`, column `j`.
    pub open spec fn offset(&self, i: int, j: int) -> int {
        i * self.row_stride + j * self.col_stride
    }

    /// `(i, j)` addresses an element of the matrix.
    pub open spec fn valid_cell(&self, i: int, j: int) -> bool {
        0 <= i < self.rows && 0 <= j < self.cols
    }

    /// Well-formedness: every element's position falls inside the backing
    /// buffer, and distinct elements occupy distinct positions, so writing
    /// one element never touches another.
    pub open spec fn wf(&self) -> bool {
        &&& forall|i: int, j: int|
            self.valid_cell(i, j) ==> 0 <= #[trigger] self.offset(i, j) < self.data@.len()
        &&& forall|i1: int, j1: int, i2: int, j2: int|
            #![trigger self.offset(i1, j1), self.offset(i2, j2)]
            self.valid_cell(i1, j1) && self.valid_cell(i2, j2) && self.offset(i1, j1)
                == self.offset(i2, j2) ==> i1 == i2 && j1 == j2
    }

    /// The element at row `i`, column `j`, as a mathematical value.
    pub open spec fn entry(&self, i: int, j: int) -> T {
        self.data@[self.offset(i, j)]
    }

    /// The memory layout that the strides resolve to: row-major when rows
    /// are contiguous, column-major when columns are, and none otherwise.
    /// Classification never falls back to a default.
    pub open spec fn layout_of(&self) -> Option<Layout> {
        if self.row_stride == self.cols && self.col_stride == 1 {
            Some(Layout::RowMajor)
        } else if self.col_stride == self.rows && self.row_stride == 1 {
            Some(Layout::ColumnMajor)
        } else {
            None
        }
    }

    /// The stride shapes this container supports: one of the two strides is
    /// a unit step and the other at least spans the unit-stride extent, as
    /// in a contiguous array or a rectangular sub-view of one.
    pub open spec fn strides_supported(
        rows: usize,
        cols: usize,
        row_stride: usize,
        col_stride: usize,
    ) -> bool {
        ||| (col_stride == 1 && row_stride >= cols)
        ||| (row_stride == 1 && col_stride >= rows)
    }

    /// The last element's position falls inside a buffer of length `len`
    /// (vacuous for an empty shape).
    pub open spec fn strides_in_bounds(
        rows: usize,
        cols: usize,
        row_stride: usize,
        col_stride: usize,
        len: int,
    ) -> bool {
        rows == 0 || cols == 0 || (rows - 1) * row_stride + (cols - 1) * col_stride < len
    }
}

impl<T> View for Matrix<T> {
    type V = Seq<Seq<T>>;

    /// A matrix is viewed as the sequence of its rows, each row the
    /// sequence of its elements.
    open spec fn view(&self) -> Seq<Seq<T>> {
        Seq::new(
            self.rows as nat,
            |i: int| Seq::new(self.cols as nat, |j: int| self.entry(i, j)),
        )
    }
}

/// Unit-stride addressing is injective: when the minor index stays below
/// the major stride, the index pair can be read back from the position.
proof fn lemma_strided_injective(s: int, i1: int, j1: int, i2: int, j2: int)
    by (nonlinear_arith)
    requires
        0 <= j1 < s,
        0 <= j2 < s,
        i1 * s + j1 == i2 * s + j2,
    ensures
        i1 == i2,
        j1 == j2,
{
}

/// Multiplying both sides of `a <= b` by a nonnegative factor keeps the order.
proof fn lemma_mul_mono(a: int, b: int, c: int)
    by (nonlinear_arith)
    requires
        a <= b,
        0 <= c,
    ensures
        a * c <= b * c,
{
}

/// The product of nonnegative factors is nonnegative.
proof fn lemma_mul_nonneg(a: int, b: int)
    by (nonlinear_arith)
    requires
        0 <= a,
        0 <= b,
    ensures
        0 <= a * b,
{
}

/// A unit factor leaves the other factor unchanged.
proof fn lemma_mul_one(a: int, b: int)
    by (nonlinear_arith)
    requires
        b == 1,
    ensures
        a * b == a,
{
}

/// The position of the last element of a contiguous `rows × cols`
/// arrangement is `rows * cols - 1`.
proof fn lemma_last_contiguous(rows: int, cols: int)
    by (nonlinear_arith)
    requires
        0 < rows,
        0 < cols,
    ensures
        (rows - 1) * cols + (cols - 1) == rows * cols - 1,
{
}

/// Row-major positions stay below `rows * cols`.
proof fn lemma_contiguous_bound(i: int, j: int, rows: int, cols: int)
    by (nonlinear_arith)
    requires
        0 <= i < rows,
        0 <= j < cols,
    ensures
        0 <= i * cols + j < rows * cols,
{
}

impl<T> Matrix<T> {
    /// Builds a row-major matrix of shape `rows × cols` from a flat buffer
    /// of exactly `rows * cols` elements, row after row; `None` on a length
    /// mismatch.
    pub fn from_shape_vec(rows: usize, cols: usize, data: Vec<T>) -> (r: Option<Matrix<T>>)
        ensures
            r is Some <==> rows * cols == data@.len(),
            r matches Some(m) ==> {
                &&& m.wf()
                &&& m.rows == rows
                &&& m.cols == cols
                &&& m.row_stride == cols
                &&& m.col_stride == 1
                &&& m.data@ == data@
                &&& forall|i: int, j: int|
                    m.valid_cell(i, j) ==> #[trigger] m.entry(i, j) == data@[i * cols + j]
            },
    {
        let l: usize = data.len();
        let len_ok = match rows.checked_mul(cols) {
            Some(p) => p == l,
            None => false,
        };
        if !len_ok {
            return None;
        }
        let m = Matrix { data, rows, cols, row_stride: cols, col_stride: 1 };
        proof {
            assert forall|i: int, j: int| m.valid_cell(i, j) implies 0 <= #[trigger] m.offset(i, j)
                < m.data@.len() by {
                lemma_contiguous_bound(i, j, rows as int, cols as int);
            }
            assert forall|i1: int, j1: int, i2: int, j2: int|
                #![trigger m.offset(i1, j1), m.offset(i2, j2)]
                m.valid_cell(i1, j1) && m.valid_cell(i2, j2) && m.offset(i1, j1) == m.offset(
                    i2,
                    j2,
                ) implies i1 == i2 && j1 == j2 by {
                lemma_strided_injective(cols as int, i1, j1, i2, j2);
            }
        }
        Some(m)
    }

    /// Builds a column-major matrix of shape `rows × cols` from a flat
    /// buffer of exactly `rows * cols` elements, column after column;
    /// `None` on a length mismatch.
    pub fn from_shape_vec_col(rows: usize, cols: usize, data: Vec<T>) -> (r: Option<Matrix<T>>)
        ensures
            r is Some <==> rows * cols == data@.len(),
            r matches Some(m) ==> {
                &&& m.wf()
                &&& m.rows == rows
                &&& m.cols == cols
                &&& m.row_stride == 1
                &&& m.col_stride == rows
                &&& m.data@ == data@
                &&& forall|i: int, j: int|
                    m.valid_cell(i, j) ==> #[trigger] m.entry(i, j) == data@[i + j * rows]
            },
    {
        let l: usize = data.len();
        let len_ok = match rows.checked_mul(cols) {
            Some(p) => p == l,
            None => false,
        };
        if !len_ok {
            return None;
        }
        let m = Matrix { data, rows, cols, row_stride: 1, col_stride: rows };
        proof {
            assert forall|i: int, j: int| m.valid_cell(i, j) implies 0 <= #[trigger] m.offset(i, j)
                < m.data@.len() by {
                lemma_contiguous_bound(j, i, cols as int, rows as int);
                assert(m.offset(i, j) == j * rows + i);
                assert(cols * rows == rows * cols) by (nonlinear_arith);
            }
            assert forall|i1: int, j1: int, i2: int, j2: int|
                #![trigger m.offset(i1, j1), m.offset(i2, j2)]
                m.valid_cell(i1, j1) && m.valid_cell(i2, j2) && m.offset(i1, j1) == m.offset(
                    i2,
                    j2,
                ) implies i1 == i2 && j1 == j2 by {
                assert(m.offset(i1, j1) == j1 * rows + i1);
                assert(m.offset(i2, j2) == j2 * rows + i2);
                lemma_strided_injective(rows as int, j1, i1, j2, i2);
            }
        }
        Some(m)
    }

    /// Builds a strided view of `data`, such as a rectangular sub-view of a
    /// larger buffer. `None` when the stride shape is unsupported or the
    /// last element would fall outside the buffer.
    pub fn from_strides(
        rows: usize,
        cols: usize,
        row_stride: usize,
        col_stride: usize,
        data: Vec<T>,
    ) -> (r: Option<Matrix<T>>)
        ensures
            r is Some <==> Self::strides_supported(rows, cols, row_stride, col_stride)
                && Self::strides_in_bounds(rows, cols, row_stride, col_stride, data@.len() as int),
            r matches Some(m) ==> {
                &&& m.wf()
                &&& m.rows == rows
                &&& m.cols == cols
                &&& m.row_stride == row_stride
                &&& m.col_stride == col_stride
                &&& m.data@ == data@
            },
    {
        let l: usize = data.len();
        let row_shape = col_stride == 1 && row_stride >= cols;
        let col_shape = row_stride == 1 && col_stride >= rows;
        if !(row_shape || col_shape) {
            return None;
        }
        if rows == 0 || cols == 0 {
            return Some(Matrix { data, rows, cols, row_stride, col_stride });
        }
        let ri = match (rows - 1).checked_mul(row_stride) {
            Some(v) => v,
            None => {
                proof {
                    lemma_mul_nonneg(cols as int - 1, col_stride as int);
                }
                return None;
            },
        };
        let ci = match (cols - 1).checked_mul(col_stride) {
            Some(v) => v,
            None => {
                proof {
                    lemma_mul_nonneg(rows as int - 1, row_stride as int);
                }
                return None;
            },
        };
        let last = match ri.checked_add(ci) {
            Some(v) => v,
            None => {
                return None;
            },
        };
        if last >= l {
            return None;
        }
        let m = Matrix { data, rows, cols, row_stride, col_stride };
        proof {
            assert forall|i: int, j: int| m.valid_cell(i, j) implies 0 <= #[trigger] m.offset(i, j)
                < m.data@.len() by {
                lemma_mul_nonneg(i, row_stride as int);
                lemma_mul_nonneg(j, col_stride as int);
                lemma_mul_mono(i, rows as int - 1, row_stride as int);
                lemma_mul_mono(j, cols as int - 1, col_stride as int);
            }
            assert forall|i1: int, j1: int, i2: int, j2: int|
                #![trigger m.offset(i1, j1), m.offset(i2, j2)]
                m.valid_cell(i1, j1) && m.valid_cell(i2, j2) && m.offset(i1, j1) == m.offset(
                    i2,
                    j2,
                ) implies i1 == i2 && j1 == j2 by {
                if row_shape {
                    lemma_mul_one(j1, col_stride as int);
                    lemma_mul_one(j2, col_stride as int);
                    lemma_strided_injective(row_stride as int, i1, j1, i2, j2);
                } else {
                    lemma_mul_one(i1, row_stride as int);
                    lemma_mul_one(i2, row_stride as int);
                    assert(m.offset(i1, j1) == j1 * col_stride + i1);
                    assert(m.offset(i2, j2) == j2 * col_stride + i2);
                    lemma_strided_injective(col_stride as int, j1, i1, j2, i2);
                }
            }
        }
        Some(m)
    }

    /// Resolves the memory layout; `InvalidLayout` when the strides match
    /// neither contiguous arrangement.
    pub fn layout(&self) -> (r: Result<Layout, LinalgError>)
        ensures
            self.layout_of() matches Some(l) ==> r == Ok::<Layout, LinalgError>(l),
            self.layout_of() is None ==> r == Err::<Layout, LinalgError>(
                LinalgError::InvalidLayout,
            ),
    {
        if self.row_stride == self.cols && self.col_stride == 1 {
            Ok(Layout::RowMajor)
        } else if self.col_stride == self.rows && self.row_stride == 1 {
            Ok(Layout::ColumnMajor)
        } else {
            Err(LinalgError::InvalidLayout)
        }
    }

    /// Writes `v` to row `i`, column `j`, leaving every other element and
    /// the whole addressing shape unchanged.
    pub fn set(&mut self, i: usize, j: usize, v: T)
        requires
            old(self).wf(),
            i < old(self).rows,
            j < old(self).cols,
        ensures
            final(self).wf(),
            final(self).rows == old(self).rows,
            final(self).cols == old(self).cols,
            final(self).row_stride == old(self).row_stride,
            final(self).col_stride == old(self).col_stride,
            final(self).data@.len() == old(self).data@.len(),
            final(self)@[i as int][j as int] == v,
            forall|r: int, c: int|
                old(self).valid_cell(r, c) && !(r == i as int && c == j as int)
                    ==> #[trigger] final(self)@[r][c] == old(self)@[r][c],
    {
        // a Vec's length fits in a machine word, bounding every element position
        let _buf_len: usize = self.data.len();
        proof {
            assert(self.valid_cell(i as int, j as int));
            assert(0 <= self.offset(i as int, j as int) < self.data@.len());
            lemma_mul_nonneg(i as int, self.row_stride as int);
            lemma_mul_nonneg(j as int, self.col_stride as int);
        }
        let off = i * self.row_stride + j * self.col_stride;
        self.data[off] = v;
        proof {
            let m0 = *old(self);
            let m1 = *self;
            assert forall|i2: int, j2: int| m1.valid_cell(i2, j2) implies 0 <= #[trigger] m1.offset(
                i2,
                j2,
            ) < m1.data@.len() by {
                assert(m1.offset(i2, j2) == m0.offset(i2, j2));
            }
            assert forall|i1: int, j1: int, i2: int, j2: int|
                #![trigger m1.offset(i1, j1), m1.offset(i2, j2)]
                m1.valid_cell(i1, j1) && m1.valid_cell(i2, j2) && m1.offset(i1, j1) == m1.offset(
                    i2,
                    j2,
                ) implies i1 == i2 && j1 == j2 by {
                assert(m1.offset(i1, j1) == m0.offset(i1, j1));
                assert(m1.offset(i2, j2) == m0.offset(i2, j2));
            }
            assert(m1.wf());
            assert(m1.entry(i as int, j as int) == v);
            assert(m1@[i as int][j as int] == v);
            assert forall|r: int, c: int|
                m0.valid_cell(r, c) && !(r == i as int && c == j as int) implies m1@[r][c]
                == m0@[r][c] by {
                assert(m1.offset(r, c) == m0.offset(r, c));
                if m0.offset(r, c) == m0.offset(i as int, j as int) {
                    assert(r == i as int && c == j as int);
                }
                assert(m1.entry(r, c) == m0.entry(r, c));
            }
        }
    }
}

impl<T: Copy> Matrix<T> {
    /// Reads the element at row `i`, column `j`.
    pub fn get(&self, i: usize, j: usize) -> (r: T)
        requires
            self.wf(),
            i < self.rows,
            j < self.cols,
        ensures
            r == self@[i as int][j as int],
    {
        // a Vec's length fits in a machine word, bounding every element position
        let _buf_len: usize = self.data.len();
        proof {
            assert(self.valid_cell(i as int, j as int));
            assert(0 <= self.offset(i as int, j as int) < self.data@.len());
            lemma_mul_nonneg(i as int, self.row_stride as int);
            lemma_mul_nonneg(j as int, self.col_stride as int);
        }
        let off = i * self.row_stride + j * self.col_stride;
        self.data[off]
    }

    /// A flat copy of the elements in memory order, as the native solver
    /// reads them: the first `rows * cols` buffer positions, which under a
    /// classified layout hold exactly the matrix's elements.
    pub fn to_flat(&self) -> (r: Vec<T>)
        requires
            self.wf(),
            self.layout_of() is Some,
        ensures
            r@.len() == self.rows * self.cols,
            self.layout_of() == Some(Layout::RowMajor) ==> forall|i: int, j: int|
                self.valid_cell(i, j) ==> r@[i * self.cols + j] == #[trigger] self@[i][j],
            self.layout_of() == Some(Layout::ColumnMajor) ==> forall|i: int, j: int|
                self.valid_cell(i, j) ==> r@[i + j * self.rows] == #[trigger] self@[i][j],
    {
        // a Vec's length fits in a machine word, bounding every element position
        let _buf_len: usize = self.data.len();
        proof {
            if self.rows > 0 && self.cols > 0 {
                assert(self.valid_cell(self.rows - 1, self.cols - 1));
                assert(0 <= self.offset(self.rows - 1, self.cols - 1) < self.data@.len());
                if self.row_stride == self.cols && self.col_stride == 1 {
                    lemma_last_contiguous(self.rows as int, self.cols as int);
                } else {
                    lemma_last_contiguous(self.cols as int, self.rows as int);
                    assert(self.offset(self.rows - 1, self.cols - 1) == (self.cols - 1)
                        * self.rows + (self.rows - 1));
                    assert(self.cols * self.rows == self.rows * self.cols) by (nonlinear_arith);
                }
                assert(self.rows * self.cols <= self.data@.len());
            } else {
                assert(self.rows * self.cols == 0) by (nonlinear_arith)
                    requires
                        self.rows == 0 || self.cols == 0,
                ;
            }
        }
        let n = self.rows * self.cols;
        let mut out: Vec<T> = Vec::new();
        let mut k: usize = 0;
        while k < n
            invariant
                k <= n,
                n == self.rows * self.cols,
                n <= self.data@.len(),
                out@.len() == k,
                forall|t: int| 0 <= t < k ==> out@[t] == self.data@[t],
            decreases n - k,
        {
            let x = self.data[k];
            out.push(x);
            k = k + 1;
        }
        proof {
            if self.row_stride == self.cols && self.col_stride == 1 {
                assert forall|i: int, j: int| self.valid_cell(i, j) implies out@[i * self.cols + j]
                    == #[trigger] self@[i][j] by {
                    lemma_contiguous_bound(i, j, self.rows as int, self.cols as int);
                    assert(self.offset(i, j) == i * self.cols + j);
                }
            } else {
                assert forall|i: int, j: int| self.valid_cell(i, j) implies out@[i + j * self.rows]
                    == #[trigger] self@[i][j] by {
                    lemma_contiguous_bound(j, i, self.cols as int, self.rows as int);
                    assert(self.offset(i, j) == j * self.rows + i);
                    assert(self.cols * self.rows == self.rows * self.cols) by (nonlinear_arith);
                }
            }
        }
        out
    }
}

} // verus!
