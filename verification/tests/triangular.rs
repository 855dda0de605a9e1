use linalg::error::LinalgError;
use linalg::layout::Layout;
use linalg::matrix::Matrix;
use linalg::scalar::Scalar;
use linalg::solve::{ImplSolve, Uplo};
use linalg::triangular::{drop_lower, drop_upper, TriangularMatrix};

#[derive(Clone, Copy, Debug, PartialEq)]
struct F64(f64);

impl Scalar for F64 {
    // the specification-level items are never called at runtime
    fn zero_spec() -> F64 {
        unreachable!()
    }

    fn add_spec(_: F64, _: F64) -> F64 {
        unreachable!()
    }

    fn zero() -> F64 {
        F64(0.0)
    }

    fn add(a: F64, b: F64) -> F64 {
        F64(a.0 + b.0)
    }
}

/// The native solver stand-in for the tests: nalgebra's dense triangular
/// solve, reading the flat buffer under the layout tag the library resolved.
impl ImplSolve for F64 {
    fn solve_triangle(
        layout: Layout,
        uplo: Uplo,
        n: usize,
        a: &Vec<F64>,
        b: Vec<F64>,
    ) -> Result<Vec<F64>, i32> {
        if b.len() != n {
            return Err(-7);
        }
        let flat: Vec<f64> = a.iter().map(|x| x.0).collect();
        let m = match layout {
            Layout::RowMajor => nalgebra::DMatrix::from_row_slice(n, n, &flat),
            Layout::ColumnMajor => nalgebra::DMatrix::from_column_slice(n, n, &flat),
        };
        let rhs = nalgebra::DVector::from_vec(b.iter().map(|x| x.0).collect());
        let x = match uplo {
            Uplo::Upper => m.solve_upper_triangular(&rhs),
            Uplo::Lower => m.solve_lower_triangular(&rhs),
        };
        match x {
            Some(v) => Ok(v.iter().map(|&t| F64(t)).collect()),
            None => Err(1),
        }
    }
}

fn mat(rows: usize, cols: usize, vals: &[f64]) -> Matrix<F64> {
    let elems: Vec<F64> = vals.iter().map(|&x| F64(x)).collect();
    Matrix::from_shape_vec(rows, cols, elems).unwrap()
}

fn vec_f(vals: &[f64]) -> Vec<F64> {
    vals.iter().map(|&x| F64(x)).collect()
}

#[test]
fn solve_lower_concrete() {
    // A = [[2,0,0],[1,3,0],[4,2,5]], b = [2,5,16]: forward substitution
    // gives x = [1, 4/3, 28/15], and A * x = b holds of it exactly
    let a = mat(3, 3, &[2., 0., 0., 1., 3., 0., 4., 2., 5.]);
    let b = vec_f(&[2., 5., 16.]);
    let x = a.solve_lower(b).unwrap();
    assert_eq!(x.len(), 3);
    let expected = [1., 4. / 3., 28. / 15.];
    for k in 0..3 {
        assert!((x[k].0 - expected[k]).abs() < 1e-7);
    }
    // verify A * x = b
    let avals = [[2., 0., 0.], [1., 3., 0.], [4., 2., 5.]];
    let bvals = [2., 5., 16.];
    for i in 0..3 {
        let mut s = 0.0;
        for j in 0..3 {
            s += avals[i][j] * x[j].0;
        }
        assert!((s - bvals[i]).abs() < 1e-7);
    }
}

#[test]
fn solve_upper_residual() {
    let avals = [[3., 1., 2.], [0., 2., 1.], [0., 0., 4.]];
    let a = mat(3, 3, &[3., 1., 2., 0., 2., 1., 0., 0., 4.]);
    let bvals = [6., 5., 8.];
    let x = a.solve_upper(vec_f(&bvals)).unwrap();
    for i in 0..3 {
        let mut s = 0.0;
        for j in 0..3 {
            s += avals[i][j] * x[j].0;
        }
        assert!((s - bvals[i]).abs() < 1e-7);
    }
}

#[test]
fn solve_lower_column_major() {
    // the same system as solve_lower_concrete, stored column after column
    let elems = vec_f(&[2., 1., 4., 0., 3., 2., 0., 0., 5.]);
    let a = Matrix::from_shape_vec_col(3, 3, elems).unwrap();
    assert_eq!(a.layout(), Ok(Layout::ColumnMajor));
    let x = a.solve_lower(vec_f(&[2., 5., 16.])).unwrap();
    let expected = [1., 4. / 3., 28. / 15.];
    for k in 0..3 {
        assert!((x[k].0 - expected[k]).abs() < 1e-7);
    }
}

#[test]
fn solve_not_square() {
    let a = mat(2, 3, &[1., 2., 3., 4., 5., 6.]);
    let e = a.solve_upper(vec_f(&[1., 2.])).unwrap_err();
    assert_eq!(e, LinalgError::NotSquare { rows: 2, cols: 3 });
    let e = a.solve_lower(vec_f(&[1., 2.])).unwrap_err();
    assert_eq!(e, LinalgError::NotSquare { rows: 2, cols: 3 });
}

#[test]
fn solve_invalid_layout() {
    // a 3x3 sub-view of a 3x4 buffer: row stride 4, so neither contiguous
    // arrangement matches and no layout tag may be assumed
    let buf: Vec<F64> = (0..12).map(|k| F64(k as f64)).collect();
    let a = Matrix::from_strides(3, 3, 4, 1, buf).unwrap();
    assert_eq!(a.layout(), Err(LinalgError::InvalidLayout));
    let e = a.solve_upper(vec_f(&[1., 2., 3.])).unwrap_err();
    assert_eq!(e, LinalgError::InvalidLayout);
    let buf: Vec<F64> = (0..12).map(|k| F64(k as f64)).collect();
    let a = Matrix::from_strides(3, 3, 4, 1, buf).unwrap();
    let e = a.solve_lower(vec_f(&[1., 2., 3.])).unwrap_err();
    assert_eq!(e, LinalgError::InvalidLayout);
}

#[test]
fn solve_singular_reports_solver_failure() {
    // zero on the diagonal: the native routine refuses the system
    let a = mat(2, 2, &[0., 0., 1., 1.]);
    let e = a.solve_lower(vec_f(&[1., 2.])).unwrap_err();
    assert_eq!(e, LinalgError::SolverFailure { code: 1 });
}

#[test]
fn drop_upper_zeroes_strict_upper() {
    let a = mat(3, 3, &[1., 2., 3., 4., 5., 6., 7., 8., 9.]);
    let r = drop_upper(a);
    let expected = [[1., 0., 0.], [4., 5., 0.], [7., 8., 9.]];
    for i in 0..3 {
        for j in 0..3 {
            assert_eq!(r.get(i, j), F64(expected[i][j]));
        }
    }
}

#[test]
fn drop_lower_zeroes_strict_lower() {
    let a = mat(2, 3, &[1., 2., 3., 4., 5., 6.]);
    let r = drop_lower(a);
    let expected = [[1., 2., 3.], [0., 5., 6.]];
    for i in 0..2 {
        for j in 0..3 {
            assert_eq!(r.get(i, j), F64(expected[i][j]));
        }
    }
}

#[test]
fn drop_upper_idempotent_scenario() {
    let vals = [3., -1., 2., 7., 0.5, -4., 9., 8., 2.5];
    let once = drop_upper(mat(3, 3, &vals));
    let twice = drop_upper(mat(3, 3, &vals));
    let twice = drop_upper(twice);
    for i in 0..3 {
        for j in 0..3 {
            assert_eq!(once.get(i, j), twice.get(i, j));
        }
    }
}

#[test]
fn drop_both_keeps_only_diagonal() {
    let vals = [1., 2., 3., 4., 5., 6., 7., 8., 9.];
    let r = drop_lower(drop_upper(mat(3, 3, &vals)));
    let expected = [[1., 0., 0.], [0., 5., 0.], [0., 0., 9.]];
    for i in 0..3 {
        for j in 0..3 {
            assert_eq!(r.get(i, j), F64(expected[i][j]));
        }
    }
}

#[test]
fn drop_both_on_zero_diagonal_gives_zero() {
    let vals = [0., 2., 3., 4., 0., 6., 7., 8., 0.];
    let r = drop_lower(drop_upper(mat(3, 3, &vals)));
    for i in 0..3 {
        for j in 0..3 {
            assert_eq!(r.get(i, j), F64(0.0));
        }
    }
}

#[test]
fn from_shape_vec_length_mismatch() {
    let elems = vec_f(&[1., 2., 3.]);
    assert!(Matrix::from_shape_vec(2, 2, elems).is_none());
}

#[test]
fn from_strides_bounds() {
    // last element sits at position 2*4 + 2*1 = 10
    let buf: Vec<F64> = (0..11).map(|k| F64(k as f64)).collect();
    assert!(Matrix::from_strides(3, 3, 4, 1, buf).is_some());
    let buf: Vec<F64> = (0..10).map(|k| F64(k as f64)).collect();
    assert!(Matrix::from_strides(3, 3, 4, 1, buf).is_none());
    // neither stride is a unit step
    let buf: Vec<F64> = (0..20).map(|k| F64(k as f64)).collect();
    assert!(Matrix::from_strides(2, 2, 4, 2, buf).is_none());
}

#[test]
fn check_square_reports_dimensions() {
    let a = mat(2, 3, &[1., 2., 3., 4., 5., 6.]);
    assert_eq!(a.check_square(), Err(LinalgError::NotSquare { rows: 2, cols: 3 }));
    assert_eq!(a.size(), (2, 3));
    let b = mat(2, 2, &[1., 2., 3., 4.]);
    assert_eq!(b.check_square(), Ok(()));
}
