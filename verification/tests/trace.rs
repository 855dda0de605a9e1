use linalg::matrix::Matrix;
use linalg::scalar::Scalar;

#[derive(Clone, Copy, Debug, PartialEq)]
struct F64(f64);

impl Scalar for F64 {
    // the specification-level items are never called at runtime
    fn zero_spec() -> F64 {
        unreachable!()
    }

    fn add_spec(_: F64, _: F64) -> F64 {
        unreachable!()
    }

    fn zero() -> F64 {
        F64(0.0)
    }

    fn add(a: F64, b: F64) -> F64 {
        F64(a.0 + b.0)
    }
}

#[test]
fn trace() {
    let mut vals: Vec<f64> = Vec::new();
    for _ in 0..9 {
        vals.push(rand::random::<f64>() * 2.0 - 1.0);
    }
    let elems: Vec<F64> = vals.iter().map(|&x| F64(x)).collect();
    let a = Matrix::from_shape_vec(3, 3, elems).unwrap();
    let t = a.trace().unwrap();
    let expected = vals[0] + vals[4] + vals[8];
    assert!((t.0 - expected).abs() < 1e-7);
}

#[test]
fn trace_not_square() {
    let elems: Vec<F64> = (0..6).map(|k| F64(k as f64)).collect();
    let a = Matrix::from_shape_vec(2, 3, elems).unwrap();
    assert!(a.trace().is_err());
}
