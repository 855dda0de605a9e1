use vstd::prelude::*;

use crate::layout::Layout;

verus! {

/// The triangular selector handed to the native solver: which triangle of
/// the coefficient matrix carries the system. Two distinct entry points
/// (rather than one function taking a raw flag) keep a caller from passing
/// an invalid selector value; this enum is how the choice travels to the
/// native binding.
#[derive(Clone, Copy, Debug, PartialEq, Eq, Structural)]
pub enum Uplo {
    /// Read only the triangle on and above the diagonal.
    Upper,
    /// Read only the triangle on and below the diagonal.
    Lower,
}

/// The binding to the native triangular-solve primitive: back or forward
/// substitution over the flat coefficient buffer `a` (read under `layout`)
/// against the right-hand side `b`, reporting any failure — for instance a
/// zero on the diagonal — as a raw diagnostic code. The kernel is an
/// outside routine chosen per scalar type and is not verified; nothing is
/// assumed of what it returns, and the dispatch layer states what holds of
/// every outcome.
pub trait ImplSolve: Sized {
    /// Solves the `n × n` triangular system `a · x = b`.
    fn solve_triangle(layout: Layout, uplo: Uplo, n: usize, a: &Vec<Self>, b: Vec<Self>) -> Result<
        Vec<Self>,
        i32,
    >;
}

} // verus!
