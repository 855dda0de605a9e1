use vstd::prelude::*;

verus! {

/// The closed set of failure kinds of this layer. A raw native error code is
/// never handed to the caller directly: it is wrapped in `SolverFailure`.
#[derive(Clone, Copy, Debug, PartialEq, Eq, Structural)]
pub enum LinalgError {
    /// The matrix is not square; carries the observed dimensions.
    NotSquare { rows: usize, cols: usize },
    /// The storage is neither contiguous row-major nor contiguous
    /// column-major, so no layout tag may be assumed.
    InvalidLayout,
    /// The native solver reported a non-success status; carries its
    /// diagnostic code unchanged.
    SolverFailure { code: i32 },
}

impl LinalgError {
    /// Holds exactly of the `SolverFailure` kind.
    pub open spec fn is_solver_failure(self) -> bool {
        match self {
            LinalgError::SolverFailure { .. } => true,
            _ => false,
        }
    }
}

} // verus!
