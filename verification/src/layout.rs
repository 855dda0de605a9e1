use vstd::prelude::*;

verus! {

/// The two admissible memory arrangements of a dense 2-D container.
/// A matrix whose strides match neither is unclassifiable, and solving
/// must fail rather than guess: assuming the wrong layout transposes the
/// system and yields a plausible-looking wrong answer.
#[derive(Clone, Copy, Debug, PartialEq, Eq, Structural)]
pub enum Layout {
    /// The elements of each row are contiguous.
    RowMajor,
    /// The elements of each column are contiguous.
    ColumnMajor,
}

} // verus!
