use vstd::prelude::*;

verus! {

/// The numeric capability a matrix element must offer to this layer: an
/// additive identity (for masking) and a sum (for the trace). Each
/// executable operation is pinned to its own mathematical counterpart, so
/// contracts over matrices of any scalar stay exact.
pub trait Scalar: Sized + Copy {
    /// The additive identity, as a mathematical value.
    spec fn zero_spec() -> Self;

    /// The sum of two scalars, as a mathematical value.
    spec fn add_spec(a: Self, b: Self) -> Self;

    /// Returns the additive identity.
    fn zero() -> (z: Self)
        ensures
            z == Self::zero_spec(),
    ;

    /// Returns the sum of `a` and `b`.
    fn add(a: Self, b: Self) -> (r: Self)
        ensures
            r == Self::add_spec(a, b),
    ;
}

/// Machine integers are scalars; their sum wraps around on overflow.
impl Scalar for u64 {
    open spec fn zero_spec() -> u64 {
        0
    }

    open spec fn add_spec(a: u64, b: u64) -> u64 {
        if a + b <= u64::MAX {
            (a + b) as u64
        } else {
            (a + b - 0x1_0000_0000_0000_0000) as u64
        }
    }

    fn zero() -> u64 {
        0
    }

    fn add(a: u64, b: u64) -> u64 {
        if b <= u64::MAX - a {
            a + b
        } else {
            a - (u64::MAX - b) - 1
        }
    }
}

} // verus!
