//! The abstract scalar field the numerical algorithms are written against.

use vstd::prelude::*;

verus! {

/// The arithmetic a scalar type must offer to drive the integrators and the
/// root solver.
///
/// Each executable operation is tied to a specification hook the
/// implementation provides (`spec_add` and so on): the library claims
/// nothing about what the hooks mean, but every contract downstream states
/// the exact expression a result is, over the hooks. A caller instantiates
/// the trait for its number type — typically a wrapper around a hardware
/// floating-point type — and inherits those guarantees for it.
pub trait Scalar: Sized + Copy {
    /// The value `zero` returns.
    open spec fn spec_zero() -> Self {
        arbitrary()
    }

    /// The value `one` returns.
    open spec fn spec_one() -> Self {
        arbitrary()
    }

    /// The value `from_usize` returns.
    open spec fn spec_from_usize(n: usize) -> Self {
        arbitrary()
    }

    /// The value `add` returns.
    open spec fn spec_add(self, other: Self) -> Self {
        arbitrary()
    }

    /// The value `sub` returns.
    open spec fn spec_sub(self, other: Self) -> Self {
        arbitrary()
    }

    /// The value `mul` returns.
    open spec fn spec_mul(self, other: Self) -> Self {
        arbitrary()
    }

    /// The value `div` returns.
    open spec fn spec_div(self, other: Self) -> Self {
        arbitrary()
    }

    /// The value `abs` returns.
    open spec fn spec_abs(self) -> Self {
        arbitrary()
    }

    /// The value `sqrt` returns.
    open spec fn spec_sqrt(self) -> Self {
        arbitrary()
    }

    /// The value `lt` returns.
    open spec fn spec_lt(self, other: Self) -> bool {
        arbitrary()
    }

    /// The additive identity.
    fn zero() -> (r: Self)
        ensures
            r == Self::spec_zero(),
    ;

    /// The multiplicative identity.
    fn one() -> (r: Self)
        ensures
            r == Self::spec_one(),
    ;

    /// The scalar standing for the count `n`.
    fn from_usize(n: usize) -> (r: Self)
        ensures
            r == Self::spec_from_usize(n),
    ;

    fn add(self, other: Self) -> (r: Self)
        ensures
            r == self.spec_add(other),
    ;

    fn sub(self, other: Self) -> (r: Self)
        ensures
            r == self.spec_sub(other),
    ;

    fn mul(self, other: Self) -> (r: Self)
        ensures
            r == self.spec_mul(other),
    ;

    fn div(self, other: Self) -> (r: Self)
        ensures
            r == self.spec_div(other),
    ;

    /// The absolute value, used for pivot selection and degeneracy guards.
    fn abs(self) -> (r: Self)
        ensures
            r == self.spec_abs(),
    ;

    /// The square root, used for Euclidean norms.
    fn sqrt(self) -> (r: Self)
        ensures
            r == self.spec_sqrt(),
    ;

    /// Strict order test: whether `self` is below `other`.
    fn lt(self, other: Self) -> (r: bool)
        ensures
            r == self.spec_lt(other),
    ;
}

} // verus!
