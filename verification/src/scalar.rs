//! The arithmetic that the estimator asks of a scalar.

use vstd::prelude::*;

verus! {

/// A scalar the estimator can compute with.
///
/// Every operation is total and deterministic: its result is the value of the
/// matching spec function, so that a whole recursion built from these
/// operations has one well-defined result.  Nothing is asked of the operations
/// beyond that (rounding arithmetic qualifies as well as exact arithmetic);
/// the algebraic identities that exact arithmetic adds are collected in
/// [`crate::exact::exact_arithmetic`].
///
/// The spec functions mean what an implementation says they mean.  Their
/// bodies here say nothing: they stand in for implementations that give
/// none.
pub trait Scalar: Copy {
    /// The scalar that stands for the integer `n`.
    closed spec fn from_int_spec(n: int) -> Self {
        arbitrary()
    }

    /// The sum of two scalars.
    closed spec fn add_spec(self, rhs: Self) -> Self {
        arbitrary()
    }

    /// The difference of two scalars.
    closed spec fn sub_spec(self, rhs: Self) -> Self {
        arbitrary()
    }

    /// The product of two scalars.
    closed spec fn mul_spec(self, rhs: Self) -> Self {
        arbitrary()
    }

    /// The reciprocal of a scalar.
    closed spec fn recip_spec(self) -> Self {
        arbitrary()
    }

    /// Whether a scalar is too small to serve as a pivot of an elimination.
    closed spec fn negligible_spec(self) -> bool {
        arbitrary()
    }

    fn from_int(n: i32) -> (r: Self)
        ensures
            r == Self::from_int_spec(n as int),
    ;

    fn plus(&self, rhs: &Self) -> (r: Self)
        ensures
            r == self.add_spec(*rhs),
    ;

    fn minus(&self, rhs: &Self) -> (r: Self)
        ensures
            r == self.sub_spec(*rhs),
    ;

    fn times(&self, rhs: &Self) -> (r: Self)
        ensures
            r == self.mul_spec(*rhs),
    ;

    fn recip(&self) -> (r: Self)
        ensures
            r == self.recip_spec(),
    ;

    fn is_negligible(&self) -> (b: bool)
        ensures
            b == self.negligible_spec(),
    ;
}

/// The scalar zero.
pub open spec fn zero<T: Scalar>() -> T {
    T::from_int_spec(0)
}

/// The scalar one.
pub open spec fn one<T: Scalar>() -> T {
    T::from_int_spec(1)
}

} // verus!
