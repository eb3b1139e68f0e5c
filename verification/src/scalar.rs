use vstd::prelude::*;

verus! {

/// The numbers that matrices hold and networks compute with.
///
/// Each operation has a mathematical model (the `*_spec` function) and an
/// executable method that returns exactly what the model says. The engine is
/// verified against the models alone: what it proves holds for an implementor
/// whose methods return what its own models say, and nothing here checks
/// that of an implementor outside this crate. No law of arithmetic is taken
/// for granted; the laws that a theorem needs are among its hypotheses.
pub trait Scalar: Copy {
    /// The additive identity.
    spec fn zero_spec() -> Self;

    /// The multiplicative identity.
    spec fn one_spec() -> Self;

    /// The factor by which a learning rate is scaled when a network is built.
    spec fn hundredth_spec() -> Self;

    /// Sum.
    spec fn add_spec(self, other: Self) -> Self;

    /// Difference.
    spec fn sub_spec(self, other: Self) -> Self;

    /// Product.
    spec fn mul_spec(self, other: Self) -> Self;

    /// The logistic function, `1 / (1 + e^-x)`.
    spec fn sigmoid_spec(self) -> Self;

    /// Strictly greater.
    spec fn gt_spec(self, other: Self) -> bool;

    fn zero() -> (r: Self)
        ensures
            r == Self::zero_spec(),
    ;

    fn one() -> (r: Self)
        ensures
            r == Self::one_spec(),
    ;

    fn hundredth() -> (r: Self)
        ensures
            r == Self::hundredth_spec(),
    ;

    fn plus(self, other: Self) -> (r: Self)
        ensures
            r == self.add_spec(other),
    ;

    fn minus(self, other: Self) -> (r: Self)
        ensures
            r == self.sub_spec(other),
    ;

    fn times(self, other: Self) -> (r: Self)
        ensures
            r == self.mul_spec(other),
    ;

    fn sigmoid(self) -> (r: Self)
        ensures
            r == self.sigmoid_spec(),
    ;

    fn exceeds(self, other: Self) -> (r: bool)
        ensures
            r == self.gt_spec(other),
    ;

    /// A fresh sample, meant to be uniform in `[-1, 1)`. Two calls may
    /// differ; each gives a value that is not below zero minus one and is
    /// below one.
    fn draw() -> (r: Self)
        ensures
            !Self::zero_spec().sub_spec(Self::one_spec()).gt_spec(r),
            Self::one_spec().gt_spec(r),
    ;
}

/// `x` lies where samples are drawn from: it is not below zero minus one and is
/// below one.
pub open spec fn within_unit<T: Scalar>(x: T) -> bool {
    &&& !T::zero_spec().sub_spec(T::one_spec()).gt_spec(x)
    &&& T::one_spec().gt_spec(x)
}

} // verus!
