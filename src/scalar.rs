use vstd::prelude::*;

verus! {

/// The sign of a value, as the solver needs it: a position that is exactly zero
/// (or not comparable with zero) is `Zero`.
#[derive(Clone, Copy, Debug, PartialEq, Eq, Structural)]
pub enum Sign {
    Negative,
    Zero,
    Positive,
}

/// The arithmetic that the integration loop performs on positions, momenta,
/// weights and coefficients. A caller implements it for its number type.
///
/// Each operation is named by a spec function and is a function of its
/// arguments alone: the same arguments give the same result. Nothing else is
/// assumed of what an implementation computes.
pub trait Real: Copy + Sized {
    spec fn spec_zero() -> Self;

    spec fn spec_from_ratio(num: u64, den: u64) -> Self;

    spec fn spec_plus(self, other: Self) -> Self;

    spec fn spec_minus(self, other: Self) -> Self;

    spec fn spec_times(self, other: Self) -> Self;

    spec fn spec_divided_by(self, other: Self) -> Self;

    spec fn spec_square_root(self) -> Self;

    spec fn spec_sign(self) -> Sign;

    /// The additive identity.
    fn zero() -> (r: Self)
        ensures
            r == Self::spec_zero(),
    ;

    /// The fraction `num / den`.
    fn from_ratio(num: u64, den: u64) -> (r: Self)
        requires
            den > 0,
        ensures
            r == Self::spec_from_ratio(num, den),
    ;

    fn plus(self, other: Self) -> (r: Self)
        ensures
            r == self.spec_plus(other),
    ;

    fn minus(self, other: Self) -> (r: Self)
        ensures
            r == self.spec_minus(other),
    ;

    fn times(self, other: Self) -> (r: Self)
        ensures
            r == self.spec_times(other),
    ;

    fn divided_by(self, other: Self) -> (r: Self)
        ensures
            r == self.spec_divided_by(other),
    ;

    fn square_root(self) -> (r: Self)
        ensures
            r == self.spec_square_root(),
    ;

    /// Where the value stands with respect to zero.
    fn sign(self) -> (r: Sign)
        ensures
            r == self.spec_sign(),
    ;
}

} // verus!
