//! The scalars of the fraction wheel: a ring of integers that the machine
//! holds, and what it must be able to do.

use crate::number::{
    euclid, gcd, lemma_exact_quotient_between, lemma_gcd_divides, magnitude, trunc_div, trunc_rem,
};
use crate::ratio::Ratio;
use vstd::arithmetic::div_mod::*;
use vstd::prelude::*;

verus! {

/// What a scalar type must offer to carry a fraction wheel: the integers of
/// some interval around zero, with the arithmetic, the order and the
/// remainder that the Euclidean algorithm needs.
///
/// Every operation states the integer it computes. One whose result would
/// leave the interval is not to be called: the caller shows that it fits.
pub trait Ring: Copy {
    /// The integer that the scalar stands for.
    spec fn as_int(self) -> int;

    /// The least integer that the type holds.
    spec fn min_int() -> int;

    /// The greatest integer that the type holds.
    spec fn max_int() -> int;

    /// Every scalar stands for an integer that the type holds.
    proof fn lemma_range(self)
        ensures
            Self::min_int() <= self.as_int() <= Self::max_int(),
    ;

    /// A scalar is determined by the integer it stands for.
    proof fn lemma_as_int_injective(self, other: Self)
        requires
            self.as_int() == other.as_int(),
        ensures
            self == other,
    ;

    /// The additive identity.
    fn zero() -> (r: Self)
        ensures
            r.as_int() == 0,
    ;

    /// The multiplicative identity.
    fn one() -> (r: Self)
        ensures
            r.as_int() == 1,
    ;

    /// The sum of two scalars.
    fn plus(self, rhs: Self) -> (r: Self)
        requires
            Self::min_int() <= self.as_int() + rhs.as_int() <= Self::max_int(),
        ensures
            r.as_int() == self.as_int() + rhs.as_int(),
    ;

    /// The product of two scalars.
    fn times(self, rhs: Self) -> (r: Self)
        requires
            Self::min_int() <= self.as_int() * rhs.as_int() <= Self::max_int(),
        ensures
            r.as_int() == self.as_int() * rhs.as_int(),
    ;

    /// The scalar with its sign changed.
    fn negate(self) -> (r: Self)
        requires
            Self::min_int() <= -self.as_int() <= Self::max_int(),
        ensures
            r.as_int() == -self.as_int(),
    ;

    /// The quotient rounded towards zero.
    fn quotient(self, rhs: Self) -> (r: Self)
        requires
            rhs.as_int() != 0,
            Self::min_int() <= trunc_div(self.as_int(), rhs.as_int()) <= Self::max_int(),
        ensures
            r.as_int() == trunc_div(self.as_int(), rhs.as_int()),
    ;

    /// The remainder of the division rounded towards zero.
    fn remainder(self, rhs: Self) -> (r: Self)
        requires
            rhs.as_int() != 0,
            Self::min_int() <= trunc_div(self.as_int(), rhs.as_int()) <= Self::max_int(),
        ensures
            r.as_int() == trunc_rem(self.as_int(), rhs.as_int()),
    ;

    /// Whether `self` is strictly below `rhs`.
    fn less_than(self, rhs: Self) -> (r: bool)
        ensures
            r == (self.as_int() < rhs.as_int()),
    ;

    /// Whether the two scalars stand for the same integer.
    fn equals(self, rhs: Self) -> (r: bool)
        ensures
            r == (self.as_int() == rhs.as_int()),
    ;

    /// The magnitude of the scalar.
    fn abs(self) -> (r: Self)
        requires
            Self::min_int() <= magnitude(self.as_int()) <= Self::max_int(),
        ensures
            r.as_int() == magnitude(self.as_int()),
    {
        if self.less_than(Self::zero()) {
            self.negate()
        } else {
            self
        }
    }

    /// The greatest common divisor of the magnitudes of `a` and `b` by the
    /// Euclidean algorithm, and one when both are zero.
    fn gcd(a: Self, b: Self) -> (r: Self)
        requires
            Self::min_int() <= magnitude(a.as_int()) <= Self::max_int(),
            Self::min_int() <= magnitude(b.as_int()) <= Self::max_int(),
        ensures
            r.as_int() == gcd(a.as_int(), b.as_int()),
    {
        let zero = Self::zero();
        let ghost whole = euclid(magnitude(a.as_int()), magnitude(b.as_int()));
        let mut a = a.abs();
        let mut b = b.abs();
        while !b.equals(zero)
            invariant
                zero.as_int() == 0,
                a.as_int() >= 0,
                b.as_int() >= 0,
                euclid(a.as_int(), b.as_int()) == whole,
            decreases b.as_int(),
        {
            proof {
                a.lemma_range();
                zero.lemma_range();
                lemma_div_pos_is_pos(a.as_int(), b.as_int());
                lemma_div_nonincreasing(a.as_int(), b.as_int());
                lemma_mod_bound(a.as_int(), b.as_int());
            }
            let t = b;
            b = a.remainder(b);
            a = t;
        }
        if a.equals(zero) {
            Self::one()
        } else {
            a
        }
    }

    /// Whether two pairs stand for the same wheel value. The cross products
    /// are taken only of two genuine fractions, and must then fit.
    fn compare_pairs(a: (Self, Self), b: (Self, Self)) -> (r: bool)
        requires
            a.0.as_int() != 0 && a.1.as_int() != 0 && b.0.as_int() != 0 && b.1.as_int() != 0
                ==> Self::min_int() <= a.0.as_int() * b.1.as_int() <= Self::max_int(),
            a.0.as_int() != 0 && a.1.as_int() != 0 && b.0.as_int() != 0 && b.1.as_int() != 0
                ==> Self::min_int() <= a.1.as_int() * b.0.as_int() <= Self::max_int(),
        ensures
            r == (Ratio { num: a.0.as_int(), den: a.1.as_int() }).same_value(
                Ratio { num: b.0.as_int(), den: b.1.as_int() },
            ),
    {
        let zero = Self::zero();
        let a0_is_zero = a.0.equals(zero);
        let b0_is_zero = b.0.equals(zero);
        let a1_is_zero = a.1.equals(zero);
        let b1_is_zero = b.1.equals(zero);
        match (a0_is_zero, b0_is_zero, a1_is_zero, b1_is_zero) {
            (true, true, false, false) => true,
            (false, false, true, true) => true,
            (true, true, true, true) => true,
            (false, false, false, false) => a.0.times(b.1).equals(a.1.times(b.0)),
            _ => false,
        }
    }

    /// The pair in lowest terms, its signs unchanged. The greatest common
    /// divisor is taken only where neither component is zero, and the
    /// magnitudes of both must then fit.
    fn normalize_pair(pair: (Self, Self)) -> (r: (Self, Self))
        requires
            pair.0.as_int() != 0 && pair.1.as_int() != 0 ==> Self::min_int() <= magnitude(
                pair.0.as_int(),
            ) <= Self::max_int(),
            pair.0.as_int() != 0 && pair.1.as_int() != 0 ==> Self::min_int() <= magnitude(
                pair.1.as_int(),
            ) <= Self::max_int(),
        ensures
            (Ratio { num: r.0.as_int(), den: r.1.as_int() }) == (Ratio {
                num: pair.0.as_int(),
                den: pair.1.as_int(),
            }).reduced(),
    {
        let zero = Self::zero();
        let first_is_zero = pair.0.equals(zero);
        let second_is_zero = pair.1.equals(zero);
        match (first_is_zero, second_is_zero) {
            (true, true) => (Self::zero(), Self::zero()),
            (true, false) => (Self::zero(), Self::one()),
            (false, true) => (Self::one(), Self::zero()),
            (false, false) => {
                let g = Self::gcd(pair.0, pair.1);
                proof {
                    let n = pair.0.as_int();
                    let d = pair.1.as_int();
                    lemma_gcd_divides(n, d);
                    lemma_exact_quotient_between(n, g.as_int());
                    lemma_exact_quotient_between(d, g.as_int());
                    pair.0.lemma_range();
                    pair.1.lemma_range();
                    zero.lemma_range();
                }
                (pair.0.quotient(g), pair.1.quotient(g))
            },
        }
    }
}

/// Whether the scalar type `T` holds the integer `v`.
pub open spec fn holds<T: Ring>(v: int) -> bool {
    T::min_int() <= v <= T::max_int()
}

impl Ring for i8 {
    open spec fn as_int(self) -> int {
        self as int
    }

    open spec fn min_int() -> int {
        i8::MIN as int
    }

    open spec fn max_int() -> int {
        i8::MAX as int
    }

    proof fn lemma_range(self) {
    }

    proof fn lemma_as_int_injective(self, other: Self) {
    }

    fn zero() -> (r: Self) {
        0
    }

    fn one() -> (r: Self) {
        1
    }

    fn plus(self, rhs: Self) -> (r: Self) {
        self + rhs
    }

    fn times(self, rhs: Self) -> (r: Self) {
        self * rhs
    }

    fn negate(self) -> (r: Self) {
        -self
    }

    fn quotient(self, rhs: Self) -> (r: Self) {
        assert(rhs == -1 ==> trunc_div(self as int, rhs as int) == -(self as int));
        self / rhs
    }

    fn remainder(self, rhs: Self) -> (r: Self) {
        assert(rhs == -1 ==> trunc_div(self as int, rhs as int) == -(self as int));
        self % rhs
    }

    fn less_than(self, rhs: Self) -> (r: bool) {
        self < rhs
    }

    fn equals(self, rhs: Self) -> (r: bool) {
        self == rhs
    }
}

impl Ring for i16 {
    open spec fn as_int(self) -> int {
        self as int
    }

    open spec fn min_int() -> int {
        i16::MIN as int
    }

    open spec fn max_int() -> int {
        i16::MAX as int
    }

    proof fn lemma_range(self) {
    }

    proof fn lemma_as_int_injective(self, other: Self) {
    }

    fn zero() -> (r: Self) {
        0
    }

    fn one() -> (r: Self) {
        1
    }

    fn plus(self, rhs: Self) -> (r: Self) {
        self + rhs
    }

    fn times(self, rhs: Self) -> (r: Self) {
        self * rhs
    }

    fn negate(self) -> (r: Self) {
        -self
    }

    fn quotient(self, rhs: Self) -> (r: Self) {
        assert(rhs == -1 ==> trunc_div(self as int, rhs as int) == -(self as int));
        self / rhs
    }

    fn remainder(self, rhs: Self) -> (r: Self) {
        assert(rhs == -1 ==> trunc_div(self as int, rhs as int) == -(self as int));
        self % rhs
    }

    fn less_than(self, rhs: Self) -> (r: bool) {
        self < rhs
    }

    fn equals(self, rhs: Self) -> (r: bool) {
        self == rhs
    }
}

impl Ring for i32 {
    open spec fn as_int(self) -> int {
        self as int
    }

    open spec fn min_int() -> int {
        i32::MIN as int
    }

    open spec fn max_int() -> int {
        i32::MAX as int
    }

    proof fn lemma_range(self) {
    }

    proof fn lemma_as_int_injective(self, other: Self) {
    }

    fn zero() -> (r: Self) {
        0
    }

    fn one() -> (r: Self) {
        1
    }

    fn plus(self, rhs: Self) -> (r: Self) {
        self + rhs
    }

    fn times(self, rhs: Self) -> (r: Self) {
        self * rhs
    }

    fn negate(self) -> (r: Self) {
        -self
    }

    fn quotient(self, rhs: Self) -> (r: Self) {
        assert(rhs == -1 ==> trunc_div(self as int, rhs as int) == -(self as int));
        self / rhs
    }

    fn remainder(self, rhs: Self) -> (r: Self) {
        assert(rhs == -1 ==> trunc_div(self as int, rhs as int) == -(self as int));
        self % rhs
    }

    fn less_than(self, rhs: Self) -> (r: bool) {
        self < rhs
    }

    fn equals(self, rhs: Self) -> (r: bool) {
        self == rhs
    }
}

impl Ring for i64 {
    open spec fn as_int(self) -> int {
        self as int
    }

    open spec fn min_int() -> int {
        i64::MIN as int
    }

    open spec fn max_int() -> int {
        i64::MAX as int
    }

    proof fn lemma_range(self) {
    }

    proof fn lemma_as_int_injective(self, other: Self) {
    }

    fn zero() -> (r: Self) {
        0
    }

    fn one() -> (r: Self) {
        1
    }

    fn plus(self, rhs: Self) -> (r: Self) {
        self + rhs
    }

    fn times(self, rhs: Self) -> (r: Self) {
        self * rhs
    }

    fn negate(self) -> (r: Self) {
        -self
    }

    fn quotient(self, rhs: Self) -> (r: Self) {
        assert(rhs == -1 ==> trunc_div(self as int, rhs as int) == -(self as int));
        self / rhs
    }

    fn remainder(self, rhs: Self) -> (r: Self) {
        assert(rhs == -1 ==> trunc_div(self as int, rhs as int) == -(self as int));
        self % rhs
    }

    fn less_than(self, rhs: Self) -> (r: bool) {
        self < rhs
    }

    fn equals(self, rhs: Self) -> (r: bool) {
        self == rhs
    }
}

impl Ring for i128 {
    open spec fn as_int(self) -> int {
        self as int
    }

    open spec fn min_int() -> int {
        i128::MIN as int
    }

    open spec fn max_int() -> int {
        i128::MAX as int
    }

    proof fn lemma_range(self) {
    }

    proof fn lemma_as_int_injective(self, other: Self) {
    }

    fn zero() -> (r: Self) {
        0
    }

    fn one() -> (r: Self) {
        1
    }

    fn plus(self, rhs: Self) -> (r: Self) {
        self + rhs
    }

    fn times(self, rhs: Self) -> (r: Self) {
        self * rhs
    }

    fn negate(self) -> (r: Self) {
        -self
    }

    fn quotient(self, rhs: Self) -> (r: Self) {
        assert(rhs == -1 ==> trunc_div(self as int, rhs as int) == -(self as int));
        self / rhs
    }

    fn remainder(self, rhs: Self) -> (r: Self) {
        assert(rhs == -1 ==> trunc_div(self as int, rhs as int) == -(self as int));
        self % rhs
    }

    fn less_than(self, rhs: Self) -> (r: bool) {
        self < rhs
    }

    fn equals(self, rhs: Self) -> (r: bool) {
        self == rhs
    }
}

} // verus!
