//! The exact wheel: fractions over a ring of machine integers, kept in
//! canonical form.

use crate::number::{
    gcd, lemma_divides_quotient, lemma_exact_quotient_between, lemma_gcd_divides,
    lemma_gcd_with_one, magnitude,
};
use crate::ratio::{
    lemma_canonical_unique, lemma_normalize_canonical, lemma_normalize_in_steps, Ratio,
};
pub use crate::ring::{holds, Ring};
use crate::Wheel;
use core::ops::{Add, Div, Mul, Neg, Sub};
use vstd::prelude::*;
use vstd::std_specs::cmp::PartialEqSpecImpl;
use vstd::std_specs::convert::FromSpecImpl;
use vstd::std_specs::ops::{AddSpecImpl, DivSpecImpl, MulSpecImpl, NegSpecImpl, SubSpecImpl};

verus! {

/// Whether a pair of integers can be brought to canonical form in `T`: where
/// neither is zero, the magnitudes of both fit, and so does the negated
/// numerator where the denominator is negative.
pub open spec fn normalize_fits<T: Ring>(n: int, d: int) -> bool {
    (n != 0 && d != 0) ==> {
        &&& holds::<T>(magnitude(n))
        &&& holds::<T>(magnitude(d))
        &&& d < 0 ==> holds::<T>(-n)
    }
}

/// An element of the wheel of fractions over `T`: a numerator and a
/// denominator, always in canonical form.
#[derive(Debug)]
pub struct FractionWheel<T: Ring>(T, T);

impl<T: Ring> Clone for FractionWheel<T> {
    fn clone(&self) -> (r: Self)
        ensures
            r == *self,
    {
        *self
    }
}

impl<T: Ring> Copy for FractionWheel<T> {

}

impl<T: Ring> View for FractionWheel<T> {
    type V = Ratio;

    closed spec fn view(&self) -> Ratio {
        Ratio { num: self.0.as_int(), den: self.1.as_int() }
    }
}

impl<T: Ring> FractionWheel<T> {
    /// Every value of the type is the canonical pair of what it stands for.
    #[verifier::type_invariant]
    pub open spec fn canonical(&self) -> bool {
        self@.canonical()
    }

    /// The element that stands for `v`, where there is one.
    pub open spec fn standing_for(v: Ratio) -> Self {
        choose|w: Self| w@ == v
    }

    /// An element is determined by what it stands for.
    pub proof fn lemma_view_determines(self)
        ensures
            Self::standing_for(self@) == self,
    {
        let w = Self::standing_for(self@);
        assert(w@ == self@);
        w.0.lemma_as_int_injective(self.0);
        w.1.lemma_as_int_injective(self.1);
    }

    /// Whether the sum of `a` and `b` can be computed in `T`: the three cross
    /// products and their sum fit, and the result can be normalized.
    pub open spec fn add_fits(a: Ratio, b: Ratio) -> bool {
        let s = a.add_raw(b);
        &&& holds::<T>(a.num * b.den)
        &&& holds::<T>(a.den * b.num)
        &&& holds::<T>(s.num)
        &&& holds::<T>(s.den)
        &&& normalize_fits::<T>(s.num, s.den)
    }

    /// Whether the product of `a` and `b` can be computed in `T`: the two
    /// componentwise products fit, and the result can be normalized.
    pub open spec fn mul_fits(a: Ratio, b: Ratio) -> bool {
        let p = a.mul_raw(b);
        &&& holds::<T>(p.num)
        &&& holds::<T>(p.den)
        &&& normalize_fits::<T>(p.num, p.den)
    }

    /// Whether `a` can be negated in `T`: the negated numerator fits.
    pub open spec fn neg_fits(a: Ratio) -> bool {
        holds::<T>(-a.num)
    }

    /// Whether `a` can be inverted in `T`: the exchanged pair can be
    /// normalized.
    pub open spec fn inv_fits(a: Ratio) -> bool {
        normalize_fits::<T>(a.den, a.num)
    }

    /// Whether `a - b` can be computed in `T`, as `a + (-b)`.
    pub open spec fn sub_fits(a: Ratio, b: Ratio) -> bool {
        Self::neg_fits(b) && Self::add_fits(a, b.neg())
    }

    /// Whether `a / b` can be computed in `T`, as `a * /b`.
    pub open spec fn div_fits(a: Ratio, b: Ratio) -> bool {
        Self::inv_fits(b) && Self::mul_fits(a, b.inv())
    }

    /// The additive identity, `0/1`.
    pub fn zero() -> (r: Self)
        ensures
            r@ == Ratio::zero(),
    {
        FractionWheel(T::zero(), T::one())
    }

    /// The multiplicative identity, `1/1`.
    pub fn one() -> (r: Self)
        ensures
            r@ == Ratio::one(),
    {
        proof {
            lemma_gcd_with_one(1);
        }
        FractionWheel(T::one(), T::one())
    }

    /// Infinity, `1/0`. There is one infinity, without a sign.
    pub fn infinity() -> (r: Self)
        ensures
            r@ == Ratio::infinity(),
    {
        FractionWheel(T::one(), T::zero())
    }

    /// Bottom, `0/0`: the undefined value, which is a number all the same.
    pub fn bottom() -> (r: Self)
        ensures
            r@ == Ratio::bottom(),
    {
        FractionWheel(T::zero(), T::zero())
    }

    /// The wheel value of `numerator / denominator`, in canonical form.
    pub fn new(numerator: T, denominator: T) -> (r: Self)
        requires
            normalize_fits::<T>(numerator.as_int(), denominator.as_int()),
        ensures
            r@ == (Ratio { num: numerator.as_int(), den: denominator.as_int() }).normalize(),
    {
        Self::normalize(numerator, denominator)
    }

    /// Brings a pair to canonical form: lowest terms first, then the sign
    /// convention.
    pub fn normalize(numerator: T, denominator: T) -> (r: Self)
        requires
            normalize_fits::<T>(numerator.as_int(), denominator.as_int()),
        ensures
            r@ == (Ratio { num: numerator.as_int(), den: denominator.as_int() }).normalize(),
    {
        let ghost p = Ratio { num: numerator.as_int(), den: denominator.as_int() };
        let (n, d) = T::normalize_pair((numerator, denominator));
        let zero = T::zero();
        proof {
            lemma_normalize_in_steps(p);
            lemma_normalize_canonical(p);
            if p.num != 0 && p.den != 0 {
                let g = gcd(p.num, p.den);
                lemma_gcd_divides(p.num, p.den);
                lemma_exact_quotient_between(p.num, g);
                lemma_exact_quotient_between(p.den, g);
                lemma_divides_quotient(p.den, g);
                assert(d.as_int() < 0 ==> p.den < 0) by (nonlinear_arith)
                    requires
                        p.den == g * d.as_int(),
                        g >= 1,
                ;
            }
            numerator.lemma_range();
            denominator.lemma_range();
            zero.lemma_range();
        }
        if d.less_than(zero) {
            FractionWheel(n.negate(), d.negate())
        } else if d.equals(zero) && n.less_than(zero) {
            FractionWheel(T::one(), T::zero())
        } else {
            FractionWheel(n, d)
        }
    }

    /// Wheel addition, by cross-multiplication.
    pub fn add(&self, other: Self) -> (r: Self)
        requires
            Self::add_fits(self@, other@),
        ensures
            r@ == self@.add(other@),
    {
        let a = self.0.times(other.1);
        let b = self.1.times(other.0);
        let c = self.1.times(other.1);
        Self::normalize(a.plus(b), c)
    }

    /// Wheel negation.
    pub fn neg(&self) -> (r: Self)
        requires
            Self::neg_fits(self@),
        ensures
            r@ == self@.neg(),
    {
        proof {
            use_type_invariant(self);
            self.0.lemma_range();
            self.1.lemma_range();
        }
        Self::normalize(self.0.negate(), self.1)
    }

    /// Wheel subtraction, `self + (-other)`. `x - x` is not always zero.
    pub fn sub(&self, other: Self) -> (r: Self)
        requires
            Self::sub_fits(self@, other@),
        ensures
            r@ == self@.sub(other@),
    {
        self.add(other.neg())
    }

    /// Wheel multiplication, componentwise. `0 * x` is not always zero.
    pub fn mul(&self, other: Self) -> (r: Self)
        requires
            Self::mul_fits(self@, other@),
        ensures
            r@ == self@.mul(other@),
    {
        let a = self.0.times(other.0);
        let b = self.1.times(other.1);
        Self::normalize(a, b)
    }

    /// Wheel inversion: numerator and denominator exchanged. Always defined,
    /// and not the same as the multiplicative inverse.
    pub fn inv(&self) -> (r: Self)
        requires
            Self::inv_fits(self@),
        ensures
            r@ == self@.inv(),
    {
        Self::normalize(self.1, self.0)
    }

    /// Wheel division, `self * /other`. `x / x` is not always one.
    pub fn div(&self, other: Self) -> (r: Self)
        requires
            Self::div_fits(self@, other@),
        ensures
            r@ == self@.div(other@),
    {
        self.mul(other.inv())
    }

    /// Whether two wheel values are equal. Both are canonical, so they stand
    /// for the same value exactly when they are the same pair.
    pub fn eq(&self, other: Self) -> (r: bool)
        ensures
            r == (self@ == other@),
            r == self@.same_value(other@),
    {
        proof {
            use_type_invariant(self);
            use_type_invariant(&other);
            lemma_canonical_unique(self@, other@);
        }
        self.0.equals(other.0) && self.1.equals(other.1)
    }
}

impl<T: Ring> PartialEq for FractionWheel<T> {
    fn eq(&self, other: &Self) -> (r: bool) {
        FractionWheel::eq(self, *other)
    }
}

impl<T: Ring> PartialEqSpecImpl for FractionWheel<T> {
    open spec fn obeys_eq_spec() -> bool {
        true
    }

    open spec fn eq_spec(&self, other: &Self) -> bool {
        self@ == other@
    }
}

impl<T: Ring> Eq for FractionWheel<T> {

}

impl<T: Ring> Wheel for FractionWheel<T> {
    type Model = Ratio;

    open spec fn model(&self) -> Ratio {
        self@
    }

    open spec fn zero_spec() -> Ratio {
        Ratio::zero()
    }

    open spec fn one_spec() -> Ratio {
        Ratio::one()
    }

    open spec fn infinity_spec() -> Ratio {
        Ratio::infinity()
    }

    open spec fn bottom_spec() -> Ratio {
        Ratio::bottom()
    }

    open spec fn add_spec(a: Ratio, b: Ratio) -> Ratio {
        a.add(b)
    }

    open spec fn neg_spec(a: Ratio) -> Ratio {
        a.neg()
    }

    open spec fn mul_spec(a: Ratio, b: Ratio) -> Ratio {
        a.mul(b)
    }

    open spec fn inv_spec(a: Ratio) -> Ratio {
        a.inv()
    }

    open spec fn add_req(a: Ratio, b: Ratio) -> bool {
        Self::add_fits(a, b)
    }

    open spec fn neg_req(a: Ratio) -> bool {
        Self::neg_fits(a)
    }

    open spec fn mul_req(a: Ratio, b: Ratio) -> bool {
        Self::mul_fits(a, b)
    }

    open spec fn inv_req(a: Ratio) -> bool {
        Self::inv_fits(a)
    }

    fn zero() -> (r: Self) {
        FractionWheel::zero()
    }

    fn one() -> (r: Self) {
        FractionWheel::one()
    }

    fn infinity() -> (r: Self) {
        FractionWheel::infinity()
    }

    fn bottom() -> (r: Self) {
        FractionWheel::bottom()
    }

    fn add(&self, other: &Self) -> (r: Self) {
        FractionWheel::add(self, *other)
    }

    fn neg(&self) -> (r: Self) {
        FractionWheel::neg(self)
    }

    fn mul(&self, other: &Self) -> (r: Self) {
        FractionWheel::mul(self, *other)
    }

    fn inv(&self) -> (r: Self) {
        FractionWheel::inv(self)
    }
}

impl<T: Ring> Add for FractionWheel<T> {
    type Output = Self;

    fn add(self, other: Self) -> (r: Self)
        ensures
            r@ == self@.add(other@),
    {
        let r = FractionWheel::add(&self, other);
        proof {
            r.lemma_view_determines();
        }
        r
    }
}

impl<T: Ring> AddSpecImpl for FractionWheel<T> {
    open spec fn obeys_add_spec() -> bool {
        true
    }

    open spec fn add_req(self, other: Self) -> bool {
        Self::add_fits(self@, other@)
    }

    open spec fn add_spec(self, other: Self) -> Self {
        Self::standing_for(self@.add(other@))
    }
}

impl<T: Ring> Sub for FractionWheel<T> {
    type Output = Self;

    fn sub(self, other: Self) -> (r: Self)
        ensures
            r@ == self@.sub(other@),
    {
        let r = FractionWheel::sub(&self, other);
        proof {
            r.lemma_view_determines();
        }
        r
    }
}

impl<T: Ring> SubSpecImpl for FractionWheel<T> {
    open spec fn obeys_sub_spec() -> bool {
        true
    }

    open spec fn sub_req(self, other: Self) -> bool {
        Self::sub_fits(self@, other@)
    }

    open spec fn sub_spec(self, other: Self) -> Self {
        Self::standing_for(self@.sub(other@))
    }
}

impl<T: Ring> Mul for FractionWheel<T> {
    type Output = Self;

    fn mul(self, other: Self) -> (r: Self)
        ensures
            r@ == self@.mul(other@),
    {
        let r = FractionWheel::mul(&self, other);
        proof {
            r.lemma_view_determines();
        }
        r
    }
}

impl<T: Ring> MulSpecImpl for FractionWheel<T> {
    open spec fn obeys_mul_spec() -> bool {
        true
    }

    open spec fn mul_req(self, other: Self) -> bool {
        Self::mul_fits(self@, other@)
    }

    open spec fn mul_spec(self, other: Self) -> Self {
        Self::standing_for(self@.mul(other@))
    }
}

impl<T: Ring> Div for FractionWheel<T> {
    type Output = Self;

    fn div(self, other: Self) -> (r: Self)
        ensures
            r@ == self@.div(other@),
    {
        let r = FractionWheel::div(&self, other);
        proof {
            r.lemma_view_determines();
        }
        r
    }
}

impl<T: Ring> DivSpecImpl for FractionWheel<T> {
    open spec fn obeys_div_spec() -> bool {
        true
    }

    open spec fn div_req(self, other: Self) -> bool {
        Self::div_fits(self@, other@)
    }

    open spec fn div_spec(self, other: Self) -> Self {
        Self::standing_for(self@.div(other@))
    }
}

impl<T: Ring> Neg for FractionWheel<T> {
    type Output = Self;

    fn neg(self) -> (r: Self)
        ensures
            r@ == self@.neg(),
    {
        let r = FractionWheel::neg(&self);
        proof {
            r.lemma_view_determines();
        }
        r
    }
}

impl<T: Ring> NegSpecImpl for FractionWheel<T> {
    open spec fn obeys_neg_spec() -> bool {
        true
    }

    open spec fn neg_req(self) -> bool {
        Self::neg_fits(self@)
    }

    open spec fn neg_spec(self) -> Self {
        Self::standing_for(self@.neg())
    }
}

impl From<i8> for FractionWheel<i8> {
    fn from(value: i8) -> (r: Self)
        ensures
            r@ == (Ratio { num: value.as_int(), den: 1 }),
    {
        proof {
            lemma_gcd_with_one(value.as_int());
        }
        let r = FractionWheel(value, 1);
        proof {
            r.lemma_view_determines();
        }
        r
    }
}

impl FromSpecImpl<i8> for FractionWheel<i8> {
    open spec fn obeys_from_spec() -> bool {
        true
    }

    open spec fn from_spec(value: i8) -> Self {
        Self::standing_for(Ratio { num: value.as_int(), den: 1 })
    }
}

impl From<i16> for FractionWheel<i16> {
    fn from(value: i16) -> (r: Self)
        ensures
            r@ == (Ratio { num: value.as_int(), den: 1 }),
    {
        proof {
            lemma_gcd_with_one(value.as_int());
        }
        let r = FractionWheel(value, 1);
        proof {
            r.lemma_view_determines();
        }
        r
    }
}

impl FromSpecImpl<i16> for FractionWheel<i16> {
    open spec fn obeys_from_spec() -> bool {
        true
    }

    open spec fn from_spec(value: i16) -> Self {
        Self::standing_for(Ratio { num: value.as_int(), den: 1 })
    }
}

impl From<i32> for FractionWheel<i32> {
    fn from(value: i32) -> (r: Self)
        ensures
            r@ == (Ratio { num: value.as_int(), den: 1 }),
    {
        proof {
            lemma_gcd_with_one(value.as_int());
        }
        let r = FractionWheel(value, 1);
        proof {
            r.lemma_view_determines();
        }
        r
    }
}

impl FromSpecImpl<i32> for FractionWheel<i32> {
    open spec fn obeys_from_spec() -> bool {
        true
    }

    open spec fn from_spec(value: i32) -> Self {
        Self::standing_for(Ratio { num: value.as_int(), den: 1 })
    }
}

impl From<i64> for FractionWheel<i64> {
    fn from(value: i64) -> (r: Self)
        ensures
            r@ == (Ratio { num: value.as_int(), den: 1 }),
    {
        proof {
            lemma_gcd_with_one(value.as_int());
        }
        let r = FractionWheel(value, 1);
        proof {
            r.lemma_view_determines();
        }
        r
    }
}

impl FromSpecImpl<i64> for FractionWheel<i64> {
    open spec fn obeys_from_spec() -> bool {
        true
    }

    open spec fn from_spec(value: i64) -> Self {
        Self::standing_for(Ratio { num: value.as_int(), den: 1 })
    }
}

impl From<i128> for FractionWheel<i128> {
    fn from(value: i128) -> (r: Self)
        ensures
            r@ == (Ratio { num: value.as_int(), den: 1 }),
    {
        proof {
            lemma_gcd_with_one(value.as_int());
        }
        let r = FractionWheel(value, 1);
        proof {
            r.lemma_view_determines();
        }
        r
    }
}

impl FromSpecImpl<i128> for FractionWheel<i128> {
    open spec fn obeys_from_spec() -> bool {
        true
    }

    open spec fn from_spec(value: i128) -> Self {
        Self::standing_for(Ratio { num: value.as_int(), den: 1 })
    }
}

pub type FractionWheel8 = FractionWheel<i8>;

pub type FractionWheel16 = FractionWheel<i16>;

pub type FractionWheel32 = FractionWheel<i32>;

pub type FractionWheel64 = FractionWheel<i64>;

pub type FractionWheel128 = FractionWheel<i128>;

} // verus!

pub use FractionWheel128 as qw128;
pub use FractionWheel16 as qw16;
pub use FractionWheel32 as qw32;
pub use FractionWheel64 as qw64;
pub use FractionWheel8 as qw8;
