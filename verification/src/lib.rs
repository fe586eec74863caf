//! Wheel algebra: arithmetic in which division is total.
//!
//! A wheel extends a field by two values, an unsigned infinity `1/0` and a
//! bottom `0/0`, so that every operation, division by zero included, has a
//! result. The price is that `x - x` and `x / x` are no longer always `0`
//! and `1`.

use vstd::prelude::*;

pub mod float;
pub mod fraction;
pub mod laws;
pub mod number;
pub mod ratio;
pub mod ring;

pub use fraction::qw128;
pub use fraction::qw16;
pub use fraction::qw32;
pub use fraction::qw64;
pub use fraction::qw8;
pub use fraction::FractionWheel;
pub use fraction::FractionWheel128;
pub use fraction::FractionWheel16;
pub use fraction::FractionWheel32;
pub use fraction::FractionWheel64;
pub use fraction::FractionWheel8;

verus! {

/// The class of a wheel value. Every value of every wheel is of exactly one
/// class.
#[derive(Debug, Clone, Copy, PartialEq, Eq, Structural)]
pub enum WheelClass {
    /// The additive identity. There is no signed zero.
    Zero,
    /// The one infinity, which has no sign.
    Infinity,
    /// The undefined value, which absorbs every sum.
    Bottom,
    /// An ordinary value: finite and not zero.
    Normal,
}

/// An algebraic structure in which division is always defined.
///
/// The elements of a wheel stand for the values of a mathematical model, and
/// every operation states the model's value of its result. Where an
/// implementation works within machine limits, `*_req` says for which
/// operands the operation can be carried out.
pub trait Wheel: PartialEq + Eq + Sized {
    /// The mathematical values that the elements stand for.
    type Model;

    /// The value that an element stands for.
    spec fn model(&self) -> Self::Model;

    /// The model's additive identity.
    spec fn zero_spec() -> Self::Model;

    /// The model's multiplicative identity.
    spec fn one_spec() -> Self::Model;

    /// The model's infinity.
    spec fn infinity_spec() -> Self::Model;

    /// The model's bottom.
    spec fn bottom_spec() -> Self::Model;

    /// Addition in the model.
    spec fn add_spec(a: Self::Model, b: Self::Model) -> Self::Model;

    /// Negation in the model.
    spec fn neg_spec(a: Self::Model) -> Self::Model;

    /// Multiplication in the model.
    spec fn mul_spec(a: Self::Model, b: Self::Model) -> Self::Model;

    /// Inversion in the model.
    spec fn inv_spec(a: Self::Model) -> Self::Model;

    /// Whether elements that stand for `a` and `b` can be added.
    spec fn add_req(a: Self::Model, b: Self::Model) -> bool;

    /// Whether an element that stands for `a` can be negated.
    spec fn neg_req(a: Self::Model) -> bool;

    /// Whether elements that stand for `a` and `b` can be multiplied.
    spec fn mul_req(a: Self::Model, b: Self::Model) -> bool;

    /// Whether an element that stands for `a` can be inverted.
    spec fn inv_req(a: Self::Model) -> bool;

    /// Additive identity. There is no signed zero.
    fn zero() -> (r: Self)
        ensures
            r.model() == Self::zero_spec(),
    ;

    /// Multiplicative identity.
    fn one() -> (r: Self)
        ensures
            r.model() == Self::one_spec(),
    ;

    /// Infinity is always unsigned.
    fn infinity() -> (r: Self)
        ensures
            r.model() == Self::infinity_spec(),
    ;

    /// Bottom is a special value that represents an undefined value. But it
    /// is a number, so it can be used in calculations.
    fn bottom() -> (r: Self)
        ensures
            r.model() == Self::bottom_spec(),
    ;

    /// Normal addition.
    fn add(&self, other: &Self) -> (r: Self)
        requires
            Self::add_req(self.model(), other.model()),
        ensures
            r.model() == Self::add_spec(self.model(), other.model()),
    ;

    /// Normal negation.
    fn neg(&self) -> (r: Self)
        requires
            Self::neg_req(self.model()),
        ensures
            r.model() == Self::neg_spec(self.model()),
    ;

    /// Defined as `self + other.neg()`. `x - x` is not always zero.
    fn sub(&self, other: &Self) -> (r: Self)
        requires
            Self::neg_req(other.model()),
            Self::add_req(self.model(), Self::neg_spec(other.model())),
        ensures
            r.model() == Self::add_spec(self.model(), Self::neg_spec(other.model())),
    {
        self.add(&other.neg())
    }

    /// `0 * x` is not always zero.
    fn mul(&self, other: &Self) -> (r: Self)
        requires
            Self::mul_req(self.model(), other.model()),
        ensures
            r.model() == Self::mul_spec(self.model(), other.model()),
    ;

    /// Always defined. Not the same as the multiplicative inverse.
    fn inv(&self) -> (r: Self)
        requires
            Self::inv_req(self.model()),
        ensures
            r.model() == Self::inv_spec(self.model()),
    ;

    /// Always defined as `self * other.inv()`. `x / x` is not always one.
    fn div(&self, other: &Self) -> (r: Self)
        requires
            Self::inv_req(other.model()),
            Self::mul_req(self.model(), Self::inv_spec(other.model())),
        ensures
            r.model() == Self::mul_spec(self.model(), Self::inv_spec(other.model())),
    {
        self.mul(&other.inv())
    }
}

} // verus!
