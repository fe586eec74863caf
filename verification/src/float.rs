//! The case analysis of the wheel over native scalars.
//!
//! A native scalar is classified once, at the start of every operation, and
//! the classes of the operands decide what the operation returns: one of the
//! wheel's constants, one of the operands unchanged, or the result of the
//! native operation. This module holds the classification and the tables.
//! The scalars themselves never enter it.

use crate::WheelClass;
use vstd::prelude::*;

verus! {

/// What the host reports of a native scalar.
#[derive(Debug, Clone, Copy, PartialEq, Eq, Structural)]
pub enum NativeCategory {
    /// Not a number.
    Nan,
    /// Positive or negative infinity.
    Infinite,
    /// Positive or negative zero.
    Zero,
    /// Finite, smaller in magnitude than the least normal value.
    Subnormal,
    /// Any other finite value.
    Normal,
}

/// What a case table decides for an operation.
#[derive(Debug, Clone, Copy, PartialEq, Eq, Structural)]
pub enum Outcome {
    /// The result is the wheel's bottom.
    Bottom,
    /// The result is the wheel's infinity.
    Infinity,
    /// The result is the wheel's zero.
    Zero,
    /// The result is the left operand, unchanged.
    Left,
    /// The result is the right operand, unchanged.
    Right,
    /// The result is what the native operation gives.
    Native,
}

/// What the equality table decides.
#[derive(Debug, Clone, Copy, PartialEq, Eq, Structural)]
pub enum Comparison {
    /// The values are equal, whatever the scalars.
    Equal,
    /// The values differ, whatever the scalars.
    Unequal,
    /// The native comparison of the scalars decides.
    Native,
}

/// The wheel class of a scalar of the given native category. A subnormal
/// scalar is an ordinary value.
pub open spec fn category_of(native: NativeCategory) -> WheelClass {
    match native {
        NativeCategory::Zero => WheelClass::Zero,
        NativeCategory::Infinite => WheelClass::Infinity,
        NativeCategory::Nan => WheelClass::Bottom,
        NativeCategory::Normal | NativeCategory::Subnormal => WheelClass::Normal,
    }
}

/// The sum of a value of class `a` and one of class `b`.
///
/// Bottom absorbs, and so does the sum of two infinities. Otherwise an
/// infinity wins, then a zero leaves the other operand as it is, and only two
/// ordinary values are added natively.
pub open spec fn add_rule(a: WheelClass, b: WheelClass) -> Outcome {
    if a is Bottom || b is Bottom || (a is Infinity && b is Infinity) {
        Outcome::Bottom
    } else if a is Infinity || b is Infinity {
        Outcome::Infinity
    } else if b is Zero {
        Outcome::Left
    } else if a is Zero {
        Outcome::Right
    } else {
        Outcome::Native
    }
}

/// The product of a value of class `a` and one of class `b`.
///
/// Bottom absorbs, and so does the product of infinity and zero. Otherwise an
/// infinity wins, then a zero, and only two ordinary values are multiplied
/// natively.
pub open spec fn mul_rule(a: WheelClass, b: WheelClass) -> Outcome {
    if a is Bottom || b is Bottom || (a is Infinity && b is Zero) || (a is Zero && b is Infinity) {
        Outcome::Bottom
    } else if a is Infinity || b is Infinity {
        Outcome::Infinity
    } else if a is Zero || b is Zero {
        Outcome::Zero
    } else {
        Outcome::Native
    }
}

/// The inverse of a value of class `a`: zero and infinity change places,
/// bottom stays, and an ordinary value has its native reciprocal.
pub open spec fn inv_rule(a: WheelClass) -> Outcome {
    match a {
        WheelClass::Bottom => Outcome::Bottom,
        WheelClass::Infinity => Outcome::Zero,
        WheelClass::Zero => Outcome::Infinity,
        WheelClass::Normal => Outcome::Native,
    }
}

/// The comparison of a value of class `a` with one of class `b`: values of
/// different classes differ, two values of one class other than `Normal` are
/// equal, and two ordinary values are compared natively.
pub open spec fn eq_rule(a: WheelClass, b: WheelClass) -> Comparison {
    if a != b {
        Comparison::Unequal
    } else if a is Normal {
        Comparison::Native
    } else {
        Comparison::Equal
    }
}

/// The text that stands for a class in plain rendering; an ordinary value is
/// rendered natively and has none.
pub open spec fn display_text(c: WheelClass) -> Option<Seq<char>> {
    match c {
        WheelClass::Zero => Some("0"@),
        WheelClass::Infinity => Some("Inf"@),
        WheelClass::Bottom => Some("Bottom"@),
        WheelClass::Normal => None,
    }
}

/// The name of the constant that stands for a class in debug rendering; an
/// ordinary value is rendered in constructor style and has none.
pub open spec fn debug_text(c: WheelClass) -> Option<Seq<char>> {
    match c {
        WheelClass::Zero => Some("ZERO"@),
        WheelClass::Infinity => Some("INFINITY"@),
        WheelClass::Bottom => Some("BOTTOM"@),
        WheelClass::Normal => None,
    }
}

/// Classifies a scalar from what the host reports of it.
pub fn get_category(native: NativeCategory) -> (r: WheelClass)
    ensures
        r == category_of(native),
{
    match native {
        NativeCategory::Zero => WheelClass::Zero,
        NativeCategory::Infinite => WheelClass::Infinity,
        NativeCategory::Nan => WheelClass::Bottom,
        NativeCategory::Normal => WheelClass::Normal,
        NativeCategory::Subnormal => WheelClass::Normal,
    }
}

/// The addition table. The first case that matches decides.
pub fn add_case(a: WheelClass, b: WheelClass) -> (r: Outcome)
    ensures
        r == add_rule(a, b),
{
    match (a, b) {
        (WheelClass::Bottom, _) => Outcome::Bottom,
        (_, WheelClass::Bottom) => Outcome::Bottom,
        (WheelClass::Infinity, WheelClass::Infinity) => Outcome::Bottom,
        (WheelClass::Infinity, _) => Outcome::Infinity,
        (_, WheelClass::Infinity) => Outcome::Infinity,
        (_, WheelClass::Zero) => Outcome::Left,
        (WheelClass::Zero, _) => Outcome::Right,
        (WheelClass::Normal, WheelClass::Normal) => Outcome::Native,
    }
}

/// The multiplication table. The first case that matches decides.
pub fn mul_case(a: WheelClass, b: WheelClass) -> (r: Outcome)
    ensures
        r == mul_rule(a, b),
{
    match (a, b) {
        (WheelClass::Bottom, _) => Outcome::Bottom,
        (_, WheelClass::Bottom) => Outcome::Bottom,
        (WheelClass::Infinity, WheelClass::Zero) => Outcome::Bottom,
        (WheelClass::Zero, WheelClass::Infinity) => Outcome::Bottom,
        (_, WheelClass::Infinity) => Outcome::Infinity,
        (WheelClass::Infinity, _) => Outcome::Infinity,
        (WheelClass::Zero, _) => Outcome::Zero,
        (_, WheelClass::Zero) => Outcome::Zero,
        (WheelClass::Normal, WheelClass::Normal) => Outcome::Native,
    }
}

/// The inversion table.
pub fn inv_case(a: WheelClass) -> (r: Outcome)
    ensures
        r == inv_rule(a),
{
    match a {
        WheelClass::Bottom => Outcome::Bottom,
        WheelClass::Infinity => Outcome::Zero,
        WheelClass::Zero => Outcome::Infinity,
        WheelClass::Normal => Outcome::Native,
    }
}

/// The equality table, for exact and for approximate equality alike: they
/// differ only in how two ordinary values are compared natively.
pub fn eq_case(a: WheelClass, b: WheelClass) -> (r: Comparison)
    ensures
        r == eq_rule(a, b),
{
    if a != b {
        Comparison::Unequal
    } else if a != WheelClass::Normal {
        Comparison::Equal
    } else {
        Comparison::Native
    }
}

/// The plain rendering of a class, `None` for an ordinary value.
pub fn display_symbol(c: WheelClass) -> (r: Option<&'static str>)
    ensures
        r is Some <==> display_text(c) is Some,
        r is Some ==> r->0@ == display_text(c)->0,
{
    match c {
        WheelClass::Zero => Some("0"),
        WheelClass::Infinity => Some("Inf"),
        WheelClass::Bottom => Some("Bottom"),
        WheelClass::Normal => None,
    }
}

/// The debug rendering of a class, the name of its constant, and `None` for
/// an ordinary value.
pub fn debug_symbol(c: WheelClass) -> (r: Option<&'static str>)
    ensures
        r is Some <==> debug_text(c) is Some,
        r is Some ==> r->0@ == debug_text(c)->0,
{
    match c {
        WheelClass::Zero => Some("ZERO"),
        WheelClass::Infinity => Some("INFINITY"),
        WheelClass::Bottom => Some("BOTTOM"),
        WheelClass::Normal => None,
    }
}

} // verus!
