//! The wheel of fractions as mathematics: pairs of unbounded integers, their
//! canonical forms, the wheel operations on them, and the laws these obey.
//!
//! Executable wheels state their contracts over [`Ratio`].

use crate::WheelClass;
use crate::number::{
    gcd, lemma_divides_quotient, lemma_gcd_coprime_factor, lemma_gcd_divides, lemma_gcd_reduced,
    lemma_gcd_scales, lemma_gcd_with_zero, lemma_multiple_divides, lemma_mutual_divisors, magnitude,
};
use vstd::arithmetic::mul::*;
use vstd::prelude::*;

verus! {

/// A numerator and a denominator. Any pair is allowed, a zero denominator
/// included: `1/0` is the wheel's infinity and `0/0` its bottom.
pub struct Ratio {
    pub num: int,
    pub den: int,
}

impl Ratio {
    /// The additive identity, `0/1`.
    pub open spec fn zero() -> Ratio {
        Ratio { num: 0, den: 1 }
    }

    /// The multiplicative identity, `1/1`.
    pub open spec fn one() -> Ratio {
        Ratio { num: 1, den: 1 }
    }

    /// The one, unsigned infinity, `1/0`.
    pub open spec fn infinity() -> Ratio {
        Ratio { num: 1, den: 0 }
    }

    /// The undefined value, `0/0`.
    pub open spec fn bottom() -> Ratio {
        Ratio { num: 0, den: 0 }
    }

    /// The class of the value that the pair stands for.
    pub open spec fn class(self) -> WheelClass {
        if self.num == 0 && self.den == 0 {
            WheelClass::Bottom
        } else if self.den == 0 {
            WheelClass::Infinity
        } else if self.num == 0 {
            WheelClass::Zero
        } else {
            WheelClass::Normal
        }
    }

    /// Whether the pair is the chosen representative of its value: one of
    /// `0/0`, `0/1`, `1/0`, or a fraction in lowest terms with a positive
    /// denominator.
    pub open spec fn canonical(self) -> bool {
        ||| self == Ratio::bottom()
        ||| self == Ratio::zero()
        ||| self == Ratio::infinity()
        ||| self.num != 0 && self.den > 0 && gcd(self.num, self.den) == 1
    }

    /// Both components multiplied by `k`.
    pub open spec fn scaled(self, k: int) -> Ratio {
        Ratio { num: k * self.num, den: k * self.den }
    }

    /// The pair with its signs turned so that the denominator is not
    /// negative; a negative numerator over zero becomes `1/0`.
    pub open spec fn oriented(self) -> Ratio {
        if self.den < 0 {
            Ratio { num: -self.num, den: -self.den }
        } else if self.den == 0 && self.num < 0 {
            Ratio::infinity()
        } else {
            self
        }
    }

    /// The canonical form of the pair: both components divided by their
    /// greatest common divisor, then the signs turned so that the denominator
    /// is not negative.
    pub open spec fn normalize(self) -> Ratio {
        let g = gcd(self.num, self.den);
        (Ratio { num: self.num / g, den: self.den / g }).oriented()
    }

    /// The pair in lowest terms, whatever its signs: `0/0`, `0/1` and `1/0`
    /// where a component is zero, and otherwise both components divided by
    /// their greatest common divisor.
    pub open spec fn reduced(self) -> Ratio {
        if self.num == 0 && self.den == 0 {
            Ratio::bottom()
        } else if self.num == 0 {
            Ratio::zero()
        } else if self.den == 0 {
            Ratio::infinity()
        } else {
            let g = gcd(self.num, self.den);
            Ratio { num: self.num / g, den: self.den / g }
        }
    }

    /// A non-zero integer by which the canonical form is scaled to give the
    /// pair back.
    pub open spec fn factor(self) -> int {
        let g = gcd(self.num, self.den);
        if self.den < 0 {
            -g
        } else if self.den == 0 && self.num < 0 {
            self.num
        } else {
            g
        }
    }

    /// The cross-multiplied sum, before normalization.
    pub open spec fn add_raw(self, other: Ratio) -> Ratio {
        Ratio { num: self.num * other.den + self.den * other.num, den: self.den * other.den }
    }

    /// The componentwise product, before normalization.
    pub open spec fn mul_raw(self, other: Ratio) -> Ratio {
        Ratio { num: self.num * other.num, den: self.den * other.den }
    }

    /// The pair with its numerator negated, before normalization.
    pub open spec fn neg_raw(self) -> Ratio {
        Ratio { num: -self.num, den: self.den }
    }

    /// The pair with numerator and denominator exchanged, before normalization.
    pub open spec fn inv_raw(self) -> Ratio {
        Ratio { num: self.den, den: self.num }
    }

    /// Wheel addition.
    pub open spec fn add(self, other: Ratio) -> Ratio {
        self.add_raw(other).normalize()
    }

    /// Wheel multiplication.
    pub open spec fn mul(self, other: Ratio) -> Ratio {
        self.mul_raw(other).normalize()
    }

    /// Wheel negation.
    pub open spec fn neg(self) -> Ratio {
        self.neg_raw().normalize()
    }

    /// Wheel inversion: total, an involution, and not in general a
    /// multiplicative inverse.
    pub open spec fn inv(self) -> Ratio {
        self.inv_raw().normalize()
    }

    /// Wheel subtraction, `self + (-other)`.
    pub open spec fn sub(self, other: Ratio) -> Ratio {
        self.add(other.neg())
    }

    /// Wheel division, `self * /other`.
    pub open spec fn div(self, other: Ratio) -> Ratio {
        self.mul(other.inv())
    }

    /// Whether two pairs stand for the same wheel value: their components
    /// vanish in the same places, and two genuine fractions agree after
    /// cross-multiplication.
    pub open spec fn same_value(self, other: Ratio) -> bool {
        &&& (self.num == 0) == (other.num == 0)
        &&& (self.den == 0) == (other.den == 0)
        &&& (self.num != 0 && self.den != 0) ==> self.num * other.den == self.den * other.num
    }
}

/// Normalization divides by a non-zero integer: the pair is its canonical
/// form scaled by [`Ratio::factor`].
pub proof fn lemma_normalize_factor(p: Ratio)
    ensures
        p.factor() != 0,
        p == p.normalize().scaled(p.factor()),
{
    let g = gcd(p.num, p.den);
    lemma_gcd_divides(p.num, p.den);
    lemma_divides_quotient(p.num, g);
    lemma_divides_quotient(p.den, g);
    let n = p.num / g;
    let d = p.den / g;
    assert(d < 0 <==> p.den < 0) by (nonlinear_arith)
        requires
            p.den == g * d,
            g >= 1,
    ;
    assert(d == 0 <==> p.den == 0) by (nonlinear_arith)
        requires
            p.den == g * d,
            g >= 1,
    ;
    assert(n < 0 <==> p.num < 0) by (nonlinear_arith)
        requires
            p.num == g * n,
            g >= 1,
    ;
    if d < 0 {
        assert((-g) * (-n) == g * n && (-g) * (-d) == g * d) by (nonlinear_arith);
    } else if d == 0 && n < 0 {
        assert(p.num * 1 == p.num && p.num * 0 == 0) by (nonlinear_arith);
    }
}

/// Normalization is reduction to lowest terms followed by the sign
/// convention.
pub proof fn lemma_normalize_in_steps(p: Ratio)
    ensures
        p.normalize() == p.reduced().oriented(),
{
    let g = gcd(p.num, p.den);
    lemma_gcd_divides(p.num, p.den);
    lemma_divides_quotient(p.num, g);
    lemma_divides_quotient(p.den, g);
    lemma_gcd_with_zero(p.num);
    lemma_gcd_with_zero(p.den);
    let n = p.num / g;
    let d = p.den / g;
    if p.num == 0 {
        assert(n == 0) by (nonlinear_arith)
            requires
                0 == g * n,
                g >= 1,
        ;
    }
    if p.den == 0 {
        assert(d == 0) by (nonlinear_arith)
            requires
                0 == g * d,
                g >= 1,
        ;
    }
    if p.num != 0 && p.den == 0 {
        assert(n == 1 || n == -1) by (nonlinear_arith)
            requires
                p.num == g * n,
                g == magnitude(p.num),
                p.num != 0,
        ;
    }
    if p.num == 0 && p.den != 0 {
        assert(d == 1 || d == -1) by (nonlinear_arith)
            requires
                p.den == g * d,
                g == magnitude(p.den),
                p.den != 0,
        ;
    }
}

/// The result of normalization is canonical.
pub proof fn lemma_normalize_canonical(p: Ratio)
    ensures
        p.normalize().canonical(),
{
    let g = gcd(p.num, p.den);
    lemma_gcd_divides(p.num, p.den);
    lemma_divides_quotient(p.num, g);
    lemma_divides_quotient(p.den, g);
    lemma_gcd_reduced(p.num, p.den);
    let n = p.num / g;
    let d = p.den / g;
    if n == 0 || d == 0 {
        lemma_gcd_with_zero(n);
        lemma_gcd_with_zero(d);
    } else {
        assert(gcd(-n, -d) == gcd(n, d));
    }
}

/// Normalization leaves a canonical pair as it is.
pub proof fn lemma_canonical_fixed(p: Ratio)
    requires
        p.canonical(),
    ensures
        p.normalize() == p,
{
    lemma_gcd_with_zero(1);
    let g = gcd(p.num, p.den);
    assert(g == 1);
    lemma_multiple_divides(g, p.num);
    lemma_multiple_divides(g, p.den);
    assert(g * p.num == p.num && g * p.den == p.den);
}

/// Normalization is idempotent.
pub proof fn lemma_normalize_idempotent(p: Ratio)
    ensures
        p.normalize().normalize() == p.normalize(),
{
    lemma_normalize_canonical(p);
    lemma_canonical_fixed(p.normalize());
}

/// Scaling a pair by a non-zero integer does not change its canonical form.
pub proof fn lemma_normalize_scaled(p: Ratio, k: int)
    requires
        k != 0,
    ensures
        p.scaled(k).normalize() == p.normalize(),
{
    let q = p.scaled(k);
    let g = gcd(p.num, p.den);
    let h = gcd(q.num, q.den);
    lemma_gcd_divides(p.num, p.den);
    lemma_gcd_divides(q.num, q.den);
    lemma_divides_quotient(p.num, g);
    lemma_divides_quotient(p.den, g);
    let n = p.num / g;
    let d = p.den / g;
    if p.num == 0 && p.den == 0 {
        assert(k * 0 == 0);
    } else {
        lemma_gcd_scales(k, p.num, p.den);
        let m = magnitude(k);
        let s: int = if k < 0 {
            -1
        } else {
            1
        };
        assert(h == m * g);
        assert(q.num == h * (s * n) && q.den == h * (s * d)) by (nonlinear_arith)
            requires
                q.num == k * p.num,
                q.den == k * p.den,
                p.num == g * n,
                p.den == g * d,
                h == m * g,
                k == s * m,
        ;
        lemma_multiple_divides(h, s * n);
        lemma_multiple_divides(h, s * d);
        assert(q.num / h == s * n);
        assert(q.den / h == s * d);
        if d == 0 {
            lemma_gcd_with_zero(p.num);
            assert(n == 1 || n == -1) by (nonlinear_arith)
                requires
                    p.num == g * n,
                    g == magnitude(p.num),
                    p.num != 0,
            ;
        }
    }
}

/// The canonical form of a non-zero multiple of a canonical pair is that
/// pair: `(k * n) / (k * d)` normalizes to `n / d`.
pub proof fn lemma_normalize_multiple(q: Ratio, k: int)
    requires
        q.canonical(),
        k != 0,
    ensures
        q.scaled(k).normalize() == q,
{
    lemma_normalize_scaled(q, k);
    lemma_canonical_fixed(q);
}

/// Two canonical pairs that stand for the same value are the same pair, and
/// conversely: on canonical pairs equality of values is equality of pairs.
pub proof fn lemma_canonical_unique(a: Ratio, b: Ratio)
    requires
        a.canonical(),
        b.canonical(),
    ensures
        a.same_value(b) <==> a == b,
{
    if a.same_value(b) && a.num != 0 && a.den != 0 {
        lemma_multiple_divides(a.den, b.num);
        lemma_gcd_coprime_factor(a.num, a.den, b.den);
        lemma_mul_is_commutative(b.num, a.den);
        lemma_mul_is_commutative(b.den, a.num);
        lemma_multiple_divides(b.den, a.num);
        lemma_gcd_coprime_factor(b.num, b.den, a.den);
        lemma_mutual_divisors(a.den, b.den);
        assert(a.num == b.num) by (nonlinear_arith)
            requires
                a.num * a.den == a.den * b.num,
                a.den > 0,
        ;
    }
}

/// The raw operations commute with scaling: a factor on an operand comes out
/// as a factor on the result.
pub proof fn lemma_raw_scaled(p: Ratio, q: Ratio, k: int)
    ensures
        p.scaled(k).add_raw(q) == p.add_raw(q).scaled(k),
        q.add_raw(p.scaled(k)) == q.add_raw(p).scaled(k),
        p.scaled(k).mul_raw(q) == p.mul_raw(q).scaled(k),
        q.mul_raw(p.scaled(k)) == q.mul_raw(p).scaled(k),
        p.scaled(k).neg_raw() == p.neg_raw().scaled(k),
        p.scaled(k).inv_raw() == p.inv_raw().scaled(k),
{
    assert((k * p.num) * q.den + (k * p.den) * q.num == k * (p.num * q.den + p.den * q.num))
        by (nonlinear_arith);
    assert((k * p.den) * q.den == k * (p.den * q.den)) by (nonlinear_arith);
    assert(q.num * (k * p.den) + q.den * (k * p.num) == k * (q.num * p.den + q.den * p.num))
        by (nonlinear_arith);
    assert(q.den * (k * p.den) == k * (q.den * p.den)) by (nonlinear_arith);
    assert((k * p.num) * q.num == k * (p.num * q.num)) by (nonlinear_arith);
    assert(q.num * (k * p.num) == k * (q.num * p.num)) by (nonlinear_arith);
    assert(-(k * p.num) == k * (-p.num)) by (nonlinear_arith);
}

/// In a sum, an operand may be replaced by its canonical form.
pub proof fn lemma_add_normalized(p: Ratio, q: Ratio)
    ensures
        p.normalize().add(q) == p.add(q),
        p.add(q.normalize()) == p.add(q),
        p.normalize().add(q.normalize()) == p.add(q),
{
    lemma_normalize_factor(p);
    lemma_normalize_factor(q);
    let pn = p.normalize();
    let qn = q.normalize();
    lemma_raw_scaled(pn, q, p.factor());
    lemma_normalize_scaled(pn.add_raw(q), p.factor());
    lemma_raw_scaled(qn, p, q.factor());
    lemma_normalize_scaled(p.add_raw(qn), q.factor());
    lemma_raw_scaled(qn, pn, q.factor());
    lemma_normalize_scaled(pn.add_raw(qn), q.factor());
}

/// In a product, an operand may be replaced by its canonical form.
pub proof fn lemma_mul_normalized(p: Ratio, q: Ratio)
    ensures
        p.normalize().mul(q) == p.mul(q),
        p.mul(q.normalize()) == p.mul(q),
        p.normalize().mul(q.normalize()) == p.mul(q),
{
    lemma_normalize_factor(p);
    lemma_normalize_factor(q);
    let pn = p.normalize();
    let qn = q.normalize();
    lemma_raw_scaled(pn, q, p.factor());
    lemma_normalize_scaled(pn.mul_raw(q), p.factor());
    lemma_raw_scaled(qn, p, q.factor());
    lemma_normalize_scaled(p.mul_raw(qn), q.factor());
    lemma_raw_scaled(qn, pn, q.factor());
    lemma_normalize_scaled(pn.mul_raw(qn), q.factor());
}

/// Negation and inversion give the same result for a pair and for its
/// canonical form.
pub proof fn lemma_unary_normalized(p: Ratio)
    ensures
        p.normalize().neg() == p.neg(),
        p.normalize().inv() == p.inv(),
{
    lemma_normalize_factor(p);
    let pn = p.normalize();
    lemma_raw_scaled(pn, pn, p.factor());
    lemma_normalize_scaled(pn.neg_raw(), p.factor());
    lemma_normalize_scaled(pn.inv_raw(), p.factor());
}

/// Every wheel operation gives a canonical pair.
pub proof fn lemma_operations_canonical(p: Ratio, q: Ratio)
    ensures
        p.add(q).canonical(),
        p.mul(q).canonical(),
        p.sub(q).canonical(),
        p.div(q).canonical(),
        p.neg().canonical(),
        p.inv().canonical(),
{
    lemma_normalize_canonical(p.add_raw(q));
    lemma_normalize_canonical(p.mul_raw(q));
    lemma_normalize_canonical(p.add_raw(q.neg()));
    lemma_normalize_canonical(p.mul_raw(q.inv()));
    lemma_normalize_canonical(p.neg_raw());
    lemma_normalize_canonical(p.inv_raw());
}

} // verus!
