//! The algebra of the wheel of fractions.
//!
//! Each law is stated over [`Ratio`] and holds for integers of any size. A
//! wheel is not a field: `x - x` and `x / x` are `0` and `1` only up to the
//! correction terms below.

use crate::float::{add_rule, eq_rule, inv_rule, mul_rule, Outcome};
use crate::ratio::{
    lemma_add_normalized, lemma_canonical_fixed, lemma_mul_normalized, lemma_normalize_factor,
    lemma_normalize_multiple, lemma_unary_normalized, Ratio,
};
use vstd::prelude::*;

verus! {

/// Addition is commutative and associative, and zero is its identity.
pub proof fn lemma_add_monoid(x: Ratio, y: Ratio, z: Ratio)
    ensures
        x.add(y) == y.add(x),
        x.add(y).add(z) == x.add(y.add(z)),
        x.canonical() ==> Ratio::zero().add(x) == x && x.add(Ratio::zero()) == x,
{
    assert(x.add_raw(y) == y.add_raw(x)) by {
        assert(x.num * y.den + x.den * y.num == y.num * x.den + y.den * x.num)
            by (nonlinear_arith);
        assert(x.den * y.den == y.den * x.den) by (nonlinear_arith);
    }
    lemma_add_normalized(x.add_raw(y), z);
    lemma_add_normalized(x, y.add_raw(z));
    assert(x.add_raw(y).add_raw(z) == x.add_raw(y.add_raw(z))) by {
        let u = x.num * y.den;
        let v = x.den * y.num;
        assert((u + v) * z.den == u * z.den + v * z.den) by (nonlinear_arith);
        let s = y.num * z.den;
        let t = y.den * z.num;
        assert(x.den * (s + t) == x.den * s + x.den * t) by (nonlinear_arith);
        assert((x.num * y.den) * z.den == x.num * (y.den * z.den)) by (nonlinear_arith);
        assert((x.den * y.num) * z.den == x.den * (y.num * z.den)) by (nonlinear_arith);
        assert((x.den * y.den) * z.num == x.den * (y.den * z.num)) by (nonlinear_arith);
        assert((x.den * y.den) * z.den == x.den * (y.den * z.den)) by (nonlinear_arith);
    }
    if x.canonical() {
        assert(Ratio::zero().add_raw(x) == x) by {
            assert(0 * x.den + 1 * x.num == x.num && 1 * x.den == x.den) by (nonlinear_arith);
        }
        assert(x.add_raw(Ratio::zero()) == x) by {
            assert(x.num * 1 + x.den * 0 == x.num && x.den * 1 == x.den) by (nonlinear_arith);
        }
        lemma_canonical_fixed(x);
    }
}

/// Multiplication is commutative and associative, and one is its identity.
pub proof fn lemma_mul_monoid(x: Ratio, y: Ratio, z: Ratio)
    ensures
        x.mul(y) == y.mul(x),
        x.mul(y).mul(z) == x.mul(y.mul(z)),
        x.canonical() ==> Ratio::one().mul(x) == x && x.mul(Ratio::one()) == x,
{
    assert(x.mul_raw(y) == y.mul_raw(x)) by {
        assert(x.num * y.num == y.num * x.num && x.den * y.den == y.den * x.den)
            by (nonlinear_arith);
    }
    lemma_mul_normalized(x.mul_raw(y), z);
    lemma_mul_normalized(x, y.mul_raw(z));
    assert(x.mul_raw(y).mul_raw(z) == x.mul_raw(y.mul_raw(z))) by {
        assert((x.num * y.num) * z.num == x.num * (y.num * z.num)) by (nonlinear_arith);
        assert((x.den * y.den) * z.den == x.den * (y.den * z.den)) by (nonlinear_arith);
    }
    if x.canonical() {
        assert(Ratio::one().mul_raw(x) == x) by {
            assert(1 * x.num == x.num && 1 * x.den == x.den) by (nonlinear_arith);
        }
        assert(x.mul_raw(Ratio::one()) == x) by {
            assert(x.num * 1 == x.num && x.den * 1 == x.den) by (nonlinear_arith);
        }
        lemma_canonical_fixed(x);
    }
}

/// Inversion is an involution: inverting a wheel value twice gives it back.
pub proof fn lemma_inv_involution(x: Ratio)
    requires
        x.canonical(),
    ensures
        x.inv().inv() == x,
{
    lemma_unary_normalized(x.inv_raw());
    assert(x.inv_raw().inv_raw() == x);
    lemma_canonical_fixed(x);
}

/// Inversion turns a product into the product of the inverses, in reverse
/// order.
pub proof fn lemma_inv_of_product(x: Ratio, y: Ratio)
    ensures
        x.mul(y).inv() == y.inv().mul(x.inv()),
{
    lemma_unary_normalized(x.mul_raw(y));
    lemma_mul_normalized(y.inv_raw(), x.inv_raw());
    assert(x.den * y.den == y.den * x.den && x.num * y.num == y.num * x.num)
        by (nonlinear_arith);
}

/// Multiplication distributes over addition up to a term `0 * z`:
/// `(x + y) * z + 0 * z == x * z + y * z`.
pub proof fn lemma_distributive(x: Ratio, y: Ratio, z: Ratio)
    ensures
        x.add(y).mul(z).add(Ratio::zero().mul(z)) == x.mul(z).add(y.mul(z)),
{
    let b = x.add_raw(y).mul_raw(z);
    let c = Ratio::zero().mul_raw(z);
    let d = x.mul_raw(z);
    let e = y.mul_raw(z);
    lemma_mul_normalized(x.add_raw(y), z);
    lemma_add_normalized(b, c);
    lemma_add_normalized(d, e);
    assert(b.add_raw(c) == d.add_raw(e)) by {
        let u = x.num * y.den;
        let v = x.den * y.num;
        assert(((u + v) * z.num) * (1 * z.den) == (u * z.num) * z.den + (v * z.num) * z.den)
            by (nonlinear_arith);
        assert(((x.den * y.den) * z.den) * (0 * z.num) == 0) by (nonlinear_arith);
        assert((x.num * z.num) * (y.den * z.den) == ((x.num * y.den) * z.num) * z.den)
            by (nonlinear_arith);
        assert((x.den * z.den) * (y.num * z.num) == ((x.den * y.num) * z.num) * z.den)
            by (nonlinear_arith);
        assert(((x.den * y.den) * z.den) * (1 * z.den) == (x.den * z.den) * (y.den * z.den))
            by (nonlinear_arith);
    }
}

/// Division distributes over addition up to a term `0 * y`:
/// `(x + y * z) / y == x / y + z + 0 * y`.
pub proof fn lemma_distributive_div(x: Ratio, y: Ratio, z: Ratio)
    ensures
        x.add(y.mul(z)).div(y) == x.div(y).add(z).add(Ratio::zero().mul(y)),
{
    let s = x.add_raw(y.mul_raw(z));
    let l = s.mul_raw(y.inv_raw());
    lemma_add_normalized(x, y.mul_raw(z));
    lemma_mul_normalized(s, y.inv_raw());
    assert(x.add(y.mul(z)).div(y) == l.normalize());
    let q = x.mul_raw(y.inv_raw());
    let t = q.add_raw(z);
    let c = Ratio::zero().mul_raw(y);
    lemma_mul_normalized(x, y.inv_raw());
    lemma_add_normalized(q, z);
    lemma_add_normalized(t, c);
    assert(x.div(y).add(z).add(Ratio::zero().mul(y)) == t.add_raw(c).normalize());
    assert(l == t.add_raw(c)) by {
        let u = x.num * (y.den * z.den);
        let v = x.den * (y.num * z.num);
        assert(u == (x.num * y.den) * z.den) by (nonlinear_arith)
            requires
                u == x.num * (y.den * z.den),
        ;
        assert(v == (x.den * y.num) * z.num) by (nonlinear_arith)
            requires
                v == x.den * (y.num * z.num),
        ;
        assert((u + v) * (1 * y.den) == (u + v) * y.den) by (nonlinear_arith);
        assert(((x.den * y.num) * z.den) * (0 * y.num) == 0) by (nonlinear_arith);
        assert((x.den * (y.den * z.den)) * y.num == ((x.den * y.num) * z.den) * (1 * y.den))
            by (nonlinear_arith);
    }
}

/// A term `0 * y` passes through a product:
/// `(x + 0 * y) * z == x * z + 0 * y`.
pub proof fn lemma_zero_term_product(x: Ratio, y: Ratio, z: Ratio)
    ensures
        x.add(Ratio::zero().mul(y)).mul(z) == x.mul(z).add(Ratio::zero().mul(y)),
{
    let c = Ratio::zero().mul_raw(y);
    let s = x.add_raw(c);
    lemma_add_normalized(x, c);
    lemma_mul_normalized(s, z);
    let d = x.mul_raw(z);
    lemma_add_normalized(d, c);
    assert(s.mul_raw(z) == d.add_raw(c)) by {
        assert((x.num * (1 * y.den) + x.den * (0 * y.num)) * z.num == (x.num * z.num) * (1
            * y.den) + (x.den * z.den) * (0 * y.num)) by (nonlinear_arith);
        assert((x.den * (1 * y.den)) * z.den == (x.den * z.den) * (1 * y.den))
            by (nonlinear_arith);
    }
}

/// A term `0 * y` passes through inversion:
/// `/(x + 0 * y) == /x + 0 * y`.
pub proof fn lemma_zero_term_inv(x: Ratio, y: Ratio)
    ensures
        x.add(Ratio::zero().mul(y)).inv() == x.inv().add(Ratio::zero().mul(y)),
{
    let c = Ratio::zero().mul_raw(y);
    let s = x.add_raw(c);
    lemma_add_normalized(x, c);
    lemma_unary_normalized(s);
    lemma_add_normalized(x.inv_raw(), c);
    assert(s.inv_raw() == x.inv_raw().add_raw(c)) by {
        assert(x.den * (1 * y.den) == x.den * (1 * y.den) + x.num * (0 * y.num))
            by (nonlinear_arith);
        assert(x.num * (1 * y.den) + x.den * (0 * y.num) == x.num * (1 * y.den))
            by (nonlinear_arith);
    }
}

/// Bottom absorbs every sum: `0/0 + x == 0/0`.
pub proof fn lemma_bottom_absorbs(x: Ratio)
    ensures
        Ratio::bottom().add(x) == Ratio::bottom(),
        x.add(Ratio::bottom()) == Ratio::bottom(),
{
    assert(Ratio::bottom().add_raw(x) == Ratio::bottom()) by {
        assert(0 * x.den + 0 * x.num == 0 && 0 * x.den == 0) by (nonlinear_arith);
    }
    assert(x.add_raw(Ratio::bottom()) == Ratio::bottom()) by {
        assert(x.num * 0 + x.den * 0 == 0 && x.den * 0 == 0) by (nonlinear_arith);
    }
    lemma_canonical_fixed(Ratio::bottom());
}

/// Zero terms add up to the zero term of the product:
/// `0 * x + 0 * y == 0 * (x * y)`, which is also `(0 * x) * y`.
pub proof fn lemma_zero_terms_sum(x: Ratio, y: Ratio)
    ensures
        Ratio::zero().mul(x).add(Ratio::zero().mul(y)) == Ratio::zero().mul(x.mul(y)),
        Ratio::zero().mul(x).add(Ratio::zero().mul(y)) == Ratio::zero().mul(x).mul(y),
{
    let o = Ratio::zero();
    let a = o.mul_raw(x);
    let b = o.mul_raw(y);
    lemma_add_normalized(a, b);
    lemma_mul_normalized(o, x.mul_raw(y));
    lemma_mul_normalized(a, y);
    assert(a.add_raw(b) == o.mul_raw(x.mul_raw(y))) by {
        assert((0 * x.num) * (1 * y.den) + (1 * x.den) * (0 * y.num) == 0 * (x.num * y.num))
            by (nonlinear_arith);
        assert((1 * x.den) * (1 * y.den) == 1 * (x.den * y.den)) by (nonlinear_arith);
    }
    assert(a.add_raw(b) == a.mul_raw(y)) by {
        assert((0 * x.num) * (1 * y.den) + (1 * x.den) * (0 * y.num) == (0 * x.num) * y.num)
            by (nonlinear_arith);
        assert((1 * x.den) * (1 * y.den) == (1 * x.den) * y.den) by (nonlinear_arith);
    }
}

/// A value divided by itself is one only up to a correction:
/// `x / x == 1 + (0 * x) / x`.
pub proof fn lemma_self_division(x: Ratio)
    ensures
        x.div(x) == Ratio::one().add(Ratio::zero().mul(x).div(x)),
{
    let o = Ratio::zero();
    let i = x.inv_raw();
    lemma_mul_normalized(x, i);
    let c = o.mul_raw(x);
    let t = c.mul_raw(i);
    lemma_mul_normalized(c, i);
    lemma_add_normalized(Ratio::one(), t);
    assert(x.mul_raw(i) == Ratio::one().add_raw(t)) by {
        assert(x.num * x.den == 1 * ((1 * x.den) * x.num) + 1 * ((0 * x.num) * x.den))
            by (nonlinear_arith);
        assert(x.den * x.num == 1 * ((1 * x.den) * x.num)) by (nonlinear_arith);
    }
}

/// A value subtracted from itself is zero only up to a correction:
/// `x - x == (0 * x) * x`.
pub proof fn lemma_self_subtraction(x: Ratio)
    ensures
        x.sub(x) == Ratio::zero().mul(x).mul(x),
{
    let o = Ratio::zero();
    let m = x.neg_raw();
    lemma_add_normalized(x, m);
    let c = o.mul_raw(x);
    lemma_mul_normalized(c, x);
    assert(x.add_raw(m) == c.mul_raw(x)) by {
        assert(x.num * x.den + x.den * (-x.num) == (0 * x.num) * x.num) by (nonlinear_arith);
        assert(x.den * x.den == (1 * x.den) * x.den) by (nonlinear_arith);
    }
}

/// What an outcome of a case table says of a result `r` computed from the
/// operands `x` and `y`. Of a natively computed result it says nothing.
pub open spec fn outcome_holds(o: Outcome, x: Ratio, y: Ratio, r: Ratio) -> bool {
    match o {
        Outcome::Bottom => r == Ratio::bottom(),
        Outcome::Infinity => r == Ratio::infinity(),
        Outcome::Zero => r == Ratio::zero(),
        Outcome::Left => r == x,
        Outcome::Right => r == y,
        Outcome::Native => true,
    }
}

/// Normalization keeps the class of a pair.
pub proof fn lemma_normalize_class(p: Ratio)
    ensures
        p.normalize().class() == p.class(),
{
    lemma_normalize_factor(p);
    let q = p.normalize();
    let k = p.factor();
    assert(k * q.num == 0 <==> q.num == 0) by (nonlinear_arith)
        requires
            k != 0,
    ;
    assert(k * q.den == 0 <==> q.den == 0) by (nonlinear_arith)
        requires
            k != 0,
    ;
}

/// The addition table is the addition of the wheel of fractions: wherever
/// the table decides without computing, the exact sum is what it decides.
pub proof fn lemma_add_table_exact(x: Ratio, y: Ratio)
    requires
        x.canonical(),
        y.canonical(),
    ensures
        outcome_holds(add_rule(x.class(), y.class()), x, y, x.add(y)),
{
    let s = x.add_raw(y);
    match add_rule(x.class(), y.class()) {
        Outcome::Bottom => {
            assert(s == Ratio::bottom()) by (nonlinear_arith)
                requires
                    s == x.add_raw(y),
                    (x.num == 0 && x.den == 0) || (y.num == 0 && y.den == 0) || (x.den == 0
                        && y.den == 0),
            ;
            lemma_canonical_fixed(Ratio::bottom());
        },
        Outcome::Infinity => {
            let k = if x.den == 0 {
                y.den
            } else {
                x.den
            };
            assert(s == Ratio::infinity().scaled(k)) by (nonlinear_arith)
                requires
                    s == x.add_raw(y),
                    (x == Ratio::infinity() && k == y.den) || (y == Ratio::infinity() && k
                        == x.den),
            ;
            lemma_normalize_multiple(Ratio::infinity(), k);
        },
        Outcome::Left => {
            assert(s == x) by (nonlinear_arith)
                requires
                    s == x.add_raw(y),
                    y == Ratio::zero(),
            ;
            lemma_canonical_fixed(x);
        },
        Outcome::Right => {
            assert(s == y) by (nonlinear_arith)
                requires
                    s == x.add_raw(y),
                    x == Ratio::zero(),
            ;
            lemma_canonical_fixed(y);
        },
        _ => {},
    }
}

/// The multiplication table is the multiplication of the wheel of fractions:
/// wherever the table decides without computing, the exact product is what
/// it decides.
pub proof fn lemma_mul_table_exact(x: Ratio, y: Ratio)
    requires
        x.canonical(),
        y.canonical(),
    ensures
        outcome_holds(mul_rule(x.class(), y.class()), x, y, x.mul(y)),
{
    let p = x.mul_raw(y);
    match mul_rule(x.class(), y.class()) {
        Outcome::Bottom => {
            assert(p == Ratio::bottom()) by (nonlinear_arith)
                requires
                    p == x.mul_raw(y),
                    (x.num == 0 && x.den == 0) || (y.num == 0 && y.den == 0) || (x.den == 0
                        && y.num == 0) || (x.num == 0 && y.den == 0),
            ;
            lemma_canonical_fixed(Ratio::bottom());
        },
        Outcome::Infinity => {
            let k = if x.den == 0 {
                y.num
            } else {
                x.num
            };
            assert(p == Ratio::infinity().scaled(k)) by (nonlinear_arith)
                requires
                    p == x.mul_raw(y),
                    (x == Ratio::infinity() && k == y.num) || (y == Ratio::infinity() && k
                        == x.num),
            ;
            lemma_normalize_multiple(Ratio::infinity(), k);
        },
        Outcome::Zero => {
            let k = if x.num == 0 {
                y.den
            } else {
                x.den
            };
            assert(p == Ratio::zero().scaled(k)) by (nonlinear_arith)
                requires
                    p == x.mul_raw(y),
                    (x == Ratio::zero() && k == y.den) || (y == Ratio::zero() && k == x.den),
            ;
            lemma_normalize_multiple(Ratio::zero(), k);
        },
        _ => {},
    }
}

/// The inversion table is the inversion of the wheel of fractions: wherever
/// the table decides without computing, the exact inverse is what it decides.
pub proof fn lemma_inv_table_exact(x: Ratio)
    requires
        x.canonical(),
    ensures
        outcome_holds(inv_rule(x.class()), x, x, x.inv()),
{
    lemma_canonical_fixed(Ratio::bottom());
    lemma_canonical_fixed(Ratio::zero());
    lemma_canonical_fixed(Ratio::infinity());
}

/// The equality table is the equality of the wheel of fractions: values that
/// the table calls equal are equal, and values that it calls unequal differ.
pub proof fn lemma_eq_table_exact(x: Ratio, y: Ratio)
    requires
        x.canonical(),
        y.canonical(),
    ensures
        eq_rule(x.class(), y.class()) is Equal ==> x == y,
        eq_rule(x.class(), y.class()) is Unequal ==> x != y,
{
}

} // verus!
