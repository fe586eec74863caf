//! Integer facts behind exact ratios: magnitude, truncating division and the
//! greatest common divisor, with the lemmas that the rest of the crate builds on.
//!
//! Divisibility of `n` by a positive `d` is written `n % d == 0` throughout.

use vstd::arithmetic::div_mod::*;
use vstd::arithmetic::mul::*;
use vstd::prelude::*;

verus! {

/// The absolute value of `v`.
pub open spec fn magnitude(v: int) -> int {
    if v < 0 {
        -v
    } else {
        v
    }
}

/// The quotient of `a` by `b` rounded towards zero, as machine integers divide.
pub open spec fn trunc_div(a: int, b: int) -> int {
    if a >= 0 {
        a / b
    } else {
        -((-a) / b)
    }
}

/// The remainder that goes with [`trunc_div`]: it has the sign of `a`.
pub open spec fn trunc_rem(a: int, b: int) -> int {
    if a >= 0 {
        a % b
    } else {
        -((-a) % b)
    }
}

/// What the Euclidean algorithm leaves of two non-negative integers: their
/// greatest common divisor, and `0` when both are `0`.
pub open spec fn euclid(a: int, b: int) -> int
    decreases b,
{
    if b <= 0 {
        a
    } else {
        proof {
            lemma_mod_bound(a, b);
        }
        euclid(b, a % b)
    }
}

/// The greatest common divisor of `|a|` and `|b|`, taken to be `1` when both
/// are `0`, so that it can always be divided by.
pub open spec fn gcd(a: int, b: int) -> int {
    let e = euclid(magnitude(a), magnitude(b));
    if e == 0 {
        1
    } else {
        e
    }
}

/// A multiple of a positive `d` leaves no remainder.
pub proof fn lemma_multiple_divides(d: int, k: int)
    requires
        d > 0,
    ensures
        (d * k) % d == 0,
        (d * k) / d == k,
{
    lemma_mod_multiples_basic(k, d);
    lemma_mul_is_commutative(k, d);
    lemma_div_multiples_vanish(k, d);
}

/// What `d` divides is `d` times the quotient.
pub proof fn lemma_divides_quotient(n: int, d: int)
    requires
        d > 0,
        n % d == 0,
    ensures
        n == d * (n / d),
{
    lemma_fundamental_div_mod(n, d);
}

/// A divisor of a positive integer is no larger than it.
pub proof fn lemma_divisor_bound(n: int, d: int)
    requires
        d > 0,
        n > 0,
        n % d == 0,
    ensures
        d <= n,
        n / d >= 1,
{
    lemma_divides_quotient(n, d);
    let q = n / d;
    assert(q >= 1) by (nonlinear_arith)
        requires
            n == d * q,
            d > 0,
            n > 0,
    ;
    assert(d <= d * q) by (nonlinear_arith)
        requires
            q >= 1,
            d > 0,
    ;
}

/// Two positive integers that divide each other are equal.
pub proof fn lemma_mutual_divisors(a: int, b: int)
    requires
        a > 0,
        b > 0,
        a % b == 0,
        b % a == 0,
    ensures
        a == b,
{
    lemma_divisor_bound(a, b);
    lemma_divisor_bound(b, a);
}

/// A common divisor of `a` and `b` divides `a*x + b*y`.
pub proof fn lemma_divides_combination(d: int, a: int, x: int, b: int, y: int)
    requires
        d > 0,
        a % d == 0,
        b % d == 0,
    ensures
        (a * x + b * y) % d == 0,
{
    lemma_divides_quotient(a, d);
    lemma_divides_quotient(b, d);
    let p = a / d;
    let q = b / d;
    assert(a * x + b * y == d * (p * x + q * y)) by (nonlinear_arith)
        requires
            a == d * p,
            b == d * q,
    ;
    lemma_multiple_divides(d, p * x + q * y);
}

/// A common divisor of `a` and `b` divides the remainder of `a` by `b`.
pub proof fn lemma_divides_remainder(d: int, a: int, b: int)
    requires
        d > 0,
        b > 0,
        a % d == 0,
        b % d == 0,
    ensures
        (a % b) % d == 0,
{
    lemma_fundamental_div_mod(a, b);
    let q = a / b;
    lemma_divides_combination(d, a, 1, b, -q);
    assert(a * 1 + b * (-q) == a % b) by (nonlinear_arith)
        requires
            a == b * q + (a % b),
    ;
}

/// What divides `b` and the remainder of `a` by `b` divides `a`.
pub proof fn lemma_divides_dividend(d: int, a: int, b: int)
    requires
        d > 0,
        b > 0,
        b % d == 0,
        (a % b) % d == 0,
    ensures
        a % d == 0,
{
    lemma_fundamental_div_mod(a, b);
    let q = a / b;
    lemma_divides_combination(d, b, q, a % b, 1);
    assert(b * q + (a % b) * 1 == a) by (nonlinear_arith)
        requires
            a == b * q + (a % b),
    ;
}

/// The Euclidean algorithm never goes below zero, and gives zero only for two
/// zeros.
pub proof fn lemma_euclid_sign(a: int, b: int)
    requires
        a >= 0,
        b >= 0,
    ensures
        euclid(a, b) >= 0,
        euclid(a, b) == 0 <==> (a == 0 && b == 0),
    decreases b,
{
    if b > 0 {
        lemma_mod_bound(a, b);
        lemma_euclid_sign(b, a % b);
    }
}

/// The result of the Euclidean algorithm divides both of its arguments.
pub proof fn lemma_euclid_divides(a: int, b: int)
    requires
        a >= 0,
        b >= 0,
        a != 0 || b != 0,
    ensures
        euclid(a, b) > 0,
        a % euclid(a, b) == 0,
        b % euclid(a, b) == 0,
    decreases b,
{
    lemma_euclid_sign(a, b);
    let g = euclid(a, b);
    if b > 0 {
        lemma_mod_bound(a, b);
        lemma_euclid_divides(b, a % b);
        lemma_divides_dividend(g, a, b);
    } else {
        lemma_multiple_divides(g, 1);
        lemma_multiple_divides(g, 0);
        assert(g * 1 == a);
        assert(g * 0 == b);
    }
}

/// Every common divisor of `a` and `b` divides the result of the Euclidean
/// algorithm, which is therefore the greatest of them.
pub proof fn lemma_euclid_greatest(a: int, b: int, d: int)
    requires
        a >= 0,
        b >= 0,
        d > 0,
        a % d == 0,
        b % d == 0,
    ensures
        euclid(a, b) % d == 0,
        (a != 0 || b != 0) ==> d <= euclid(a, b),
    decreases b,
{
    if b > 0 {
        lemma_mod_bound(a, b);
        lemma_divides_remainder(d, a, b);
        lemma_euclid_greatest(b, a % b, d);
    }
    if a != 0 || b != 0 {
        lemma_euclid_sign(a, b);
        lemma_divisor_bound(euclid(a, b), d);
    }
}

/// The Euclidean algorithm gives the same result for its arguments in either
/// order.
pub proof fn lemma_euclid_symmetric(a: int, b: int)
    requires
        a >= 0,
        b >= 0,
    ensures
        euclid(a, b) == euclid(b, a),
{
    lemma_euclid_sign(a, b);
    lemma_euclid_sign(b, a);
    if a != 0 || b != 0 {
        lemma_euclid_divides(a, b);
        lemma_euclid_divides(b, a);
        lemma_euclid_greatest(a, b, euclid(b, a));
        lemma_euclid_greatest(b, a, euclid(a, b));
        lemma_mutual_divisors(euclid(a, b), euclid(b, a));
    }
}

/// Scaling both arguments by a positive factor scales the result by it.
pub proof fn lemma_euclid_scales(k: int, a: int, b: int)
    requires
        k > 0,
        a >= 0,
        b >= 0,
    ensures
        euclid(k * a, k * b) == k * euclid(a, b),
    decreases b,
{
    if b > 0 {
        lemma_mod_bound(a, b);
        lemma_truncate_middle(a, k, b);
        assert(k * b > 0);
        assert(euclid(k * a, k * b) == euclid(k * b, (k * a) % (k * b)));
        lemma_euclid_scales(k, b, a % b);
    } else {
        assert(k * b == 0) by (nonlinear_arith)
            requires
                b == 0,
        ;
    }
}

/// Divided by their greatest common divisor, two integers have no common
/// divisor left but `1`.
pub proof fn lemma_euclid_reduced(a: int, b: int)
    requires
        a >= 0,
        b >= 0,
        a != 0 || b != 0,
    ensures
        euclid(a / euclid(a, b), b / euclid(a, b)) == 1,
{
    lemma_euclid_divides(a, b);
    let g = euclid(a, b);
    lemma_divides_quotient(a, g);
    lemma_divides_quotient(b, g);
    lemma_div_pos_is_pos(a, g);
    lemma_div_pos_is_pos(b, g);
    lemma_euclid_scales(g, a / g, b / g);
    let r = euclid(a / g, b / g);
    assert(r == 1) by (nonlinear_arith)
        requires
            g == g * r,
            g > 0,
    ;
}

/// Euclid's lemma: what divides a product and has no common divisor with one
/// factor divides the other.
pub proof fn lemma_coprime_factor(a: int, m: int, c: int)
    requires
        a >= 0,
        m > 0,
        c >= 0,
        euclid(a, m) == 1,
        (a * c) % m == 0,
    ensures
        c % m == 0,
{
    if c > 0 {
        lemma_euclid_scales(c, a, m);
        lemma_mul_is_commutative(a, c);
        lemma_mul_is_commutative(m, c);
        lemma_multiple_divides(m, c);
        lemma_mul_nonnegative(c, a);
        lemma_mul_nonnegative(c, m);
        lemma_euclid_greatest(c * a, c * m, m);
        assert(c * 1 == c);
    } else {
        lemma_multiple_divides(m, 0);
        assert(m * 0 == c);
    }
}

/// The greatest common divisor is positive and divides both magnitudes.
pub proof fn lemma_gcd_divides(a: int, b: int)
    ensures
        gcd(a, b) >= 1,
        magnitude(a) % gcd(a, b) == 0,
        magnitude(b) % gcd(a, b) == 0,
        a % gcd(a, b) == 0,
        b % gcd(a, b) == 0,
        (a == 0 && b == 0) ==> gcd(a, b) == 1,
        (a != 0 || b != 0) ==> gcd(a, b) <= magnitude(a) + magnitude(b),
{
    let x = magnitude(a);
    let y = magnitude(b);
    lemma_euclid_sign(x, y);
    let g = gcd(a, b);
    if a != 0 || b != 0 {
        lemma_euclid_divides(x, y);
        if x > 0 {
            lemma_divisor_bound(x, g);
        } else {
            lemma_divisor_bound(y, g);
        }
    } else {
        lemma_multiple_divides(1, 0);
    }
    lemma_signed_divides(a, g);
    lemma_signed_divides(b, g);
}

/// Every common divisor of `a` and `b` divides their greatest common divisor.
pub proof fn lemma_gcd_greatest(a: int, b: int, d: int)
    requires
        d > 0,
        a % d == 0,
        b % d == 0,
        a != 0 || b != 0,
    ensures
        gcd(a, b) % d == 0,
        d <= gcd(a, b),
{
    lemma_magnitude_divides(a, d);
    lemma_magnitude_divides(b, d);
    lemma_euclid_sign(magnitude(a), magnitude(b));
    lemma_euclid_greatest(magnitude(a), magnitude(b), d);
}

/// `d` divides `n` as soon as it divides the magnitude of `n`.
pub proof fn lemma_signed_divides(n: int, d: int)
    requires
        d > 0,
        magnitude(n) % d == 0,
    ensures
        n % d == 0,
        n == d * (n / d),
        magnitude(n) == d * magnitude(n / d),
        n < 0 ==> n / d == -(magnitude(n) / d),
{
    let m = magnitude(n);
    lemma_divides_quotient(m, d);
    let q = m / d;
    lemma_div_pos_is_pos(m, d);
    if n < 0 {
        assert(n == d * (-q)) by (nonlinear_arith)
            requires
                -n == d * q,
        ;
        lemma_multiple_divides(d, -q);
    }
    lemma_divides_quotient(n, d);
}

/// `d` divides the magnitude of what it divides.
pub proof fn lemma_magnitude_divides(n: int, d: int)
    requires
        d > 0,
        n % d == 0,
    ensures
        magnitude(n) % d == 0,
{
    if n < 0 {
        lemma_divides_quotient(n, d);
        let q = n / d;
        assert(-n == d * (-q)) by (nonlinear_arith)
            requires
                n == d * q,
        ;
        lemma_multiple_divides(d, -q);
    }
}

/// The magnitude of a product is the product of the magnitudes.
pub proof fn lemma_magnitude_product(a: int, b: int)
    ensures
        magnitude(a * b) == magnitude(a) * magnitude(b),
{
    assert(magnitude(a * b) == magnitude(a) * magnitude(b)) by (nonlinear_arith);
}

/// The greatest common divisor does not depend on the order of its arguments.
pub proof fn lemma_gcd_symmetric(a: int, b: int)
    ensures
        gcd(a, b) == gcd(b, a),
{
    lemma_euclid_symmetric(magnitude(a), magnitude(b));
}

/// The greatest common divisor of an integer and zero is the integer's
/// magnitude, or `1` for two zeros.
pub proof fn lemma_gcd_with_zero(a: int)
    ensures
        a != 0 ==> gcd(a, 0) == magnitude(a) && gcd(0, a) == magnitude(a),
        gcd(0, 0) == 1,
{
    lemma_gcd_symmetric(a, 0);
}

/// Scaling two integers, not both zero, by a non-zero factor scales their
/// greatest common divisor by the factor's magnitude.
pub proof fn lemma_gcd_scales(k: int, a: int, b: int)
    requires
        k != 0,
        a != 0 || b != 0,
    ensures
        gcd(k * a, k * b) == magnitude(k) * gcd(a, b),
{
    lemma_magnitude_product(k, a);
    lemma_magnitude_product(k, b);
    lemma_euclid_scales(magnitude(k), magnitude(a), magnitude(b));
    lemma_euclid_sign(magnitude(a), magnitude(b));
    let e = euclid(magnitude(a), magnitude(b));
    assert(magnitude(k) * e != 0) by (nonlinear_arith)
        requires
            magnitude(k) > 0,
            e > 0,
    ;
}

/// Divided by their greatest common divisor, two integers have `1` as their
/// greatest common divisor; the division commutes with taking magnitudes.
pub proof fn lemma_gcd_reduced(a: int, b: int)
    ensures
        gcd(a / gcd(a, b), b / gcd(a, b)) == 1,
        magnitude(a / gcd(a, b)) == magnitude(a) / gcd(a, b),
        magnitude(b / gcd(a, b)) == magnitude(b) / gcd(a, b),
{
    let g = gcd(a, b);
    lemma_gcd_divides(a, b);
    lemma_signed_divides(a, g);
    lemma_signed_divides(b, g);
    lemma_multiple_divides(g, magnitude(a / g));
    lemma_multiple_divides(g, magnitude(b / g));
    if a != 0 || b != 0 {
        lemma_euclid_reduced(magnitude(a), magnitude(b));
    }
}

/// Euclid's lemma for signed integers: a positive `m` that divides `a * c`
/// and has no common divisor with `a` divides `c`.
pub proof fn lemma_gcd_coprime_factor(a: int, m: int, c: int)
    requires
        m > 0,
        gcd(a, m) == 1,
        (a * c) % m == 0,
    ensures
        c % m == 0,
{
    lemma_magnitude_divides(a * c, m);
    lemma_magnitude_product(a, c);
    lemma_euclid_sign(magnitude(a), m);
    lemma_coprime_factor(magnitude(a), m, magnitude(c));
    lemma_signed_divides(c, m);
}

/// An integer and `1` have `1` as their greatest common divisor.
pub proof fn lemma_gcd_with_one(a: int)
    ensures
        gcd(a, 1) == 1,
        gcd(1, a) == 1,
{
    lemma_gcd_divides(a, 1);
    lemma_divisor_bound(1, gcd(a, 1));
    lemma_gcd_symmetric(a, 1);
}

/// An exact quotient by a positive divisor lies between zero and the
/// dividend, and is what the division rounded towards zero gives.
pub proof fn lemma_exact_quotient_between(n: int, d: int)
    requires
        d > 0,
        n % d == 0,
    ensures
        trunc_div(n, d) == n / d,
        n >= 0 ==> 0 <= n / d <= n,
        n <= 0 ==> n <= n / d <= 0,
        n != 0 ==> n / d != 0,
{
    lemma_magnitude_divides(n, d);
    lemma_signed_divides(n, d);
    let q = n / d;
    assert(magnitude(q) <= magnitude(n)) by (nonlinear_arith)
        requires
            magnitude(n) == d * magnitude(q),
            d >= 1,
            magnitude(q) >= 0,
    ;
    assert(n >= 0 ==> q >= 0) by (nonlinear_arith)
        requires
            n == d * q,
            d >= 1,
    ;
    assert(n <= 0 ==> q <= 0) by (nonlinear_arith)
        requires
            n == d * q,
            d >= 1,
    ;
    assert(n != 0 ==> q != 0) by (nonlinear_arith)
        requires
            n == d * q,
    ;
}

} // verus!
