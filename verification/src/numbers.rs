//! Divisibility: what it takes to tell when a product of powers is a whole number.

use vstd::prelude::*;
use vstd::arithmetic::div_mod::lemma_fundamental_div_mod;
use vstd::arithmetic::mul::{
    lemma_mul_equality_converse, lemma_mul_is_associative, lemma_mul_is_commutative,
    lemma_mul_is_distributive_add, lemma_mul_is_distributive_add_other_way,
};
use vstd::arithmetic::power::{lemma_pow_distributes, lemma_pow_positive, pow};

verus! {

/// A common divisor with its cofactors and the coefficients that combine the two
/// numbers into it.
pub ghost struct Bezout {
    /// The common divisor.
    pub divisor: int,
    /// `x == divisor * left`.
    pub left: int,
    /// `y == divisor * right`.
    pub right: int,
    /// `s * x + t * y == divisor`.
    pub s: int,
    pub t: int,
}

/// The lowest terms of a fraction, and an initial value as a multiple of a power of
/// the reduced denominator.
pub ghost struct Reduced {
    /// What numerator and denominator have in common.
    pub common: int,
    /// The reduced numerator.
    pub a: int,
    /// The reduced denominator.
    pub b: int,
    pub unit: int,
}

/// Two numbers, the first positive, have a positive common divisor that is a
/// combination of them.
pub proof fn lemma_bezout(x: nat, y: nat) -> (found: Bezout)
    requires
        x > 0,
    ensures
        found.divisor > 0,
        found.left > 0,
        found.right >= 0,
        x == found.divisor * found.left,
        y == found.divisor * found.right,
        found.s * x + found.t * y == found.divisor,
    decreases y,
{
    if y == 0 {
        Bezout { divisor: x as int, left: 1, right: 0, s: 1, t: 0 }
    } else {
        let q = x as int / y as int;
        let rest = x as int % y as int;
        lemma_fundamental_div_mod(x as int, y as int);
        let inner = lemma_bezout(y, rest as nat);
        let g = inner.divisor;
        let left = inner.left * q + inner.right;
        assert(x == g * left) by (nonlinear_arith)
            requires
                x == y * q + rest,
                y == g * inner.left,
                rest == g * inner.right,
                left == inner.left * q + inner.right,
        ;
        assert(inner.t * x + (inner.s - inner.t * q) * y == g) by (nonlinear_arith)
            requires
                x == y * q + rest,
                inner.s * y + inner.t * rest == g,
        ;
        assert(left > 0) by (nonlinear_arith)
            requires
                x == g * left,
                x > 0,
                g > 0,
        ;
        Bezout { divisor: g, left, right: inner.left, s: inner.t, t: inner.s - inner.t * q }
    }
}

/// A number that is prime to another is prime to its powers.
pub proof fn lemma_prime_to_power(a: int, b: int, s: int, t: int, exponent: nat) -> (found: (
    int,
    int,
))
    requires
        s * a + t * b == 1,
    ensures
        found.0 * a + found.1 * pow(b, exponent) == 1,
    decreases exponent,
{
    reveal(pow);
    if exponent == 0 {
        (0, 1)
    } else {
        let inner = lemma_prime_to_power(a, b, s, t, (exponent - 1) as nat);
        let lower = pow(b, (exponent - 1) as nat);
        let u = inner.0;
        let v = inner.1;
        let tb = t * b;
        let left = s + tb * u;
        let right = t * v;
        assert(tb * (v * lower) == right * (b * lower)) by {
            lemma_mul_is_associative(t, b, v * lower);
            lemma_mul_is_associative(b, v, lower);
            lemma_mul_is_commutative(b, v);
            lemma_mul_is_associative(v, b, lower);
            lemma_mul_is_associative(t, v, b * lower);
        }
        assert(tb * (u * a + v * lower) == (tb * u) * a + right * (b * lower)) by {
            lemma_mul_is_distributive_add(tb, u * a, v * lower);
            lemma_mul_is_associative(tb, u, a);
        }
        assert(left * a == s * a + (tb * u) * a) by {
            lemma_mul_is_distributive_add_other_way(a, s, tb * u);
        }
        assert(tb * (u * a + v * lower) == tb);
        assert(left * a + right * (b * lower) == 1);
        (left, right)
    }
}

/// What divides a product and is prime to one factor divides the other.
pub proof fn lemma_divides_other_factor(a: int, big: int, s: int, t: int, c: int, q: int) -> (r:
    int)
    requires
        s * a + t * big == 1,
        a * c == big * q,
    ensures
        c == big * r,
{
    let r = s * q + t * c;
    assert(c == big * r) by (nonlinear_arith)
        requires
            s * a + t * big == 1,
            a * c == big * q,
            r == s * q + t * c,
    ;
    r
}

/// What divides `c * a^j` and is prime to `a` divides `c`.
pub proof fn lemma_divides_without_power(
    a: int,
    big: int,
    s: int,
    t: int,
    c: int,
    exponent: nat,
    q: int,
) -> (r: int)
    requires
        s * a + t * big == 1,
        c * pow(a, exponent) == big * q,
    ensures
        c == big * r,
    decreases exponent,
{
    reveal(pow);
    if exponent == 0 {
        assert(c == big * q) by (nonlinear_arith)
            requires
                c * 1 == big * q,
        ;
        q
    } else {
        let lower = pow(a, (exponent - 1) as nat);
        assert(a * (c * lower) == big * q) by (nonlinear_arith)
            requires
                c * (a * lower) == big * q,
        ;
        let inner = lemma_divides_other_factor(a, big, s, t, c * lower, q);
        lemma_divides_without_power(a, big, s, t, c, (exponent - 1) as nat, inner)
    }
}

/// Where `start * num^k` is the whole multiple `whole * den^k`, the fraction
/// `num / den` reduces to some `a / b` for which `start` is a multiple of `b^k`, and
/// `whole` is that multiple times `a^k`.
pub proof fn lemma_whole_product(start: nat, num: nat, den: nat, exponent: nat, whole: nat) -> (found:
    Reduced)
    requires
        num > 0,
        den > 0,
        start * pow(num as int, exponent) == whole * pow(den as int, exponent),
    ensures
        found.common > 0,
        found.a > 0,
        found.b > 0,
        found.unit >= 0,
        num == found.common * found.a,
        den == found.common * found.b,
        start == found.unit * pow(found.b, exponent),
        whole == found.unit * pow(found.a, exponent),
{
    let bezout = lemma_bezout(num, den);
    let g = bezout.divisor;
    let a = bezout.left;
    let b = bezout.right;
    assert(b > 0) by (nonlinear_arith)
        requires
            den == g * b,
            den > 0,
            g > 0,
            b >= 0,
    ;
    assert(g * (bezout.s * a + bezout.t * b) == g * 1) by (nonlinear_arith)
        requires
            bezout.s * num + bezout.t * den == g,
            num == g * a,
            den == g * b,
    ;
    lemma_mul_equality_converse(g, bezout.s * a + bezout.t * b, 1);
    let ga = pow(g, exponent);
    let pa = pow(a, exponent);
    let pb = pow(b, exponent);
    lemma_pow_distributes(g, a, exponent);
    lemma_pow_distributes(g, b, exponent);
    lemma_pow_positive(g, exponent);
    lemma_pow_positive(a, exponent);
    lemma_pow_positive(b, exponent);
    assert(pow(num as int, exponent) == ga * pa);
    assert(pow(den as int, exponent) == ga * pb);
    assert(ga * (start * pa) == ga * (whole * pb)) by (nonlinear_arith)
        requires
            start * (ga * pa) == whole * (ga * pb),
    ;
    lemma_mul_equality_converse(ga, start * pa, whole * pb);
    let prime = lemma_prime_to_power(a, b, bezout.s, bezout.t, exponent);
    assert(start * pa == pb * whole) by (nonlinear_arith)
        requires
            start * pa == whole * pb,
    ;
    let unit = lemma_divides_without_power(a, pb, prime.0, prime.1, start as int, exponent, whole as int);
    assert(unit >= 0) by (nonlinear_arith)
        requires
            start == pb * unit,
            start >= 0,
            pb > 0,
    ;
    assert(pb * (unit * pa) == pb * whole) by (nonlinear_arith)
        requires
            start == pb * unit,
            start * pa == pb * whole,
    ;
    lemma_mul_equality_converse(pb, unit * pa, whole as int);
    assert(start == unit * pb) by (nonlinear_arith)
        requires
            start == pb * unit,
    ;
    Reduced { common: g, a, b, unit }
}

} // verus!
