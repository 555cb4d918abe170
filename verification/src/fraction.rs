//! Exact fractions: the mathematics behind source steps.

use vstd::arithmetic::div_mod::*;
use vstd::arithmetic::mul::*;
use vstd::arithmetic::power2::*;
use vstd::prelude::*;

verus! {

/// A fraction as a pair of integers.
#[verifier::ext_equal]
pub struct Frac {
    pub num: int,
    pub den: int,
}

pub open spec fn abs(n: int) -> nat {
    if n < 0 {
        (-n) as nat
    } else {
        n as nat
    }
}

/// The greatest common divisor, by Euclid's algorithm.
pub open spec fn gcd(a: nat, b: nat) -> nat
    decreases b,
{
    if b == 0 {
        a
    } else {
        gcd(b, a % b)
    }
}

/// The fraction in lowest terms with a positive denominator.
pub open spec fn frac(num: int, den: int) -> Frac {
    if num == 0 {
        Frac { num: 0, den: 1 }
    } else {
        let g = gcd(abs(num), abs(den)) as int;
        let size = abs(num) as int / g;
        Frac {
            num: if (num < 0) == (den < 0) {
                size
            } else {
                -size
            },
            den: abs(den) as int / g,
        }
    }
}

pub open spec fn whole(n: int) -> Frac {
    Frac { num: n, den: 1 }
}

/// Two fractions have the same value.
pub open spec fn same_value(a: Frac, b: Frac) -> bool {
    a.num * b.den == b.num * a.den
}

/// A fraction with a positive denominator that shares no factor with the
/// numerator.
pub open spec fn lowest(a: Frac) -> bool {
    a.den > 0 && gcd(abs(a.num), a.den as nat) == 1
}

/// Numerator and denominator can be held in 64 bits.
pub open spec fn fits(a: Frac) -> bool {
    i64::MIN <= a.num <= i64::MAX && i64::MIN <= a.den <= i64::MAX
}

/// The fraction in lowest terms, if there is one that can be held.
pub open spec fn held(num: int, den: int) -> Option<Frac> {
    if den != 0 && fits(frac(num, den)) {
        Some(frac(num, den))
    } else {
        None
    }
}

pub open spec fn plus(a: Frac, b: Frac) -> Option<Frac> {
    if a.den > 0 && b.den > 0 {
        held(a.num * b.den + b.num * a.den, a.den * b.den)
    } else {
        None
    }
}

pub open spec fn minus(a: Frac, b: Frac) -> Option<Frac> {
    if a.den > 0 && b.den > 0 {
        held(a.num * b.den - b.num * a.den, a.den * b.den)
    } else {
        None
    }
}

pub open spec fn times(a: Frac, n: int) -> Option<Frac> {
    held(a.num * n, a.den)
}

pub open spec fn over(a: Frac, n: int) -> Option<Frac> {
    held(a.num, a.den * n)
}

pub open spec fn less(a: Frac, b: Frac) -> bool {
    a.num * b.den < b.num * a.den
}

/// The sum of a length and its dots, each half of the one before.
pub open spec fn dotted(base: Frac, last: Frac, dots: nat) -> Option<Frac>
    decreases dots,
{
    if dots == 0 {
        Some(base)
    } else {
        match over(last, 2) {
            Some(half) => match plus(base, half) {
                Some(sum) => dotted(sum, half, (dots - 1) as nat),
                None => None,
            },
            None => None,
        }
    }
}

/// Division rounded to the nearest integer, halves away from zero.
pub open spec fn div_round(num: int, den: int) -> int {
    if num >= 0 {
        (num + den / 2) / den
    } else {
        -((-num + den / 2) / den)
    }
}

// ---------------------------------------------------------------------------
// Facts
// ---------------------------------------------------------------------------
proof fn gcd_positive(a: nat, b: nat)
    requires
        a > 0 || b > 0,
    ensures
        gcd(a, b) > 0,
    decreases b,
{
    if b != 0 {
        gcd_positive(b, a % b);
    }
}

/// The greatest common divisor divides both numbers.
pub proof fn gcd_divides(a: nat, b: nat)
    requires
        a > 0 || b > 0,
    ensures
        gcd(a, b) > 0,
        a % gcd(a, b) == 0,
        b % gcd(a, b) == 0,
    decreases b,
{
    gcd_positive(a, b);
    let g = gcd(a, b) as int;
    if b == 0 {
        lemma_mod_self_0(a as int);
    } else {
        gcd_divides(b, a % b);
        let q = a as int / b as int;
        let r = a as int % b as int;
        lemma_fundamental_div_mod(a as int, b as int);
        lemma_fundamental_div_mod(b as int, g);
        lemma_fundamental_div_mod(r, g);
        let bk = b as int / g;
        let rk = r / g;
        assert(a as int == g * (bk * q + rk)) by (nonlinear_arith)
            requires
                a as int == b as int * q + r,
                b as int == g * bk,
                r == g * rk,
        ;
        lemma_mod_multiples_basic(bk * q + rk, g);
        lemma_mul_is_commutative(g, bk * q + rk);
    }
}

/// Every common divisor divides the greatest one.
pub proof fn gcd_greatest(a: nat, b: nat, d: nat)
    requires
        d > 0,
        a % d == 0,
        b % d == 0,
    ensures
        gcd(a, b) % d == 0,
    decreases b,
{
    if b != 0 {
        let q = a as int / b as int;
        let r = a as int % b as int;
        lemma_fundamental_div_mod(a as int, b as int);
        lemma_fundamental_div_mod(a as int, d as int);
        lemma_fundamental_div_mod(b as int, d as int);
        let ak = a as int / d as int;
        let bk = b as int / d as int;
        assert(r == d as int * (ak - bk * q)) by (nonlinear_arith)
            requires
                a as int == b as int * q + r,
                a as int == d as int * ak,
                b as int == d as int * bk,
        ;
        lemma_mod_multiples_basic(ak - bk * q, d as int);
        lemma_mul_is_commutative(d as int, ak - bk * q);
        gcd_greatest(b, a % b, d);
    }
}

proof fn gcd_of_quotients(a: nat, b: nat)
    requires
        a > 0,
        b > 0,
    ensures
        gcd(a / gcd(a, b), b / gcd(a, b)) == 1,
{
    gcd_divides(a, b);
    let g = gcd(a, b);
    let x = a / g;
    let y = b / g;
    lemma_fundamental_div_mod(a as int, g as int);
    lemma_fundamental_div_mod(b as int, g as int);
    assert(x > 0) by (nonlinear_arith)
        requires
            a == g * x,
            a > 0,
    ;
    assert(y > 0) by (nonlinear_arith)
        requires
            b == g * y,
            b > 0,
    ;
    gcd_divides(x, y);
    let h = gcd(x, y);
    lemma_fundamental_div_mod(x as int, h as int);
    lemma_fundamental_div_mod(y as int, h as int);
    let xk = x as int / h as int;
    let yk = y as int / h as int;
    let gh = (g * h) as int;
    assert(gh > 0 && a as int == gh * xk && b as int == gh * yk) by (nonlinear_arith)
        requires
            a as int == g as int * x as int,
            b as int == g as int * y as int,
            x as int == h as int * xk,
            y as int == h as int * yk,
            gh == (g * h) as int,
            g > 0,
            h > 0,
    ;
    lemma_mod_multiples_basic(xk, gh);
    lemma_mod_multiples_basic(yk, gh);
    lemma_mul_is_commutative(gh, xk);
    lemma_mul_is_commutative(gh, yk);
    gcd_greatest(a, b, gh as nat);
    lemma_fundamental_div_mod(g as int, gh);
    let k = g as int / gh;
    assert(h == 1) by (nonlinear_arith)
        requires
            g as int == gh * k,
            gh == (g * h) as int,
            g > 0,
            h > 0,
    ;
}

/// Reducing keeps the value and gives lowest terms.
pub proof fn frac_reduces(num: int, den: int)
    requires
        den != 0,
    ensures
        lowest(frac(num, den)),
        frac(num, den).num * den == num * frac(num, den).den,
{
    if num == 0 {
        assert(gcd(0, 1) == 1) by {
            reveal_with_fuel(gcd, 3);
        }
    } else {
        let a = abs(num);
        let b = abs(den);
        let g = gcd(a, b);
        gcd_divides(a, b);
        gcd_of_quotients(a, b);
        lemma_fundamental_div_mod(a as int, g as int);
        lemma_fundamental_div_mod(b as int, g as int);
        let x = a as int / g as int;
        let y = b as int / g as int;
        let f = frac(num, den);
        assert(y > 0) by (nonlinear_arith)
            requires
                b as int == g as int * y,
                b > 0,
        ;
        assert(x > 0) by (nonlinear_arith)
            requires
                a as int == g as int * x,
                a > 0,
        ;
        assert(f.num * den == num * f.den) by (nonlinear_arith)
            requires
                a as int == g as int * x,
                b as int == g as int * y,
                f.den == y,
                (num < 0) == (den < 0) ==> f.num == x,
                (num < 0) != (den < 0) ==> f.num == -x,
                num == (if num < 0 { -(a as int) } else { a as int }),
                den == (if den < 0 { -(b as int) } else { b as int }),
        ;
    }
}

proof fn euclid_lemma(p: int, q: int, r: int, s: int)
    requires
        p > 0,
        q > 0,
        r > 0,
        s > 0,
        p * s == r * q,
        gcd(p as nat, q as nat) == 1,
        gcd(r as nat, s as nat) == 1,
    ensures
        p == r,
        q == s,
{
    gcd_scaled(p as nat, q as nat, r as nat);
    gcd_scaled(r as nat, s as nat, p as nat);
    assert(r as nat * p as nat == p as nat * r as nat) by (nonlinear_arith);
    assert(r as nat * q as nat == p as nat * s as nat) by (nonlinear_arith)
        requires
            p * s == r * q,
            p > 0,
            q > 0,
            r > 0,
            s > 0,
    ;
    assert(r as nat * 1 == p as nat * 1);
    assert(q == s) by (nonlinear_arith)
        requires
            p == r,
            p > 0,
            p * s == r * q,
    ;
}

/// Multiplying both numbers multiplies their greatest common divisor.
pub proof fn gcd_scaled(a: nat, b: nat, k: nat)
    requires
        k > 0,
    ensures
        gcd(k * a, k * b) == k * gcd(a, b),
    decreases b,
{
    if b == 0 {
        assert(k * b == 0) by (nonlinear_arith)
            requires
                b == 0,
        ;
    } else {
        gcd_scaled(b, a % b, k);
        assert(k * b > 0) by (nonlinear_arith)
            requires
                k > 0,
                b > 0,
        ;
        assert((k * a) % (k * b) == k * (a % b)) by {
            let q = a as int / b as int;
            let r = a as int % b as int;
            lemma_fundamental_div_mod(a as int, b as int);
            assert((k * a) as int == (k * b) as int * q + k * r && 0 <= k * r < k * b)
                by (nonlinear_arith)
                requires
                    a as int == b as int * q + r,
                    0 <= r < b,
                    k > 0,
            ;
            lemma_fundamental_div_mod_converse((k * a) as int, (k * b) as int, q, k * r);
        }
    }
}

/// A value has one fraction in lowest terms.
pub proof fn lowest_is_unique(a: Frac, b: Frac)
    requires
        lowest(a),
        lowest(b),
        same_value(a, b),
    ensures
        a == b,
{
    if a.num == 0 {
        assert(b.num == 0) by (nonlinear_arith)
            requires
                a.num * b.den == b.num * a.den,
                a.num == 0,
                a.den > 0,
        ;
        reveal_with_fuel(gcd, 3);
        assert(gcd(0, a.den as nat) == a.den as nat);
        assert(gcd(0, b.den as nat) == b.den as nat);
    } else if a.num > 0 {
        assert(b.num > 0) by (nonlinear_arith)
            requires
                a.num * b.den == b.num * a.den,
                a.num > 0,
                a.den > 0,
                b.den > 0,
        ;
        euclid_lemma(a.num, a.den, b.num, b.den);
    } else {
        assert(b.num < 0) by (nonlinear_arith)
            requires
                a.num * b.den == b.num * a.den,
                a.num < 0,
                a.den > 0,
                b.den > 0,
        ;
        assert((-a.num) * b.den == (-b.num) * a.den) by (nonlinear_arith)
            requires
                a.num * b.den == b.num * a.den,
        ;
        euclid_lemma(-a.num, a.den, -b.num, b.den);
    }
}

/// Addition does not depend on the order of its terms.
pub proof fn plus_commutes(a: Frac, b: Frac)
    ensures
        plus(a, b) == plus(b, a),
{
    assert(a.den * b.den == b.den * a.den) by (nonlinear_arith);
}

/// A sum has the value of the sum.
pub proof fn plus_adds(a: Frac, b: Frac)
    requires
        plus(a, b) is Some,
    ensures
        lowest(plus(a, b)->0),
        (plus(a, b)->0).num * (a.den * b.den) == (a.num * b.den + b.num * a.den) * (plus(
            a,
            b,
        )->0).den,
{
    frac_reduces(a.num * b.den + b.num * a.den, a.den * b.den);
}

/// Rounding to the nearest integer keeps the order.
pub proof fn div_round_monotone(a: int, b: int, den: int)
    requires
        a <= b,
        den > 0,
    ensures
        div_round(a, den) <= div_round(b, den),
{
    if a >= 0 {
        lemma_div_is_ordered(a + den / 2, b + den / 2, den);
    } else if b < 0 {
        lemma_div_is_ordered(-b + den / 2, -a + den / 2, den);
    } else {
        lemma_div_pos_is_pos(-a + den / 2, den);
        lemma_div_pos_is_pos(b + den / 2, den);
    }
}

/// Fractions with positive denominators are ordered transitively.
pub proof fn order_is_transitive(a: Frac, b: Frac, c: Frac)
    requires
        a.den > 0,
        b.den > 0,
        c.den > 0,
        !less(a, b),
        !less(b, c),
    ensures
        !less(a, c),
{
    let (p, q, r) = (a.num, b.num, c.num);
    let (x, y, z) = (a.den, b.den, c.den);
    assert(p * z >= r * x) by (nonlinear_arith)
        requires
            x > 0,
            y > 0,
            z > 0,
            p * y >= q * x,
            q * z >= r * y,
    {
        assert(p * y * z >= q * x * z);
        assert(q * z * x >= r * y * x);
        assert(y * (p * z) >= y * (r * x));
    }
}

/// What is left of a larger fraction is positive.
pub proof fn minus_is_positive(a: Frac, b: Frac)
    requires
        minus(a, b) is Some,
        less(b, a),
    ensures
        minus(a, b)->0.num > 0,
        minus(a, b)->0.den > 0,
{
    let n = a.num * b.den - b.num * a.den;
    let d = a.den * b.den;
    assert(d > 0) by (nonlinear_arith)
        requires
            d == a.den * b.den,
            a.den > 0,
            b.den > 0,
    ;
    reduced_is_positive(n, d);
}

/// A part of a positive fraction is positive.
pub proof fn over_is_positive(a: Frac, n: int)
    requires
        over(a, n) is Some,
        a.num > 0,
        a.den > 0,
        n > 0,
    ensures
        over(a, n)->0.num > 0,
        over(a, n)->0.den > 0,
{
    let d = a.den * n;
    assert(d > 0) by (nonlinear_arith)
        requires
            d == a.den * n,
            a.den > 0,
            n > 0,
    ;
    reduced_is_positive(a.num, d);
}

proof fn reduced_is_positive(num: int, den: int)
    requires
        num > 0,
        den > 0,
    ensures
        frac(num, den).num > 0,
        frac(num, den).den > 0,
{
    frac_reduces(num, den);
    let f = frac(num, den);
    assert(f.num > 0) by (nonlinear_arith)
        requires
            f.num * den == num * f.den,
            num > 0,
            den > 0,
            f.den > 0,
    ;
}

/// A fraction that is zero or more, with a positive denominator.
pub open spec fn not_negative(a: Frac) -> bool {
    a.num >= 0 && a.den > 0
}

pub proof fn reduced_is_not_negative(num: int, den: int)
    requires
        num >= 0,
        den > 0,
    ensures
        not_negative(frac(num, den)),
{
    if num > 0 {
        reduced_is_positive(num, den);
    }
}

/// A sum of what is not negative is at least its parts.
pub proof fn plus_goes_on(a: Frac, b: Frac)
    requires
        not_negative(a),
        not_negative(b),
        plus(a, b) is Some,
    ensures
        not_negative(plus(a, b)->0),
        !less(plus(a, b)->0, a),
{
    let n = a.num * b.den + b.num * a.den;
    let d = a.den * b.den;
    assert(n >= 0 && d > 0) by (nonlinear_arith)
        requires
            n == a.num * b.den + b.num * a.den,
            d == a.den * b.den,
            a.num >= 0,
            b.num >= 0,
            a.den > 0,
            b.den > 0,
    ;
    reduced_is_not_negative(n, d);
    plus_adds(a, b);
    let sum = plus(a, b)->0;
    let (x, y) = (sum.num, sum.den);
    assert(x * a.den >= a.num * y) by (nonlinear_arith)
        requires
            x * (a.den * b.den) == (a.num * b.den + b.num * a.den) * y,
            a.den > 0,
            b.den > 0,
            b.num >= 0,
            y > 0,
    {
        assert((b.num * a.den) * y >= 0);
        assert((a.num * b.den + b.num * a.den) * y == (a.num * y) * b.den + (b.num * a.den) * y);
        assert(x * (a.den * b.den) == (x * a.den) * b.den);
        assert((x * a.den) * b.den >= (a.num * y) * b.den);
    }
}

pub proof fn times_is_not_negative(a: Frac, n: int)
    requires
        not_negative(a),
        n >= 0,
        times(a, n) is Some,
    ensures
        not_negative(times(a, n)->0),
{
    assert(a.num * n >= 0) by (nonlinear_arith)
        requires
            a.num >= 0,
            n >= 0,
    ;
    reduced_is_not_negative(a.num * n, a.den);
}

pub proof fn over_is_not_negative(a: Frac, n: int)
    requires
        not_negative(a),
        n > 0,
        over(a, n) is Some,
    ensures
        not_negative(over(a, n)->0),
{
    assert(a.den * n > 0) by (nonlinear_arith)
        requires
            a.den > 0,
            n > 0,
    ;
    reduced_is_not_negative(a.num, a.den * n);
}

/// Dots make a length longer.
pub proof fn dots_go_on(base: Frac, last: Frac, dots: nat)
    requires
        not_negative(base),
        not_negative(last),
        dotted(base, last, dots) is Some,
    ensures
        not_negative(dotted(base, last, dots)->0),
        !less(dotted(base, last, dots)->0, base),
    decreases dots,
{
    if dots > 0 {
        over_is_not_negative(last, 2);
        let half = over(last, 2)->0;
        plus_goes_on(base, half);
        let sum = plus(base, half)->0;
        dots_go_on(sum, half, (dots - 1) as nat);
        order_is_transitive(dotted(base, last, dots)->0, sum, base);
    }
}

/// Fractions of the same value reduce to the same one.
pub proof fn same_values_reduce_alike(n: int, d: int, m: int, e: int)
    requires
        d != 0,
        e != 0,
        n * e == m * d,
    ensures
        frac(n, d) == frac(m, e),
{
    frac_reduces(n, d);
    frac_reduces(m, e);
    let (a, b) = (frac(n, d), frac(m, e));
    let (p, q, r, s) = (a.num, a.den, b.num, b.den);
    let k = d * e;
    assert(k != 0) by (nonlinear_arith)
        requires
            k == d * e,
            d != 0,
            e != 0,
    ;
    assert((p * s) * k == (r * q) * k) by {
        assert((p * s) * k == (p * d) * (s * e)) by (nonlinear_arith)
            requires
                k == d * e,
        ;
        assert((n * q) * (s * e) == (n * e) * (q * s)) by (nonlinear_arith);
        assert((m * d) * (q * s) == (m * s) * (q * d)) by (nonlinear_arith);
        assert((r * e) * (q * d) == (r * q) * k) by (nonlinear_arith)
            requires
                k == d * e,
        ;
    }
    assert(p * s == r * q) by (nonlinear_arith)
        requires
            (p * s) * k == (r * q) * k,
            k != 0,
    ;
    lowest_is_unique(a, b);
}

/// Division undoes multiplication by the same number.
pub proof fn division_undoes_multiplication(a: Frac, n: int)
    requires
        lowest(a),
        fits(a),
        n != 0,
        times(a, n) is Some,
    ensures
        over(times(a, n)->0, n) == Some(a),
{
    let t = times(a, n)->0;
    frac_reduces(a.num * n, a.den);
    let d = t.den * n;
    assert(d != 0) by (nonlinear_arith)
        requires
            d == t.den * n,
            t.den > 0,
            n != 0,
    ;
    assert(t.num * a.den == a.num * d) by (nonlinear_arith)
        requires
            t.num * a.den == (a.num * n) * t.den,
            d == t.den * n,
    ;
    same_values_reduce_alike(t.num, d, a.num, a.den);
    frac_reduces(a.num, a.den);
    lowest_is_unique(frac(a.num, a.den), a);
}

proof fn sum_with_a_third(a: Frac, b: Frac, c: Frac)
    requires
        plus(a, b) is Some,
    ensures
        ({
            let x = plus(a, b)->0;
            (x.num * c.den + c.num * x.den) * (a.den * b.den * c.den) == (a.num * b.den * c.den
                + b.num * a.den * c.den + c.num * a.den * b.den) * (x.den * c.den)
        }),
{
    plus_adds(a, b);
    let x = plus(a, b)->0;
    let (p, q, r) = (a.den, b.den, c.den);
    let s = a.num * q + b.num * p;
    let ab = p * q;
    assert(x.num * ab == s * x.den);
    assert((x.num * r + c.num * x.den) * (p * q * r) == (x.num * ab) * (r * r) + c.num * x.den * (ab
        * r)) by (nonlinear_arith)
        requires
            ab == p * q,
    ;
    let y = x.den * r;
    assert((s * x.den) * (r * r) == (s * r) * y) by (nonlinear_arith)
        requires
            y == x.den * r,
    ;
    assert(c.num * x.den * (ab * r) == (c.num * ab) * y) by (nonlinear_arith)
        requires
            y == x.den * r,
    ;
    assert((s * r) * y + (c.num * ab) * y == (s * r + c.num * ab) * y) by (nonlinear_arith);
    assert(s * r + c.num * ab == a.num * q * r + b.num * p * r + c.num * p * q)
        by (nonlinear_arith)
        requires
            s == a.num * q + b.num * p,
            ab == p * q,
    ;
}

/// Addition does not depend on how its terms are grouped.
pub proof fn plus_associates(a: Frac, b: Frac, c: Frac)
    requires
        plus(a, b) is Some,
        plus(b, c) is Some,
    ensures
        plus(plus(a, b)->0, c) == plus(a, plus(b, c)->0),
{
    plus_adds(a, b);
    plus_adds(b, c);
    let (x, z) = (plus(a, b)->0, plus(b, c)->0);
    sum_with_a_third(a, b, c);
    sum_with_a_third(b, c, a);
    let n = x.num * c.den + c.num * x.den;
    let d = x.den * c.den;
    let m = a.num * z.den + z.num * a.den;
    let e = a.den * z.den;
    let s = a.num * b.den * c.den + b.num * a.den * c.den + c.num * a.den * b.den;
    let k = a.den * b.den * c.den;
    let other = b.num * c.den * a.den + c.num * b.den * a.den + a.num * b.den * c.den;
    assert(other == s) by (nonlinear_arith)
        requires
            s == a.num * b.den * c.den + b.num * a.den * c.den + c.num * a.den * b.den,
            other == b.num * c.den * a.den + c.num * b.den * a.den + a.num * b.den * c.den,
    ;
    assert(b.den * c.den * a.den == k) by (nonlinear_arith)
        requires
            k == a.den * b.den * c.den,
    ;
    assert(z.den * a.den == e) by (nonlinear_arith)
        requires
            e == a.den * z.den,
    ;
    assert(n * k == s * d);
    assert(m * k == s * e);
    assert(n * e == m * d) by (nonlinear_arith)
        requires
            n * k == s * d,
            m * k == s * e,
            k == a.den * b.den * c.den,
            a.den > 0,
            b.den > 0,
            c.den > 0,
    {
        assert(a.den * b.den > 0);
        assert(k > 0);
        assert((n * e) * k == (n * k) * e);
        assert((m * d) * k == (m * k) * d);
        assert((s * d) * e == (s * e) * d);
    }
    assert(d > 0) by (nonlinear_arith)
        requires
            d == x.den * c.den,
            x.den > 0,
            c.den > 0,
    ;
    assert(e > 0) by (nonlinear_arith)
        requires
            e == a.den * z.den,
            z.den > 0,
            a.den > 0,
    ;
    same_values_reduce_alike(n, d, m, e);
}

/// What dots add: with `n` of them, a length and the half, the quarter and so on
/// of `last`, which are `last` less one part of it in `2^n`.
pub proof fn dots_add_up(base: Frac, last: Frac, dots: nat)
    requires
        base.den > 0,
        last.den > 0,
        dotted(base, last, dots) is Some,
    ensures
        ({
            let d = dotted(base, last, dots)->0;
            let parts = pow2(dots) as int;
            &&& d.den > 0
            &&& d.num * (base.den * last.den * parts) == (base.num * last.den * parts + last.num * (
            parts - 1) * base.den) * d.den
        }),
    decreases dots,
{
    let d = dotted(base, last, dots)->0;
    let parts = pow2(dots) as int;
    if dots == 0 {
        lemma2_to64();
        assert(d.num * (base.den * last.den * parts) == (base.num * last.den * parts + last.num * (
        parts - 1) * base.den) * d.den) by (nonlinear_arith)
            requires
                parts == 1,
                d == base,
        ;
    } else {
        let half = over(last, 2)->0;
        frac_reduces(last.num, last.den * 2);
        let sum = plus(base, half)->0;
        plus_adds(base, half);
        dots_add_up(sum, half, (dots - 1) as nat);
        lemma_pow2_unfold(dots);
        let q = pow2((dots - 1) as nat) as int;
        let (bn, bd, ln, ld) = (base.num, base.den, last.num, last.den);
        let (sn, sd, hn, hd) = (sum.num, sum.den, half.num, half.den);
        dots_step(bn, bd, ln, ld, sn, sd, hn, hd, d.num, d.den, q);
        assert(bd * ld * parts == bd * ld * (2 * q));
    }
}

proof fn dots_step(
    bn: int,
    bd: int,
    ln: int,
    ld: int,
    sn: int,
    sd: int,
    hn: int,
    hd: int,
    n: int,
    d: int,
    q: int,
)
    requires
        sd > 0,
        hd > 0,
        hn * (ld * 2) == ln * hd,
        sn * (bd * hd) == (bn * hd + hn * bd) * sd,
        n * (sd * hd * q) == (sn * hd * q + hn * (q - 1) * sd) * d,
    ensures
        n * (bd * ld * (2 * q)) == (bn * ld * (2 * q) + ln * (2 * q - 1) * bd) * d,
{
    let k = sd * hd * hd;
    let want = bn * ld * (2 * q) + ln * (2 * q - 1) * bd;
    let left = n * (bd * ld * (2 * q));
    let e = ld * 2;
    let f = bd * hd * e;
    assert(left * k == (n * (sd * hd * q)) * f) by (nonlinear_arith)
        requires
            k == sd * hd * hd,
            left == n * (bd * ld * (2 * q)),
            f == bd * hd * (ld * 2),
    ;
    let inner = sn * hd * q + hn * (q - 1) * sd;
    let (u, w, z) = (sn * (bd * hd), hn * e, q - 1);
    let g = sd * hd * q;
    assert((sn * hd * q) * f == u * (hd * q * e)) by (nonlinear_arith)
        requires
            f == bd * hd * e,
            u == sn * (bd * hd),
    ;
    assert((hn * z * sd) * f == w * (z * sd * bd * hd)) by (nonlinear_arith)
        requires
            f == bd * hd * e,
            w == hn * e,
    ;
    assert((sn * hd * q + hn * z * sd) * f == (sn * hd * q) * f + (hn * z * sd) * f)
        by (nonlinear_arith);
    let t = bn * hd + hn * bd;
    assert((t * sd) * (hd * q * e) == (t * e) * g) by (nonlinear_arith)
        requires
            g == sd * hd * q,
    ;
    assert(t * e == bn * hd * e + w * bd) by (nonlinear_arith)
        requires
            t == bn * hd + hn * bd,
            w == hn * e,
    ;
    let (v, c) = (ln * hd, sd * hd);
    let o = bn * hd * e + v * bd;
    assert(o * g == (o * q) * c) by (nonlinear_arith)
        requires
            g == sd * hd * q,
            c == sd * hd,
    ;
    assert(v * (z * sd * bd * hd) == (v * bd * z) * c) by (nonlinear_arith)
        requires
            c == sd * hd,
    ;
    assert((o * q) * c + (v * bd * z) * c == (o * q + v * bd * z) * c) by (nonlinear_arith);
    assert(o * q + v * bd * z == want * hd) by {
        assert(o * q == bn * hd * e * q + v * bd * q) by (nonlinear_arith)
            requires
                o == bn * hd * e + v * bd,
        ;
        assert(v * bd * q + v * bd * z == v * bd * (2 * q - 1)) by (nonlinear_arith)
            requires
                z == q - 1,
        ;
        assert(v * bd * (2 * q - 1) == (ln * (2 * q - 1) * bd) * hd) by (nonlinear_arith)
            requires
                v == ln * hd,
        ;
        assert(bn * hd * e * q == (bn * ld * (2 * q)) * hd) by (nonlinear_arith)
            requires
                e == ld * 2,
        ;
        assert((bn * ld * (2 * q)) * hd + (ln * (2 * q - 1) * bd) * hd == want * hd)
            by (nonlinear_arith)
            requires
                want == bn * ld * (2 * q) + ln * (2 * q - 1) * bd,
        ;
    }
    assert((want * hd) * c == want * k) by (nonlinear_arith)
        requires
            k == sd * hd * hd,
            c == sd * hd,
    ;
    assert(inner * f == want * k);
    assert((inner * d) * f == (inner * f) * d) by (nonlinear_arith);
    assert((want * k) * d == (want * d) * k) by (nonlinear_arith);
    assert(left * k == (want * d) * k);
    assert(left == want * d) by (nonlinear_arith)
        requires
            left * k == (want * d) * k,
            k == sd * hd * hd,
            sd > 0,
            hd > 0,
    {
        assert(sd * hd > 0);
        assert(k > 0);
    }
}

} // verus!
