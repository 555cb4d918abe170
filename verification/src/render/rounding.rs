//! Double-precision arithmetic on whole numbers, computed in whole numbers.
//!
//! A double is a pair: a whole number of at most 53 binary digits and the power
//! of two that scales it. Nothing here is small or large enough to leave the
//! range of doubles.

use vstd::prelude::*;



verus! {

/// Two to the power `n`.
pub open spec fn power(n: nat) -> nat
    decreases n,
{
    if n == 0 {
        1
    } else {
        2 * power((n - 1) as nat)
    }
}

/// A scaled whole number: `digits * 2^scale`.
#[verifier::ext_equal]
pub struct DoubleView {
    pub digits: nat,
    pub scale: int,
}

/// A quotient rounded to a whole number, halves to even.
pub open spec fn half_even(num: nat, den: nat) -> nat {
    let q = num / den;
    let r = num % den;
    if 2 * r > den || (2 * r == den && q % 2 == 1) {
        q + 1
    } else {
        q
    }
}

/// The double nearest to a quotient that has too many digits.
pub open spec fn nearest_large(num: nat, den: nat, scale: int) -> DoubleView
    decreases num - den,
{
    if den > 0 && num >= 2 * den && num / den >= 0x20_0000_0000_0000 {
        nearest_large(num, 2 * den, scale + 1)
    } else {
        DoubleView { digits: half_even(num, den), scale }
    }
}

/// The double nearest to a quotient that has too few digits.
pub open spec fn nearest_small(num: nat, den: nat, scale: int) -> DoubleView
    decreases 0x20_0000_0000_0000 * den - num,
{
    if 0 < num < 0x10_0000_0000_0000 * den {
        nearest_small(2 * num, den, scale - 1)
    } else {
        DoubleView { digits: half_even(num, den), scale }
    }
}

/// The double nearest to `num / den * 2^scale`.
pub open spec fn nearest(num: nat, den: nat, scale: int) -> DoubleView {
    if num == 0 {
        DoubleView { digits: 0, scale: 0 }
    } else if num < 0x10_0000_0000_0000 * den {
        nearest_small(num, den, scale)
    } else {
        nearest_large(num, den, scale)
    }
}

/// A double times a whole number.
pub open spec fn double_times(d: DoubleView, n: nat) -> DoubleView {
    nearest(d.digits * n, 1, d.scale)
}

/// A double divided by a whole number.
pub open spec fn double_over(d: DoubleView, n: nat) -> DoubleView {
    nearest(d.digits, n, d.scale)
}

/// A double rounded to a whole number, halves up, at most `u64::MAX`.
pub open spec fn double_rounded(d: DoubleView) -> nat {
    let n = if d.scale >= 0 {
        d.digits * power(d.scale as nat)
    } else {
        let den = power((-d.scale) as nat);
        (2 * d.digits + den) / (2 * den)
    };
    if n > u64::MAX {
        u64::MAX as nat
    } else {
        n
    }
}

/// How many steps a glide of `duration` ticks takes at `rate` steps a second:
/// the seconds are `duration * 60 / (ppq * bpm)`.
pub open spec fn glide_steps(duration: u64, ppq: u16, bpm: u32, rate: u16) -> nat {
    let ticks = nearest(duration as nat, 1, 0);
    let seconds = double_over(double_times(ticks, 60), (ppq * bpm) as nat);
    double_rounded(double_times(seconds, rate as nat))
}

#[derive(Clone, Copy, Debug)]
pub struct Double {
    pub digits: u64,
    pub scale: i64,
}

impl DeepView for Double {
    type V = DoubleView;

    open spec fn deep_view(&self) -> DoubleView {
        DoubleView { digits: self.digits as nat, scale: self.scale as int }
    }
}

pub proof fn power_positive(n: nat)
    ensures
        power(n) >= 1,
    decreases n,
{
    if n > 0 {
        power_positive((n - 1) as nat);
    }
}

proof fn power_grows(n: nat, m: nat)
    requires
        n <= m,
    ensures
        power(n) <= power(m),
    decreases m,
{
    if n < m {
        power_grows(n, (m - 1) as nat);
        power_positive((m - 1) as nat);
    }
}

fn round_half_even(num: u128, den: u128) -> (r: u128)
    requires
        0 < den <= 0x1000_0000_0000_0000_0000_0000_0000_0000,
    ensures
        r == half_even(num as nat, den as nat),
{
    let q: u128 = num / den;
    let r: u128 = num % den;
    assert(q <= num / 1) by {
        assert(num / den <= num) by (nonlinear_arith)
            requires
                den >= 1,
                num >= 0,
        ;
    }
    if 2 * r > den || (2 * r == den && q % 2 == 1) {
        assert(q < u128::MAX) by {
            assert(den >= 2);
            assert(num / den <= num / 2) by (nonlinear_arith)
                requires
                    den >= 2,
                    num >= 0,
            ;
        }
        q + 1
    } else {
        q
    }
}

/// Powers of two multiply.
pub proof fn power_sum(a: nat, b: nat)
    ensures
        power(a + b) == power(a) * power(b),
    decreases a,
{
    if a > 0 {
        power_sum((a - 1) as nat, b);
        let x = power((a - 1) as nat) as int;
        let y = power(b) as int;
        assert((a + b - 1) as nat == (a - 1) as nat + b);
        assert(2 * (x * y) == (2 * x) * y) by (nonlinear_arith);
    } else {
        assert(1 * power(b) == power(b));
    }
}

proof fn power_values()
    ensures
        power(21) == 0x20_0000,
        power(64) == 0x1_0000_0000_0000_0000,
        power(102) == 0x40_0000_0000_0000_0000_0000_0000,
{
    reveal_with_fuel(power, 22);
    power_sum(21, 21);
    power_sum(42, 22);
    power_sum(42, 9);
    power_sum(51, 51);
    assert(power(51) == 0x8_0000_0000_0000);
    assert(0x8_0000_0000_0000int * 0x8_0000_0000_0000int
        == 0x40_0000_0000_0000_0000_0000_0000int) by (nonlinear_arith);
}

fn nearest_of_small(num: u128, den: u128, scale: i64) -> (r: Double)
    requires
        0 < den <= 0x1_0000_0000_0000,
        0 < num < 0x10_0000_0000_0000 * den,
        -1000 <= scale <= 1000,
    ensures
        r.deep_view() == nearest_small(num as nat, den as nat, scale as int),
        r.digits <= 0x20_0000_0000_0000,
        scale - 102 <= r.scale <= scale,
{
    let mut n: u128 = num;
    let mut k: i64 = 0;
    while n < 0x10_0000_0000_0000 * den
        invariant
            0 < den <= 0x1_0000_0000_0000,
            0 < n < 0x20_0000_0000_0000 * den,
            0 <= k <= 102,
            n >= power(k as nat),
            -1000 <= scale <= 1000,
            nearest_small(num as nat, den as nat, scale as int) == nearest_small(
                n as nat,
                den as nat,
                scale - k,
            ),
        decreases 0x20_0000_0000_0000 * den - n,
    {
        proof {
            if k >= 102 {
                power_values();
                power_grows(102, k as nat);
            }
        }
        n = 2 * n;
        k += 1;
    }
    let digits = round_half_even(n, den);
    assert(digits <= 0x20_0000_0000_0000) by {
        assert(n / den < 0x20_0000_0000_0000) by (nonlinear_arith)
            requires
                0 < den,
                0 < n < 0x20_0000_0000_0000 * den,
        ;
    }
    Double { digits: digits as u64, scale: scale - k }
}

fn nearest_of_large(num: u128, den: u128, scale: i64) -> (r: Double)
    requires
        0 < den <= 0x1_0000_0000_0000,
        0x10_0000_0000_0000 * den <= num <= 0x100_0000_0000_0000_0000,
        -1000 <= scale <= 1000,
    ensures
        r.deep_view() == nearest_large(num as nat, den as nat, scale as int),
        r.digits <= 0x20_0000_0000_0000,
        scale <= r.scale <= scale + 21,
{
    let mut d: u128 = den;
    let mut k: i64 = 0;
    while num / d >= 0x20_0000_0000_0000
        invariant
            0 < d <= 0x1_0000_0000_0000,
            0x10_0000_0000_0000 * d <= num <= 0x100_0000_0000_0000_0000,
            0 <= k <= 21,
            d >= power(k as nat),
            -1000 <= scale <= 1000,
            nearest_large(num as nat, den as nat, scale as int) == nearest_large(
                num as nat,
                d as nat,
                scale + k,
            ),
        decreases num - d,
    {
        assert(num >= 0x20_0000_0000_0000 * d) by (nonlinear_arith)
            requires
                0 < d,
                num / d >= 0x20_0000_0000_0000,
                num >= 0,
        ;
        proof {
            if k >= 21 {
                power_values();
                power_grows(21, k as nat);
            }
        }
        d = 2 * d;
        k += 1;
    }
    let digits = round_half_even(num, d);
    Double { digits: digits as u64, scale: scale + k }
}

/// The nearest double; the parts of the quotient are far from the limits.
fn find_nearest(num: u128, den: u128, scale: i64) -> (r: Double)
    requires
        0 < den <= 0x1_0000_0000_0000,
        num <= 0x100_0000_0000_0000_0000,
        -1000 <= scale <= 1000,
    ensures
        r.deep_view() == nearest(num as nat, den as nat, scale as int),
        r.digits <= 0x20_0000_0000_0000,
        scale - 102 <= r.scale <= scale + 21 || r.scale == 0,
{
    if num == 0 {
        Double { digits: 0, scale: 0 }
    } else if num < 0x10_0000_0000_0000 * den {
        nearest_of_small(num, den, scale)
    } else {
        nearest_of_large(num, den, scale)
    }
}

/// Two to a power below 64.
fn find_power(n: u64) -> (r: u128)
    requires
        n < 64,
    ensures
        r == power(n as nat),
        1 <= r < 0x1_0000_0000_0000_0000,
{
    let mut r: u128 = 1;
    let mut k: u64 = 0;
    while k < n
        invariant
            k <= n < 64,
            r == power(k as nat),
            1 <= r < 0x1_0000_0000_0000_0000,
        decreases n - k,
    {
        proof {
            power_values();
            power_grows((k + 2) as nat, 64);
            assert(power((k + 2) as nat) == 2 * power((k + 1) as nat));
            power_positive(k as nat);
        }
        r = 2 * r;
        k += 1;
    }
    r
}

fn round_double(d: Double) -> (r: u64)
    requires
        d.digits <= 0x20_0000_0000_0000,
        -1000 <= d.scale <= 1000,
    ensures
        r == double_rounded(d.deep_view()),
{
    if d.digits == 0 {
        proof {
            if d.scale < 0 {
                power_positive((-d.scale) as nat);
                let den = power((-d.scale) as nat) as int;
                assert((0 + den) / (2 * den) == 0) by (nonlinear_arith)
                    requires
                        den >= 1,
                ;
            } else {
                assert(0 * power(d.scale as nat) == 0);
            }
        }
        return 0;
    }
    if d.scale >= 64 {
        proof {
            power_values();
            power_grows(64, d.scale as nat);
            let p = power(d.scale as nat) as int;
            assert(d.digits * p >= p) by (nonlinear_arith)
                requires
                    d.digits >= 1,
                    p >= 0,
            ;
        }
        return u64::MAX;
    }
    if d.scale >= 0 {
        let p = find_power(d.scale as u64);
        assert(d.digits * p <= 0x20_0000_0000_0000 * 0x1_0000_0000_0000_0000) by (nonlinear_arith)
            requires
                d.digits <= 0x20_0000_0000_0000,
                0 <= p <= 0x1_0000_0000_0000_0000,
        ;
        let n: u128 = d.digits as u128 * p;
        return if n > 0xffff_ffff_ffff_ffff {
            u64::MAX
        } else {
            n as u64
        };
    }
    if d.scale <= -64 {
        proof {
            power_values();
            power_grows(64, (-d.scale) as nat);
            let den = power((-d.scale) as nat) as int;
            assert((2 * d.digits + den) / (2 * den) == 0) by (nonlinear_arith)
                requires
                    0 <= 2 * d.digits < den,
            ;
        }
        return 0;
    }
    let den = find_power((-d.scale) as u64);
    let n: u128 = (2 * (d.digits as u128) + den) / (2 * den);
    assert(n <= 2 * d.digits + den) by (nonlinear_arith)
        requires
            den >= 1,
            n == (2 * d.digits + den) / (2 * den as int),
            d.digits >= 0,
    ;
    if n > 0xffff_ffff_ffff_ffff {
        u64::MAX
    } else {
        n as u64
    }
}

/// How many steps a glide takes.
pub fn count_glide_steps(duration: u64, ppq: u16, bpm: u32, rate: u16) -> (r: u64)
    requires
        ppq > 0,
        bpm > 0,
    ensures
        r == glide_steps(duration, ppq, bpm, rate),
{
    let ticks = find_nearest(duration as u128, 1, 0);
    let scaled = find_nearest(ticks.digits as u128 * 60, 1, ticks.scale);
    assert(0 < ppq * bpm <= 0xffff * 0xffff_ffff) by (nonlinear_arith)
        requires
            0 < ppq <= 0xffff,
            0 < bpm <= 0xffff_ffff,
    ;
    let seconds = find_nearest(
        scaled.digits as u128,
        ppq as u128 * bpm as u128,
        scaled.scale,
    );
    assert(seconds.digits * rate <= 0x20_0000_0000_0000 * 0xffff) by (nonlinear_arith)
        requires
            seconds.digits <= 0x20_0000_0000_0000,
            rate <= 0xffff,
    ;
    let steps = find_nearest(seconds.digits as u128 * rate as u128, 1, seconds.scale);
    round_double(steps)
}

} // verus!
