//! How densely glides are drawn.

use vstd::prelude::*;

use crate::render::events;
use crate::render::pitch_glide;
use crate::render::pitch_glide::BendTargetView;
use crate::render::rounding;
use crate::render::rounding::DoubleView;

verus! {

/// A double that holds a whole number exactly.
pub open spec fn holds_whole(d: DoubleView, n: nat) -> bool {
    d.scale <= 0 && d.digits == n * rounding::power((-d.scale) as nat)
}

proof fn whole_quotient(q: nat, den: nat)
    requires
        den > 0,
    ensures
        rounding::half_even(q * den, den) == q,
        (q * den) / den == q,
{
    assert((q * den) / den == q) by (nonlinear_arith)
        requires
            den > 0,
    ;
    assert((q * den) % den == 0) by (nonlinear_arith)
        requires
            den > 0,
    ;
}

proof fn small_stays_exact(q: nat, num: nat, den: nat, scale: int)
    requires
        den > 0,
        num == q * den,
        q > 0,
    ensures
        ({
            let r = rounding::nearest_small(num, den, scale);
            r.scale <= scale && r.digits == q * rounding::power((scale - r.scale) as nat)
        }),
    decreases 0x20_0000_0000_0000 * den - num,
{
    let r = rounding::nearest_small(num, den, scale);
    if 0 < num < 0x10_0000_0000_0000 * den {
        assert(2 * num == (2 * q) * den) by (nonlinear_arith)
            requires
                num == q * den,
        ;
        small_stays_exact(2 * q, 2 * num, den, scale - 1);
        let k = (scale - 1 - r.scale) as nat;
        assert(rounding::power(k + 1) == 2 * rounding::power(k));
        assert((2 * q) * rounding::power(k) == q * (2 * rounding::power(k))) by (nonlinear_arith);
        assert((scale - r.scale) as nat == k + 1);
    } else {
        whole_quotient(q, den);
        assert(rounding::power(0) == 1);
        assert(q * rounding::power(0) == q) by (nonlinear_arith)
            requires
                rounding::power(0) == 1,
        ;
        assert((scale - r.scale) as nat == 0);
    }
}

proof fn large_stays_exact(q: nat, num: nat, den: nat, scale: int, t: nat, j: nat)
    requires
        den > 0,
        num == q * den,
        q == t * rounding::power(j),
        t < 0x20_0000_0000_0000,
    ensures
        ({
            let r = rounding::nearest_large(num, den, scale);
            &&& scale <= r.scale <= scale + j
            &&& r.digits * rounding::power((r.scale - scale) as nat) == q
        }),
    decreases j,
{
    let r = rounding::nearest_large(num, den, scale);
    whole_quotient(q, den);
    assert(rounding::power(0) == 1);
    if num >= 2 * den && num / den >= 0x20_0000_0000_0000 {
        if j == 0 {
            assert(t * rounding::power(0) == t) by (nonlinear_arith)
                requires
                    rounding::power(0) == 1,
            ;
        }
        let i = (j - 1) as nat;
        let p = t * rounding::power(i);
        assert(rounding::power(j) == 2 * rounding::power(i));
        assert(q == 2 * p) by (nonlinear_arith)
            requires
                q == t * (2 * rounding::power(i)),
                p == t * rounding::power(i),
        ;
        assert(num == p * (2 * den)) by (nonlinear_arith)
            requires
                num == q * den,
                q == 2 * p,
        ;
        large_stays_exact(p, num, 2 * den, scale + 1, t, i);
        let k = (r.scale - scale - 1) as nat;
        assert(rounding::power(k + 1) == 2 * rounding::power(k));
        assert(r.digits * (2 * rounding::power(k)) == 2 * (r.digits * rounding::power(k))) by (nonlinear_arith);
        assert((r.scale - scale) as nat == k + 1);
    } else {
        assert(q * rounding::power(0) == q) by (nonlinear_arith)
            requires
                rounding::power(0) == 1,
        ;
        assert((r.scale - scale) as nat == 0);
        assert(num < 2 * den ==> q < 2) by (nonlinear_arith)
            requires
                num == q * den,
                den > 0,
        ;
    }
}

proof fn nearest_stays_exact(n: nat, e: nat, den: nat, num: nat)
    requires
        den > 0,
        n < 0x20_0000_0000_0000,
        num == (n * rounding::power(e)) * den,
    ensures
        holds_whole(rounding::nearest(num, den, -(e as int)), n),
{
    let q = n * rounding::power(e);
    let r = rounding::nearest(num, den, -(e as int));
    rounding::power_positive(e);
    if n == 0 {
        assert(num == 0) by (nonlinear_arith)
            requires
                n == 0,
                q == n * rounding::power(e),
                num == q * den,
        ;
        assert(rounding::power(0) == 1);
    } else {
        assert(q > 0 && num > 0) by (nonlinear_arith)
            requires
                n > 0,
                rounding::power(e) > 0,
                q == n * rounding::power(e),
                den > 0,
                num == q * den,
        ;
        if num < 0x10_0000_0000_0000 * den {
            small_stays_exact(q, num, den, -(e as int));
            let k = (-(e as int) - r.scale) as nat;
            rounding::power_sum(e, k);
            assert((-r.scale) as nat == e + k);
            assert(q * rounding::power(k) == n * (rounding::power(e) * rounding::power(k))) by (nonlinear_arith)
                requires
                    q == n * rounding::power(e),
            ;
        } else {
            large_stays_exact(q, num, den, -(e as int), n, e);
            let x = (r.scale + e) as nat;
            let y = (-r.scale) as nat;
            rounding::power_sum(x, y);
            rounding::power_positive(x);
            assert(e == x + y);
            assert(r.digits == n * rounding::power(y)) by (nonlinear_arith)
                requires
                    r.digits * rounding::power(x) == n * (rounding::power(x) * rounding::power(y)),
                    rounding::power(x) > 0,
            {
                assert(n * (rounding::power(x) * rounding::power(y)) == (n * rounding::power(y)) * rounding::power(x));
            }
        }
    }
}

/// A glide has as many steps as its rate says for each second: one that lasts a
/// whole number of seconds, with as many beats a minute as its tempo says, has the
/// rate times that number.
pub proof fn glides_have_their_rate(duration: u64, ppq: u16, bpm: u32, rate: u16, seconds: nat)
    requires
        ppq > 0,
        bpm > 0,
        duration < 0x8000_0000_0000,
        duration * 60 == seconds * (ppq * bpm),
        seconds < 0x10_0000_0000,
    ensures
        rounding::glide_steps(duration, ppq, bpm, rate) == seconds * rate,
{
    let n = (ppq * bpm) as nat;
    assert(n > 0) by (nonlinear_arith)
        requires
            n == ppq * bpm,
            ppq > 0,
            bpm > 0,
    ;
    assert(rounding::power(0) == 1);
    let a = rounding::nearest(duration as nat, 1, 0);
    nearest_stays_exact(duration as nat, 0, 1, duration as nat);
    let e = (-a.scale) as nat;
    let b = rounding::double_times(a, 60);
    let beats = (duration * 60) as nat;
    assert(a.digits * 60 == (beats * rounding::power(e)) * 1) by (nonlinear_arith)
        requires
            a.digits == duration * rounding::power(e),
            beats == duration * 60,
    ;
    nearest_stays_exact(beats, e, 1, a.digits * 60);
    let f = (-b.scale) as nat;
    let c = rounding::double_over(b, n);
    assert(b.digits == (seconds * rounding::power(f)) * n) by (nonlinear_arith)
        requires
            b.digits == beats * rounding::power(f),
            beats == seconds * n,
    ;
    nearest_stays_exact(seconds, f, n, b.digits);
    let g = (-c.scale) as nat;
    let d = rounding::double_times(c, rate as nat);
    let steps = seconds * rate as nat;
    assert(steps < 0x20_0000_0000_0000) by (nonlinear_arith)
        requires
            steps == seconds * rate,
            seconds < 0x10_0000_0000,
            rate <= 0xffff,
    ;
    assert(c.digits * (rate as nat) == (steps * rounding::power(g)) * 1) by (nonlinear_arith)
        requires
            c.digits == seconds * rounding::power(g),
            steps == seconds * rate,
    ;
    nearest_stays_exact(steps, g, 1, c.digits * (rate as nat));
    let h = (-d.scale) as nat;
    let den = rounding::power(h);
    rounding::power_positive(h);
    assert((2 * d.digits + den) / (2 * den) == steps) by (nonlinear_arith)
        requires
            d.digits == steps * den,
            den > 0,
    {
        assert(2 * d.digits + den == steps * (2 * den) + den);
    }
    if d.scale == 0 {
        assert(d.digits * rounding::power(0) == steps) by (nonlinear_arith)
            requires
                d.digits == steps * rounding::power(0),
                rounding::power(0) == 1,
        ;
    }
}

/// The curve of a glide has the steps of its rate at the tempo that holds where it
/// begins.
pub proof fn curves_have_their_rate(
    g: BendTargetView,
    start: u64,
    end: u64,
    bpm: u32,
    seconds: nat,
)
    requires
        start < end,
        end - start < 0x8000_0000_0000,
        g.ppq > 0,
        bpm > 0,
        events::tempo_at(g.tempo, g.tempo.len() as int, start) == bpm,
        g.config.curve.event_rate_hz > 0,
        (end - start) * 60 == seconds * (g.ppq * bpm),
        seconds < 0x10_0000_0000,
    ensures
        pitch_glide::segment_steps(g, start, end) == seconds * g.config.curve.event_rate_hz,
{
    let duration = (end - start) as u64;
    let rate = g.config.curve.event_rate_hz;
    glides_have_their_rate(duration, g.ppq, bpm, rate, seconds);
    assert(seconds > 0) by (nonlinear_arith)
        requires
            (end - start) * 60 == seconds * (g.ppq * bpm),
            start < end,
    ;
    assert(seconds * rate >= 1) by (nonlinear_arith)
        requires
            seconds >= 1,
            rate >= 1,
    ;
}

} // verus!
