//! How loud the levels of an envelope are.

use vstd::prelude::*;

use crate::fraction;
use crate::ir::{EnvelopeRef, SourceFamily};
use crate::smfmap::details;
use crate::smfmap::details::{EnvelopeOverride, Loudness, RenderDetailsView, VolumeScale};

verus! {

/// A quotient is rounded to the nearest whole number.
pub proof fn quotients_are_rounded(num: int, den: int)
    requires
        den > 0,
    ensures
        -den <= 2 * (fraction::div_round(num, den) * den - num) <= den,
{
    let n = if num >= 0 {
        num
    } else {
        -num
    };
    let v = (n + den / 2) / den;
    assert(-den <= 2 * (v * den - n) <= den) by (nonlinear_arith)
        requires
            v == (n + den / 2) / den,
            den > 0,
    ;
    if num < 0 {
        assert((-v) * den == -(v * den)) by (nonlinear_arith);
    }
}

/// A level of the source is the same share of the MIDI range as it is of its own
/// range, to the nearest value.
pub proof fn scales_are_even(s: VolumeScale, num: int, den: int)
    requires
        s.mgsc_min < s.mgsc_max,
        s.midi_min <= s.midi_max,
        den > 0,
        s.mgsc_min * den <= num <= s.mgsc_max * den,
    ensures
        ({
            let span = (s.mgsc_max - s.mgsc_min) * den;
            let share = (num - s.mgsc_min * den) * (s.midi_max - s.midi_min);
            -span <= 2 * ((s.value(num, den) - s.midi_min) * span - share) <= span
        }),
{
    let span = (s.mgsc_max - s.mgsc_min) * den;
    let x = num - s.mgsc_min * den;
    let range = s.midi_max - s.midi_min;
    assert(span > 0) by (nonlinear_arith)
        requires
            span == (s.mgsc_max - s.mgsc_min) * den,
            s.mgsc_min < s.mgsc_max,
            den > 0,
    ;
    assert(x <= span) by (nonlinear_arith)
        requires
            span == (s.mgsc_max - s.mgsc_min) * den,
            x == num - s.mgsc_min * den,
            num <= s.mgsc_max * den,
    ;
    quotients_are_rounded(x * range, span);
    let v = fraction::div_round(x * range, span);
    assert(0 <= v <= range) by (nonlinear_arith)
        requires
            -span <= 2 * (v * span - x * range) <= span,
            0 <= x <= span,
            0 <= range,
            span > 0,
    ;
    details::scales_keep_their_range(s, num, den);
}

/// The values of a corrected envelope are multiplied, to the nearest value, and
/// held in the range of the correction; a factor of one changes nothing in range.
pub proof fn corrections_multiply(change: EnvelopeOverride, value: u8)
    requires
        change.min_cc <= change.max_cc,
        change.multiplies(),
    ensures
        ({
            let d = change.multiplier.den as int;
            let n = change.multiplier.num as int;
            let r = change.value(value) as int;
            &&& change.min_cc < r < change.max_cc ==> -d <= 2 * (r * d - value * n) <= d
            &&& n == d && change.min_cc <= value <= change.max_cc ==> r == value
        }),
{
    let d = change.multiplier.den as int;
    let n = change.multiplier.num as int;
    quotients_are_rounded(value * n, d);
    if n == d {
        let v = fraction::div_round(value * n, d);
        assert(v == value) by (nonlinear_arith)
            requires
                -d <= 2 * (v * d - value * n) <= d,
                n == d,
                d > 0,
                v == (value * n + d / 2) / d,
                value >= 0,
        {
            assert((value * d + d / 2) / d == value);
        }
    }
}

/// A bias makes the notes of an envelope louder or softer by its amount, as far
/// as velocities go; silence stays silent.
pub proof fn biases_are_added(change: EnvelopeOverride, velocity: u8)
    requires
        velocity <= 127,
    ensures
        change.velocity(0) == 0,
        velocity > 0 && 1 <= velocity + change.velocity_bias <= 127 ==> change.velocity(velocity)
            == velocity + change.velocity_bias,
        velocity > 0 && velocity + change.velocity_bias > 127 ==> change.velocity(velocity) == 127,
        velocity > 0 && velocity + change.velocity_bias < 1 ==> change.velocity(velocity) == 1,
{
}

/// The scale and the corrections of a configuration are for PSG envelopes, each
/// correction for the envelope of its number.
pub proof fn corrections_have_their_envelopes(d: RenderDetailsView, id: u8)
    ensures
        d.overrides.contains_key(id) ==> d.loudness(SourceFamily::Psg, EnvelopeRef::E(id)) == (
        Loudness { scale: d.volume_scale, change: d.overrides[id] }) && d.loudness(
            SourceFamily::PsgNoise,
            EnvelopeRef::R(id),
        ) == (Loudness { scale: d.volume_scale, change: d.overrides[id] }),
        d.loudness(SourceFamily::Scc, EnvelopeRef::E(id)) == Loudness::initial(),
        d.loudness(SourceFamily::Opll, EnvelopeRef::R(id)) == Loudness::initial(),
{
}

} // verus!
