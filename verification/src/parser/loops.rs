//! Endless loops, played on until the longest track ends.

use vstd::arithmetic::div_mod::*;
use vstd::arithmetic::mul::*;
use vstd::prelude::*;

use crate::fraction;
use crate::fraction::Frac;
use crate::ir;
use crate::ir::{IrEvent, IrEventView, LoopMarkerKind, Rational, TrackIr, TrackIrView, copy_events};
use crate::views;
use crate::views::push_viewed;

verus! {

// ---------------------------------------------------------------------------
// Positions
// ---------------------------------------------------------------------------
/// The position of an event; loop markers stay where they are.
pub open spec fn event_at(e: IrEventView) -> Option<Frac> {
    match e {
        IrEventView::Note { start, .. } => Some(start),
        IrEventView::Rest { start, .. } => Some(start),
        IrEventView::Tempo { at, .. } => Some(at),
        IrEventView::Control { at, .. } => Some(at),
        IrEventView::LoopMarker { .. } => None,
        IrEventView::AtCommand { at, .. } => Some(at),
        IrEventView::PsgEnvelopeSelect { at, .. } => Some(at),
        IrEventView::ToneChange { at, .. } => Some(at),
        IrEventView::EnvelopeApply { at, .. } => Some(at),
        IrEventView::RegisterWrite { at, .. } => Some(at),
        IrEventView::ManualSmf { at, .. } => Some(at),
    }
}

/// How long an event lasts; zero for events without a length.
pub open spec fn event_length(e: IrEventView) -> Frac {
    match e {
        IrEventView::Note { duration, .. } => duration,
        IrEventView::Rest { duration, .. } => duration,
        _ => fraction::whole(0),
    }
}

/// The event at another position, with another length where it has one.
pub open spec fn placed(e: IrEventView, step: Frac, length: Frac) -> IrEventView {
    match e {
        IrEventView::Note { start, duration, note, velocity, tone, envelope, meta } =>
        IrEventView::Note { start: step, duration: length, note, velocity, tone, envelope, meta },
        IrEventView::Rest { start, duration } => IrEventView::Rest {
            start: step,
            duration: length,
        },
        IrEventView::Tempo { at, bpm } => IrEventView::Tempo { at: step, bpm },
        IrEventView::Control { at, kind } => IrEventView::Control { at: step, kind },
        IrEventView::LoopMarker { at, kind } => IrEventView::LoopMarker { at: step, kind },
        IrEventView::AtCommand { track, at, family, number, spelling, context, span } =>
        IrEventView::AtCommand { track, at: step, family, number, spelling, context, span },
        IrEventView::PsgEnvelopeSelect { track, at, number, kind } =>
        IrEventView::PsgEnvelopeSelect { track, at: step, number, kind },
        IrEventView::ToneChange { track, at, family, tone } => IrEventView::ToneChange {
            track,
            at: step,
            family,
            tone,
        },
        IrEventView::EnvelopeApply { track, at, family, number, kind } =>
        IrEventView::EnvelopeApply { track, at: step, family, number, kind },
        IrEventView::RegisterWrite { track, at, family, register, data, context, span } =>
        IrEventView::RegisterWrite { track, at: step, family, register, data, context, span },
        IrEventView::ManualSmf { track, channel, at, request, span } => IrEventView::ManualSmf {
            track,
            channel,
            at: step,
            request,
            span,
        },
    }
}

fn event_step(e: &IrEvent) -> (r: Option<Rational>)
    ensures
        ir::opt_frac(r) == event_at(e.deep_view()),
{
    match e {
        IrEvent::Note { start_steps, .. } => Some(*start_steps),
        IrEvent::Rest { start_steps, .. } => Some(*start_steps),
        IrEvent::Tempo { at_steps, .. } => Some(*at_steps),
        IrEvent::Control { at_steps, .. } => Some(*at_steps),
        IrEvent::LoopMarker { .. } => None,
        IrEvent::AtCommand { source_step, .. } => Some(*source_step),
        IrEvent::PsgEnvelopeSelect { source_step, .. } => Some(*source_step),
        IrEvent::ToneChange { source_step, .. } => Some(*source_step),
        IrEvent::EnvelopeApply { source_step, .. } => Some(*source_step),
        IrEvent::RegisterWrite { source_step, .. } => Some(*source_step),
        IrEvent::ManualSmf { source_step, .. } => Some(*source_step),
    }
}

fn event_duration(e: &IrEvent) -> (r: Rational)
    ensures
        r.deep_view() == event_length(e.deep_view()),
{
    match e {
        IrEvent::Note { duration_steps, .. } => *duration_steps,
        IrEvent::Rest { duration_steps, .. } => *duration_steps,
        _ => Rational::zero(),
    }
}

fn place_event(e: &IrEvent, step: Rational, length: Rational) -> (r: IrEvent)
    ensures
        r.deep_view() == placed(e.deep_view(), step.deep_view(), length.deep_view()),
{
    match e.clone() {
        IrEvent::Note {
            start_steps: _,
            duration_steps: _,
            note,
            velocity,
            tone,
            envelope,
            meta,
        } => IrEvent::Note {
            start_steps: step,
            duration_steps: length,
            note,
            velocity,
            tone,
            envelope,
            meta,
        },
        IrEvent::Rest { start_steps: _, duration_steps: _ } => IrEvent::Rest {
            start_steps: step,
            duration_steps: length,
        },
        IrEvent::Tempo { at_steps: _, bpm } => IrEvent::Tempo { at_steps: step, bpm },
        IrEvent::Control { at_steps: _, kind } => IrEvent::Control { at_steps: step, kind },
        IrEvent::LoopMarker { at_steps: _, kind } => IrEvent::LoopMarker { at_steps: step, kind },
        IrEvent::AtCommand {
            source_track,
            source_step: _,
            family,
            number,
            spelling,
            context,
            source_span,
        } => IrEvent::AtCommand {
            source_track,
            source_step: step,
            family,
            number,
            spelling,
            context,
            source_span,
        },
        IrEvent::PsgEnvelopeSelect { source_track, source_step: _, envelope_number, kind } =>
        IrEvent::PsgEnvelopeSelect { source_track, source_step: step, envelope_number, kind },
        IrEvent::ToneChange { source_track, source_step: _, family, tone_number } =>
        IrEvent::ToneChange { source_track, source_step: step, family, tone_number },
        IrEvent::EnvelopeApply { source_track, source_step: _, family, envelope_number, kind } =>
        IrEvent::EnvelopeApply { source_track, source_step: step, family, envelope_number, kind },
        IrEvent::RegisterWrite {
            source_track,
            source_step: _,
            family,
            register,
            data,
            context,
            source_span,
        } => IrEvent::RegisterWrite {
            source_track,
            source_step: step,
            family,
            register,
            data,
            context,
            source_span,
        },
        IrEvent::ManualSmf { source_track, target_channel, source_step: _, request, source_span } =>
        IrEvent::ManualSmf { source_track, target_channel, source_step: step, request, source_span },
    }
}

// ---------------------------------------------------------------------------
// Regions
// ---------------------------------------------------------------------------
/// The first marked loop, of the events from `i` on, that is not empty; `open`
/// is the last start marker before.
pub open spec fn region_from(events: Seq<IrEventView>, i: int, open: Option<Frac>) -> Option<
    (Frac, Frac),
>
    decreases events.len() - i,
{
    if i < 0 || i >= events.len() {
        None
    } else {
        match events[i] {
            IrEventView::LoopMarker { at, kind } => if kind == LoopMarkerKind::Start {
                region_from(events, i + 1, Some(at))
            } else {
                match open {
                    Some(start) => if fraction::less(start, at) {
                        Some((start, at))
                    } else {
                        region_from(events, i + 1, open)
                    },
                    None => region_from(events, i + 1, open),
                }
            },
            _ => region_from(events, i + 1, open),
        }
    }
}

/// The endless loop of a track.
pub open spec fn region(t: TrackIrView) -> Option<(Frac, Frac)> {
    region_from(t.events, 0, None)
}

pub open spec fn opt_region(r: Option<(Rational, Rational)>) -> Option<(Frac, Frac)> {
    match r {
        Some((a, b)) => Some((a.deep_view(), b.deep_view())),
        None => None,
    }
}

pub fn infinite_loop_region(t: &TrackIr) -> (r: Option<(Rational, Rational)>)
    ensures
        opt_region(r) == region(t.deep_view()),
{
    let ghost events = t.deep_view().events;
    let mut open: Option<Rational> = None;
    let mut i: usize = 0;
    while i < t.events.len()
        invariant
            i <= t.events@.len(),
            events == views::all_views(t.events@),
            region_from(events, 0, None) == region_from(events, i as int, ir::opt_frac(open)),
        decreases t.events@.len() - i,
    {
        assert(events[i as int] == t.events@[i as int].deep_view());
        match &t.events[i] {
            IrEvent::LoopMarker { at_steps, kind } => {
                if *kind == LoopMarkerKind::Start {
                    open = Some(*at_steps);
                } else {
                    match open {
                        Some(start) => {
                            if start.lt(*at_steps) {
                                return Some((start, *at_steps));
                            }
                        },
                        None => {},
                    }
                }
            },
            _ => {},
        }
        i += 1;
    }
    None
}

/// The length of the longest of the first `n` tracks.
pub open spec fn longest(tracks: Seq<TrackIrView>, n: int) -> Frac
    decreases n,
{
    if n <= 1 {
        tracks[0].length
    } else {
        let before = longest(tracks, n - 1);
        if fraction::less(tracks[n - 1].length, before) {
            before
        } else {
            tracks[n - 1].length
        }
    }
}

fn common_horizon(tracks: &Vec<TrackIr>) -> (r: Rational)
    requires
        tracks@.len() > 0,
    ensures
        r.deep_view() == longest(views::all_views(tracks@), tracks@.len() as int),
{
    let ghost all = views::all_views(tracks@);
    let mut best = tracks[0].length_steps;
    let mut i: usize = 1;
    while i < tracks.len()
        invariant
            1 <= i <= tracks@.len(),
            all == views::all_views(tracks@),
            best.deep_view() == longest(all, i as int),
        decreases tracks@.len() - i,
    {
        assert(all[i as int] == tracks@[i as int].deep_view());
        let length = tracks[i].length_steps;
        if !length.lt(best) {
            best = length;
        }
        i += 1;
    }
    best
}

// ---------------------------------------------------------------------------
// Playing on
// ---------------------------------------------------------------------------
/// An event of the loop, later by `shift` and cut at the horizon; it is dropped
/// where it would begin there or later. `None` when a position cannot be held.
pub open spec fn shifted(e: IrEventView, step: Frac, shift: Frac, horizon: Frac) -> Option<
    Option<IrEventView>,
> {
    match fraction::plus(step, shift) {
        Some(start) => if !fraction::less(start, horizon) {
            Some(None)
        } else {
            match fraction::plus(start, event_length(e)) {
                Some(end) => if fraction::less(horizon, end) {
                    match fraction::minus(horizon, start) {
                        Some(rest) => if fraction::less(fraction::whole(0), rest) {
                            Some(Some(placed(e, start, rest)))
                        } else {
                            Some(None)
                        },
                        None => None,
                    }
                } else {
                    Some(Some(placed(e, start, event_length(e))))
                },
                None => None,
            }
        },
        None => None,
    }
}

/// The events with one more round of the loop: of the first `n` original events,
/// those from `start` on and before `stop`, later by `shift`.
pub open spec fn with_round(
    events: Seq<IrEventView>,
    original: Seq<IrEventView>,
    n: int,
    start: Frac,
    stop: Frac,
    shift: Frac,
    horizon: Frac,
) -> Option<Seq<IrEventView>>
    decreases n,
{
    if n <= 0 {
        Some(events)
    } else {
        match with_round(events, original, n - 1, start, stop, shift, horizon) {
            Some(before) => match event_at(original[n - 1]) {
                Some(step) => if fraction::less(step, start) || !fraction::less(step, stop) {
                    Some(before)
                } else {
                    match shifted(original[n - 1], step, shift, horizon) {
                        Some(Some(e)) => Some(before.push(e)),
                        Some(None) => Some(before),
                        None => None,
                    }
                },
                None => Some(before),
            },
            None => None,
        }
    }
}

/// How many whole loops fit between a shifted start and the horizon.
pub open spec fn loops_left(start: Frac, shift: Frac, length: Frac, horizon: Frac) -> int {
    let a = horizon.num * start.den - start.num * horizon.den;
    let b = horizon.den * start.den;
    ((a * shift.den - shift.num * b) * length.den) / (b * shift.den * length.num)
}

pub open spec fn rounds_measure(start: Frac, shift: Frac, length: Frac, horizon: Frac) -> nat {
    let n = loops_left(start, shift, length, horizon) + 1;
    if n < 0 {
        0
    } else {
        n as nat
    }
}

/// The events with further rounds, each later than the one before by `length`,
/// as long as one begins before the horizon.
pub open spec fn with_rounds(
    events: Seq<IrEventView>,
    original: Seq<IrEventView>,
    start: Frac,
    stop: Frac,
    length: Frac,
    shift: Frac,
    horizon: Frac,
) -> Option<Seq<IrEventView>>
    decreases rounds_measure(start, shift, length, horizon),
{
    if horizon.den <= 0 || length.den <= 0 || length.num <= 0 {
        None
    } else {
        match fraction::plus(start, shift) {
            Some(first) => if !fraction::less(first, horizon) {
                Some(events)
            } else {
                match with_round(
                    events,
                    original,
                    original.len() as int,
                    start,
                    stop,
                    shift,
                    horizon,
                ) {
                    Some(more) => match fraction::plus(shift, length) {
                        Some(next) => {
                            proof {
                                rounds_decrease(start, shift, length, horizon);
                            }
                            with_rounds(more, original, start, stop, length, next, horizon)
                        },
                        None => None,
                    },
                    None => None,
                }
            },
            None => None,
        }
    }
}

/// Every round brings the loop nearer to the horizon.
pub proof fn rounds_decrease(start: Frac, shift: Frac, length: Frac, horizon: Frac)
    requires
        fraction::plus(start, shift) is Some,
        fraction::less(fraction::plus(start, shift)->0, horizon),
        fraction::plus(shift, length) is Some,
        length.num > 0,
        horizon.den > 0,
    ensures
        rounds_measure(start, fraction::plus(shift, length)->0, length, horizon) < rounds_measure(
            start,
            shift,
            length,
            horizon,
        ),
{
    let first = fraction::plus(start, shift)->0;
    let next = fraction::plus(shift, length)->0;
    fraction::plus_adds(start, shift);
    fraction::plus_adds(shift, length);
    let a = horizon.num * start.den - start.num * horizon.den;
    let b = horizon.den * start.den;
    let sn = shift.num;
    let sd = shift.den;
    let ln = length.num;
    let ld = length.den;
    let tn = next.num;
    let td = next.den;
    let n = (a * sd - sn * b) * ld;
    let d = b * sd * ln;
    let n2 = (a * td - tn * b) * ld;
    let d2 = b * td * ln;
    assert(b > 0) by (nonlinear_arith)
        requires
            b == horizon.den * start.den,
            horizon.den > 0,
            start.den > 0,
    ;
    assert(d > 0) by (nonlinear_arith)
        requires
            d == b * sd * ln,
            b > 0,
            sd > 0,
            ln > 0,
    ;
    assert(d2 > 0) by (nonlinear_arith)
        requires
            d2 == b * td * ln,
            b > 0,
            td > 0,
            ln > 0,
    ;
    // The loop begins before the horizon, so part of it is left.
    let x = a * sd - sn * b;
    assert(x > 0) by {
        let u = start.num * sd + sn * start.den;
        let v = start.den * sd;
        assert(first.num * v == u * first.den);
        assert(first.num * horizon.den < horizon.num * first.den);
        assert(v > 0) by (nonlinear_arith)
            requires
                v == start.den * sd,
                start.den > 0,
                sd > 0,
        ;
        assert(u * horizon.den < horizon.num * v) by (nonlinear_arith)
            requires
                first.num * v == u * first.den,
                first.num * horizon.den < horizon.num * first.den,
                v > 0,
                first.den > 0,
                horizon.den > 0,
        ;
        let hn = horizon.num;
        let hd = horizon.den;
        let an = start.num;
        let ad = start.den;
        assert(a * sd == hn * (ad * sd) - (an * sd) * hd) by (nonlinear_arith)
            requires
                a == hn * ad - an * hd,
        ;
        assert(sn * b == (sn * ad) * hd) by (nonlinear_arith)
            requires
                b == hd * ad,
        ;
        lemma_mul_is_distributive_add_other_way(hd, an * sd, sn * ad);
        assert(x == hn * v - u * hd);
    }
    assert(n > 0) by (nonlinear_arith)
        requires
            n == x * ld,
            x > 0,
            ld > 0,
    ;
    // One round later, exactly one loop less is left.
    let t = sd * ld * tn;
    assert(t == (sn * ld + ln * sd) * td) by {
        assert(tn * (sd * ld) == (sn * ld + ln * sd) * td);
        lemma_mul_is_commutative(tn, sd * ld);
    }
    assert(n2 * d == (n - d) * d2) by {
        let k = b * ln;
        let p = (a * td - tn * b) * (ld * sd);
        let q = (a * (sd * ld) - b * (sn * ld + ln * sd)) * td;
        assert(n2 * d == k * p) by (nonlinear_arith)
            requires
                n2 == (a * td - tn * b) * ld,
                d == b * sd * ln,
                k == b * ln,
                p == (a * td - tn * b) * (ld * sd),
        ;
        assert(n == a * (sd * ld) - b * (sn * ld)) by (nonlinear_arith)
            requires
                n == (a * sd - sn * b) * ld,
        ;
        assert(d == b * (ln * sd)) by (nonlinear_arith)
            requires
                d == b * sd * ln,
        ;
        lemma_mul_is_distributive_add(b, sn * ld, ln * sd);
        assert((n - d) * d2 == k * q) by (nonlinear_arith)
            requires
                n - d == a * (sd * ld) - b * (sn * ld + ln * sd),
                d2 == b * td * ln,
                k == b * ln,
                q == (a * (sd * ld) - b * (sn * ld + ln * sd)) * td,
        ;
        assert(p == a * td * (ld * sd) - b * t) by (nonlinear_arith)
            requires
                p == (a * td - tn * b) * (ld * sd),
                t == sd * ld * tn,
        ;
        assert(q == a * td * (ld * sd) - b * ((sn * ld + ln * sd) * td)) by (nonlinear_arith)
            requires
                q == (a * (sd * ld) - b * (sn * ld + ln * sd)) * td,
        ;
    }
    equal_quotients(n2, d2, n - d, d);
    lemma_div_minus_one(n, d);
    lemma_div_pos_is_pos(n, d);
    assert(loops_left(start, next, length, horizon) == n2 / d2);
    assert(loops_left(start, shift, length, horizon) == n / d);
}

proof fn lemma_div_minus_one(n: int, d: int)
    requires
        d > 0,
    ensures
        (n - d) / d == n / d - 1,
{
    lemma_fundamental_div_mod(n, d);
    let q = n / d;
    let r = n % d;
    assert(n - d == (q - 1) * d + r) by (nonlinear_arith)
        requires
            n == d * q + r,
    ;
    lemma_fundamental_div_mod_converse(n - d, d, q - 1, r);
}

/// Equal fractions have equal quotients.
proof fn equal_quotients(p: int, q: int, r: int, s: int)
    requires
        q > 0,
        s > 0,
        p * s == r * q,
    ensures
        p / q == r / s,
{
    lemma_fundamental_div_mod(p, q);
    lemma_fundamental_div_mod(r, s);
    let x = p / q;
    let y = r / s;
    let m = p % q;
    let n = r % s;
    assert(x <= y) by (nonlinear_arith)
        requires
            p == q * x + m,
            r == s * y + n,
            0 <= m < q,
            0 <= n < s,
            q > 0,
            s > 0,
            p * s == r * q,
    ;
    assert(y <= x) by (nonlinear_arith)
        requires
            p == q * x + m,
            r == s * y + n,
            0 <= m < q,
            0 <= n < s,
            q > 0,
            s > 0,
            p * s == r * q,
    ;
}

/// One loop of a region that was played `loop_count` times.
pub open spec fn single_loop(expanded: Frac, loop_count: Option<u32>) -> Option<Frac> {
    match loop_count {
        Some(n) => if n > 0 {
            fraction::over(expanded, n as int)
        } else {
            Some(expanded)
        },
        None => Some(expanded),
    }
}

/// The track with its loop played on up to the horizon. `None` when a position
/// cannot be held.
pub open spec fn played_on(
    t: TrackIrView,
    start: Frac,
    end: Frac,
    horizon: Frac,
    loop_count: Option<u32>,
) -> Option<TrackIrView> {
    match fraction::minus(end, start) {
        Some(expanded) => match single_loop(expanded, loop_count) {
            Some(length) => if !fraction::less(fraction::whole(0), length) {
                Some(t)
            } else {
                match fraction::plus(start, length) {
                    Some(stop) => match with_rounds(
                        t.events,
                        t.events,
                        start,
                        stop,
                        length,
                        expanded,
                        horizon,
                    ) {
                        Some(events) => Some(
                            TrackIrView {
                                events,
                                length: if fraction::less(t.length, horizon) {
                                    horizon
                                } else {
                                    t.length
                                },
                                ..t
                            },
                        ),
                        None => None,
                    },
                    None => None,
                }
            },
            None => None,
        },
        None => None,
    }
}

/// A track after the common horizon is known.
pub open spec fn to_horizon(t: TrackIrView, horizon: Frac, loop_count: Option<u32>) -> Option<
    TrackIrView,
> {
    match region(t) {
        Some((start, end)) => if fraction::less(end, horizon) {
            played_on(t, start, end, horizon, loop_count)
        } else {
            Some(t)
        },
        None => Some(t),
    }
}

/// The first `n` tracks after the common horizon is known.
pub open spec fn all_to_horizon(
    tracks: Seq<TrackIrView>,
    n: int,
    horizon: Frac,
    loop_count: Option<u32>,
) -> Option<Seq<TrackIrView>>
    decreases n,
{
    if n <= 0 {
        Some(Seq::empty())
    } else {
        match all_to_horizon(tracks, n - 1, horizon, loop_count) {
            Some(done) => match to_horizon(tracks[n - 1], horizon, loop_count) {
                Some(t) => Some(done.push(t)),
                None => None,
            },
            None => None,
        }
    }
}

/// All tracks with their endless loops played on to the end of the longest one.
pub open spec fn common_end(tracks: Seq<TrackIrView>, loop_count: Option<u32>) -> Option<
    Seq<TrackIrView>,
> {
    if tracks.len() == 0 {
        Some(tracks)
    } else {
        all_to_horizon(
            tracks,
            tracks.len() as int,
            longest(tracks, tracks.len() as int),
            loop_count,
        )
    }
}

fn shift_loop_event(e: &IrEvent, step: Rational, shift: Rational, horizon: Rational) -> (r: Option<
    Option<IrEvent>,
>)
    ensures
        match r {
            Some(x) => shifted(
                e.deep_view(),
                step.deep_view(),
                shift.deep_view(),
                horizon.deep_view(),
            ) == Some(x.deep_view()),
            None => shifted(
                e.deep_view(),
                step.deep_view(),
                shift.deep_view(),
                horizon.deep_view(),
            ) is None,
        },
{
    let start = match step.checked_add(shift) {
        Some(v) => v,
        None => {
            return None;
        },
    };
    if !start.lt(horizon) {
        return Some(None);
    }
    let length = event_duration(e);
    let end = match start.checked_add(length) {
        Some(v) => v,
        None => {
            return None;
        },
    };
    if horizon.lt(end) {
        let rest = match horizon.checked_sub(start) {
            Some(v) => v,
            None => {
                return None;
            },
        };
        if !Rational::zero().lt(rest) {
            return Some(None);
        }
        return Some(Some(place_event(e, start, rest)));
    }
    Some(Some(place_event(e, start, length)))
}

fn add_round(
    events: &mut Vec<IrEvent>,
    original: &Vec<IrEvent>,
    start: Rational,
    stop: Rational,
    shift: Rational,
    horizon: Rational,
) -> (r: bool)
    ensures
        match with_round(
            views::all_views(old(events)@),
            views::all_views(original@),
            original@.len() as int,
            start.deep_view(),
            stop.deep_view(),
            shift.deep_view(),
            horizon.deep_view(),
        ) {
            Some(v) => r && views::all_views(final(events)@) == v,
            None => !r,
        },
{
    let ghost base = views::all_views(events@);
    let ghost all = views::all_views(original@);
    let mut i: usize = 0;
    while i < original.len()
        invariant
            i <= original@.len(),
            all == views::all_views(original@),
            base == views::all_views(old(events)@),
            with_round(
                base,
                all,
                i as int,
                start.deep_view(),
                stop.deep_view(),
                shift.deep_view(),
                horizon.deep_view(),
            ) == Some(views::all_views(events@)),
        decreases original@.len() - i,
    {
        let e = &original[i];
        assert(all[i as int] == e.deep_view());
        match event_step(e) {
            Some(step) => {
                if !step.lt(start) && step.lt(stop) {
                    match shift_loop_event(e, step, shift, horizon) {
                        Some(Some(moved)) => {
                            push_viewed(events, moved);
                        },
                        Some(None) => {},
                        None => {
                            proof {
                                with_round_fails(
                                    base,
                                    all,
                                    i + 1,
                                    all.len() as int,
                                    start.deep_view(),
                                    stop.deep_view(),
                                    shift.deep_view(),
                                    horizon.deep_view(),
                                );
                            }
                            return false;
                        },
                    }
                }
            },
            None => {},
        }
        i += 1;
    }
    true
}

proof fn with_round_fails(
    events: Seq<IrEventView>,
    original: Seq<IrEventView>,
    i: int,
    n: int,
    start: Frac,
    stop: Frac,
    shift: Frac,
    horizon: Frac,
)
    requires
        i <= n,
        with_round(events, original, i, start, stop, shift, horizon) is None,
    ensures
        with_round(events, original, n, start, stop, shift, horizon) is None,
    decreases n - i,
{
    if i < n {
        with_round_fails(events, original, i, n - 1, start, stop, shift, horizon);
    }
}

fn extend_track_loop_to_horizon(
    t: &mut TrackIr,
    start: Rational,
    end: Rational,
    horizon: Rational,
    loop_count: Option<u32>,
) -> (r: bool)
    ensures
        match played_on(
            old(t).deep_view(),
            start.deep_view(),
            end.deep_view(),
            horizon.deep_view(),
            loop_count,
        ) {
            Some(v) => r && final(t).deep_view() == v,
            None => !r,
        },
{
    let expanded = match end.checked_sub(start) {
        Some(v) => v,
        None => {
            return false;
        },
    };
    let single = match loop_count {
        Some(n) => if n > 0 {
            expanded.checked_div(n as i64)
        } else {
            Some(expanded)
        },
        None => Some(expanded),
    };
    let length = match single {
        Some(v) => v,
        None => {
            return false;
        },
    };
    if !Rational::zero().lt(length) {
        return true;
    }
    let stop = match start.checked_add(length) {
        Some(v) => v,
        None => {
            return false;
        },
    };
    let original = copy_events(&t.events);
    let ghost all = views::all_views(original@);
    let ghost goal = with_rounds(
        all,
        all,
        start.deep_view(),
        stop.deep_view(),
        length.deep_view(),
        expanded.deep_view(),
        horizon.deep_view(),
    );
    if horizon.den <= 0 || length.den <= 0 || length.num <= 0 {
        return false;
    }
    let mut shift = expanded;
    let ghost before = t.deep_view();
    loop
        invariant
            all == views::all_views(original@),
            horizon.den > 0,
            length.den > 0,
            length.num > 0,
            before == old(t).deep_view(),
            t.deep_view() == (TrackIrView { events: views::all_views(t.events@), ..before }),
            goal == with_rounds(
                views::all_views(t.events@),
                all,
                start.deep_view(),
                stop.deep_view(),
                length.deep_view(),
                shift.deep_view(),
                horizon.deep_view(),
            ),
            played_on(
                before,
                start.deep_view(),
                end.deep_view(),
                horizon.deep_view(),
                loop_count,
            ) == match goal {
                Some(events) => Some(
                    TrackIrView {
                        events,
                        length: if fraction::less(before.length, horizon.deep_view()) {
                            horizon.deep_view()
                        } else {
                            before.length
                        },
                        ..before
                    },
                ),
                None => None,
            },
        ensures
            goal == Some(views::all_views(t.events@)),
            t.deep_view() == (TrackIrView { events: views::all_views(t.events@), ..before }),
        decreases
            rounds_measure(
                start.deep_view(),
                shift.deep_view(),
                length.deep_view(),
                horizon.deep_view(),
            ),
    {
        let first = match start.checked_add(shift) {
            Some(v) => v,
            None => {
                return false;
            },
        };
        if !first.lt(horizon) {
            break;
        }
        if !add_round(&mut t.events, &original, start, stop, shift, horizon) {
            return false;
        }
        let next = match shift.checked_add(length) {
            Some(v) => v,
            None => {
                return false;
            },
        };
        proof {
            rounds_decrease(
                start.deep_view(),
                shift.deep_view(),
                length.deep_view(),
                horizon.deep_view(),
            );
        }
        shift = next;
    }
    if t.length_steps.lt(horizon) {
        t.length_steps = horizon;
    }
    true
}

/// Plays every endless loop on to the end of the longest track; `false` when a
/// position cannot be held.
pub fn extend_infinite_loops_to_common_horizon(
    tracks: Vec<TrackIr>,
    loop_count: Option<u32>,
) -> (r: Option<Vec<TrackIr>>)
    ensures
        match r {
            Some(v) => common_end(views::all_views(tracks@), loop_count) == Some(views::all_views(v@)),
            None => common_end(views::all_views(tracks@), loop_count) is None,
        },
{
    if tracks.len() == 0 {
        return Some(tracks);
    }
    let horizon = common_horizon(&tracks);
    let ghost all = views::all_views(tracks@);
    let mut out: Vec<TrackIr> = Vec::new();
    let mut i: usize = 0;
    assert(views::all_views(out@) =~= Seq::empty());
    while i < tracks.len()
        invariant
            i <= tracks@.len(),
            tracks@.len() > 0,
            all == views::all_views(tracks@),
            horizon.deep_view() == longest(all, all.len() as int),
            all_to_horizon(all, i as int, horizon.deep_view(), loop_count) == Some(
                views::all_views(out@),
            ),
        decreases tracks@.len() - i,
    {
        assert(all[i as int] == tracks@[i as int].deep_view());
        let mut t = tracks[i].clone();
        let mut fits: bool = true;
        match infinite_loop_region(&tracks[i]) {
            Some((start, end)) => {
                if end.lt(horizon) {
                    fits =
                    extend_track_loop_to_horizon(&mut t, start, end, horizon, loop_count);
                }
            },
            None => {},
        }
        if !fits {
            proof {
                horizon_fails(all, i + 1, all.len() as int, horizon.deep_view(), loop_count);
            }
            return None;
        }
        push_viewed(&mut out, t);
        i += 1;
    }
    Some(out)
}

proof fn horizon_fails(
    tracks: Seq<TrackIrView>,
    i: int,
    n: int,
    horizon: Frac,
    loop_count: Option<u32>,
)
    requires
        i <= n,
        all_to_horizon(tracks, i, horizon, loop_count) is None,
    ensures
        all_to_horizon(tracks, n, horizon, loop_count) is None,
    decreases n - i,
{
    if i < n {
        horizon_fails(tracks, i, n - 1, horizon, loop_count);
    }
}

// ---------------------------------------------------------------------------
// Laws
// ---------------------------------------------------------------------------
/// Every event behind the first `n` begins before the horizon.
pub open spec fn added_before(events: Seq<IrEventView>, n: int, horizon: Frac) -> bool {
    forall|i: int|
        n <= i < events.len() ==> #[trigger] event_at(events[i]) is Some && fraction::less(
            event_at(events[i])->0,
            horizon,
        )
}

proof fn round_adds(
    events: Seq<IrEventView>,
    original: Seq<IrEventView>,
    n: int,
    start: Frac,
    stop: Frac,
    shift: Frac,
    horizon: Frac,
    kept: int,
)
    requires
        0 <= kept <= events.len(),
        added_before(events, kept, horizon),
        with_round(events, original, n, start, stop, shift, horizon) is Some,
    ensures
        ({
            let more = with_round(events, original, n, start, stop, shift, horizon)->0;
            &&& more.len() >= events.len()
            &&& more.take(kept) == events.take(kept)
            &&& added_before(more, kept, horizon)
        }),
    decreases n,
{
    if n > 0 {
        round_adds(events, original, n - 1, start, stop, shift, horizon, kept);
        let before = with_round(events, original, n - 1, start, stop, shift, horizon)->0;
        let more = with_round(events, original, n, start, stop, shift, horizon)->0;
        if more != before {
            assert(more.drop_last() =~= before);
            assert(more.take(kept) =~= before.take(kept));
            assert(forall|i: int|
                0 <= i < before.len() ==> event_at(more[i]) == event_at(#[trigger] before[i]));
        }
    }
}

proof fn rounds_add(
    events: Seq<IrEventView>,
    original: Seq<IrEventView>,
    start: Frac,
    stop: Frac,
    length: Frac,
    shift: Frac,
    horizon: Frac,
    kept: int,
)
    requires
        0 <= kept <= events.len(),
        added_before(events, kept, horizon),
        with_rounds(events, original, start, stop, length, shift, horizon) is Some,
    ensures
        ({
            let more = with_rounds(events, original, start, stop, length, shift, horizon)->0;
            &&& more.len() >= events.len()
            &&& more.take(kept) == events.take(kept)
            &&& added_before(more, kept, horizon)
        }),
    decreases rounds_measure(start, shift, length, horizon),
{
    let first = fraction::plus(start, shift)->0;
    if fraction::less(first, horizon) {
        let n = original.len() as int;
        let more = with_round(events, original, n, start, stop, shift, horizon)->0;
        let next = fraction::plus(shift, length)->0;
        round_adds(events, original, n, start, stop, shift, horizon, kept);
        rounds_decrease(start, shift, length, horizon);
        rounds_add(more, original, start, stop, length, next, horizon, kept);
    }
}

/// No track is longer than the longest.
pub proof fn longest_is_longest(tracks: Seq<TrackIrView>, n: int, i: int)
    requires
        0 <= i < n <= tracks.len(),
        forall|k: int| 0 <= k < n ==> (#[trigger] tracks[k]).length.den > 0,
    ensures
        longest(tracks, n).den > 0,
        !fraction::less(longest(tracks, n), tracks[i].length),
    decreases n,
{
    assert(tracks[n - 1].length.den > 0);
    if n > 1 {
        let before = longest(tracks, n - 1);
        if i < n - 1 {
            longest_is_longest(tracks, n - 1, i);
            if !fraction::less(tracks[n - 1].length, before) {
                fraction::order_is_transitive(tracks[n - 1].length, before, tracks[i].length);
            }
        } else {
            longest_is_longest(tracks, n - 1, n - 2);
        }
    }
}

/// What becomes of one track on the way to the common end: a track without an
/// endless loop stays as it is. One with a loop that ends before the horizon is
/// played on: its events stay, what is added begins before the horizon, and the
/// track ends where the horizon is, unless it was longer already.
pub open spec fn reaches(
    before: TrackIrView,
    after: TrackIrView,
    horizon: Frac,
) -> bool {
    match region(before) {
        Some((start, end)) => if fraction::less(end, horizon) {
            &&& after.length == if fraction::less(before.length, horizon) {
                horizon
            } else {
                before.length
            }
            &&& after.events.len() >= before.events.len()
            &&& after.events.take(before.events.len() as int) == before.events
            &&& added_before(after.events, before.events.len() as int, horizon)
        } else {
            after == before
        },
        None => after == before,
    }
}

proof fn region_is_not_empty(events: Seq<IrEventView>, i: int, open: Option<Frac>)
    requires
        region_from(events, i, open) is Some,
    ensures
        fraction::less((region_from(events, i, open)->0).0, (region_from(events, i, open)->0).1),
    decreases events.len() - i,
{
    match events[i] {
        IrEventView::LoopMarker { at, kind } => if kind == LoopMarkerKind::Start {
            region_is_not_empty(events, i + 1, Some(at));
        } else if !(open is Some && fraction::less(open->0, at)) {
            region_is_not_empty(events, i + 1, open);
        },
        _ => {
            region_is_not_empty(events, i + 1, open);
        },
    }
}

proof fn one_track_reaches(t: TrackIrView, horizon: Frac, loop_count: Option<u32>)
    requires
        to_horizon(t, horizon, loop_count) is Some,
    ensures
        reaches(t, to_horizon(t, horizon, loop_count)->0, horizon),
{
    if let Some((start, end)) = region(t) {
        if fraction::less(end, horizon) {
            region_is_not_empty(t.events, 0, None);
            fraction::minus_is_positive(end, start);
            let expanded = fraction::minus(end, start)->0;
            match loop_count {
                Some(n) => {
                    if n > 0 {
                        fraction::over_is_positive(expanded, n as int);
                    }
                },
                None => {},
            }
            let length = single_loop(expanded, loop_count)->0;
            assert(fraction::less(fraction::whole(0), length)) by (nonlinear_arith)
                requires
                    length.num > 0,
            ;
            let stop = fraction::plus(start, length)->0;
            let kept = t.events.len() as int;
            rounds_add(t.events, t.events, start, stop, length, expanded, horizon, kept);
            assert(t.events.take(kept) =~= t.events);
        }
    }
}

proof fn tracks_reach(
    tracks: Seq<TrackIrView>,
    n: int,
    horizon: Frac,
    loop_count: Option<u32>,
)
    requires
        0 <= n <= tracks.len(),
        all_to_horizon(tracks, n, horizon, loop_count) is Some,
    ensures
        ({
            let done = all_to_horizon(tracks, n, horizon, loop_count)->0;
            &&& done.len() == n
            &&& forall|i: int| 0 <= i < n ==> reaches(#[trigger] tracks[i], done[i], horizon)
        }),
    decreases n,
{
    if n > 0 {
        tracks_reach(tracks, n - 1, horizon, loop_count);
        one_track_reaches(tracks[n - 1], horizon, loop_count);
    }
}

/// Endless loops end together: every track with a loop that stops before the
/// longest track ends is played on until then, and no further; its own events
/// stay in front. The other tracks stay as they are.
pub proof fn loops_end_together(tracks: Seq<TrackIrView>, loop_count: Option<u32>)
    requires
        tracks.len() > 0,
        forall|k: int| 0 <= k < tracks.len() ==> (#[trigger] tracks[k]).length.den > 0,
        common_end(tracks, loop_count) is Some,
    ensures
        ({
            let done = common_end(tracks, loop_count)->0;
            let horizon = longest(tracks, tracks.len() as int);
            &&& done.len() == tracks.len()
            &&& forall|i: int|
                0 <= i < tracks.len() ==> {
                    &&& reaches(#[trigger] tracks[i], done[i], horizon)
                    &&& !fraction::less(horizon, tracks[i].length)
                    &&& region(tracks[i]) is Some && fraction::less((region(tracks[i])->0).1, horizon)
                        ==> fraction::same_value(done[i].length, horizon)
                }
        }),
{
    let n = tracks.len() as int;
    let horizon = longest(tracks, n);
    tracks_reach(tracks, n, horizon, loop_count);
    let done = common_end(tracks, loop_count)->0;
    assert forall|i: int| 0 <= i < n implies {
        &&& reaches(#[trigger] tracks[i], done[i], horizon)
        &&& !fraction::less(horizon, tracks[i].length)
        &&& region(tracks[i]) is Some && fraction::less((region(tracks[i])->0).1, horizon) ==> fraction::same_value(
            done[i].length,
            horizon,
        )
    } by {
        longest_is_longest(tracks, n, i);
    }
}

} // verus!
