//! What pitch glides sound like.

use vstd::prelude::*;

use crate::diagnostics::DiagnosticsView;
use crate::fraction;
use crate::ir::{IrEventView, PitchGlideMetaView};
use crate::render::events;
use crate::render::events::{KindView, PRI_PITCH_BEND, RenderedEventView};
use crate::render::messages;
use crate::render::pitch_glide;
use crate::render::pitch_glide::{BendTargetView, Curve, SegmentView};
use crate::render::score::Place;
use crate::smfmap::{PitchGlideConfig, PitchGlideRangePolicy};

verus! {

/// The bend wheel stands a number of cents from its middle, as near as its 8192
/// positions to either side allow and no further than its ends.
pub open spec fn bends_by(position: u16, cents: int, range: int) -> bool {
    let d = position - 8192;
    ||| -range <= 2 * (d * range - cents * 8192) <= range
    ||| position == 16383 && cents * 8192 > 8191 * range
    ||| position == 0 && cents * 8192 < -8192 * range
}

/// The bend wheel is moved at a tick, on the track and channel of a glide.
pub open spec fn moves_wheel(e: RenderedEventView, g: BendTargetView, tick: u64, cents: int) -> bool {
    e.track_index == g.midi_track && e.abs_tick == tick && (e.kind matches KindView::PitchBend {
        channel,
        value,
    } && channel == g.channel && bends_by(value, cents, g.range()))
}

proof fn wheel_is_nearest(cents: int, range: int)
    requires
        range > 0,
    ensures
        bends_by(pitch_glide::bend_value(cents, range), cents, range),
        pitch_glide::bend_value(cents, range) <= 16383,
{
    let c = fraction::abs(cents) as int;
    let x = 2 * c * 8192 + range;
    let share = x / (2 * range);
    let y = share * range;
    assert(2 * y <= x < 2 * y + 2 * range && share >= 0) by (nonlinear_arith)
        requires
            share == x / (2 * range),
            y == share * range,
            range > 0,
            x >= 0,
    ;
    let d = pitch_glide::bend_value(cents, range) - 8192;
    assert(share >= 8192 ==> y >= 8192 * range) by (nonlinear_arith)
        requires
            y == share * range,
            range > 0,
    ;
    assert(share >= 8193 ==> y >= 8193 * range) by (nonlinear_arith)
        requires
            y == share * range,
            range > 0,
    ;
    assert(d == share ==> d * range == y) by (nonlinear_arith)
        requires
            y == share * range,
    ;
    assert(d == -share ==> d * range == -y) by (nonlinear_arith)
        requires
            y == share * range,
    ;
    assert((2 * fraction::abs(cents) * 8192 + range) / (2 * range) == share);
    if cents >= 0 {
        assert(share <= 8191 ==> d == share);
        assert(share > 8191 ==> d == 8191);
    } else {
        assert(share <= 8192 ==> d == -share);
        assert(share > 8192 ==> d == -8192);
    }
    let w = pitch_glide::bend_value(cents, range);
    assert(w - 8192 == d);
    let z = d * range;
    assert((w - 8192) * range == z);
    if cents >= 0 {
        assert(share <= 8191 ==> -range <= 2 * (z - cents * 8192) <= range);
        assert(share > 8191 ==> cents * 8192 > 8191 * range);
    } else {
        assert(share <= 8192 ==> -range <= 2 * (z - cents * 8192) <= range);
        assert(share > 8192 ==> cents * 8192 < -8192 * range);
    }
}

proof fn first_point_is_the_start(c: Curve, end: int)
    requires
        c.steps > 0,
        end >= 0,
        c.range > 0,
    ensures
        pitch_glide::curve_points(c, 0, end, None, None).len() > 0,
        ({
            let e = pitch_glide::curve_points(c, 0, end, None, None)[0];
            e.track_index == c.midi_track && e.abs_tick == c.start && (e.kind matches
                KindView::PitchBend { channel, value } && channel == c.channel && bends_by(
                value,
                c.from,
                c.range,
            ))
        }),
{
    wheel_is_nearest(c.from, c.range);
    assert((c.to - c.from) * 0 == 0 && c.span * 0 == 0) by (nonlinear_arith);
    assert(0int / c.steps == 0) by (nonlinear_arith)
        requires
            c.steps > 0,
    ;
    assert(c.cents(0) == c.from);
    assert(c.tick(0) == c.start);
}

/// The event of a step of a curve.
spec fn step_event(c: Curve, index: int) -> RenderedEventView {
    events::event(
        c.midi_track,
        c.tick(index),
        PRI_PITCH_BEND,
        KindView::PitchBend { channel: c.channel, value: pitch_glide::bend_value(c.cents(index), c.range) },
    )
}

proof fn last_point_is_given(
    c: Curve,
    index: int,
    last_cents: Option<int>,
    last_point: Option<(u64, u16)>,
)
    requires
        index <= c.steps,
    ensures
        pitch_glide::curve_points(c, index, c.steps, last_cents, last_point).contains(step_event(c, c.steps))
            || last_point == Some((c.tick(c.steps), pitch_glide::bend_value(c.cents(c.steps), c.range))),
    decreases c.steps - index,
{
    let cents = c.cents(index);
    let point = (c.tick(index), pitch_glide::bend_value(cents, c.range));
    let near = match last_cents {
        Some(last) => fraction::abs(cents - last) < c.min_delta,
        None => false,
    };
    let all = pitch_glide::curve_points(c, index, c.steps, last_cents, last_point);
    if index != 0 && index != c.steps && near || last_point == Some(point) {
        if index < c.steps {
            last_point_is_given(c, index + 1, last_cents, last_point);
        }
    } else {
        let rest = pitch_glide::curve_points(c, index + 1, c.steps, Some(cents), Some(point));
        assert(all =~= seq![step_event(c, index)] + rest);
        assert(all[0] == step_event(c, index));
        if index < c.steps {
            last_point_is_given(c, index + 1, Some(cents), Some(point));
            if rest.contains(step_event(c, c.steps)) {
                let k = choose|k: int| 0 <= k < rest.len() && rest[k] == step_event(c, c.steps);
                assert(all[k + 1] == rest[k]);
            }
        }
    }
}

/// Every point of a curve lies on the straight way from its start to its end, in
/// time and in pitch, to less than a tick and a cent.
pub open spec fn on_the_way(e: RenderedEventView, c: Curve, index: int, cents: int) -> bool {
    &&& 0 <= index <= c.steps
    &&& e.track_index == c.midi_track
    &&& 0 <= c.span * index - (e.abs_tick - c.start) * c.steps < c.steps
    &&& -c.steps < (cents - c.from) * c.steps - (c.to - c.from) * index < c.steps
    &&& e.kind matches KindView::PitchBend { channel, value }
    &&& channel == c.channel
    &&& bends_by(value, cents, c.range)
}

proof fn step_is_on_the_way(c: Curve, index: int)
    requires
        0 <= index <= c.steps,
        c.steps > 0,
        c.range > 0,
        c.start + c.span <= u64::MAX,
    ensures
        on_the_way(step_event(c, index), c, index, c.cents(index)),
{
    wheel_is_nearest(c.cents(index), c.range);
    pitch_glide::curve_stays_between(c, index);
    let steps = c.steps;
    let p = c.span * index;
    let q = p / steps;
    assert(0 <= p - q * steps < steps) by (nonlinear_arith)
        requires
            q == p / steps,
            steps > 0,
    ;
    let d = (c.to - c.from) * index;
    let t = pitch_glide::truncated(d, steps);
    let k = if d >= 0 {
        d / steps
    } else {
        (-d) / steps
    };
    let a = if d >= 0 {
        d
    } else {
        -d
    };
    assert(0 <= a - k * steps < steps) by (nonlinear_arith)
        requires
            k == a / steps,
            steps > 0,
    ;
    assert(t * steps == (if d >= 0 {
        k * steps
    } else {
        -(k * steps)
    })) by (nonlinear_arith)
        requires
            d >= 0 ==> t == k,
            d < 0 ==> t == -k,
    ;
    assert(c.cents(index) - c.from == t);
    let e = step_event(c, index);
    assert(e.abs_tick - c.start == q);
}

/// A glide is a straight line: each of its points lies on the way.
pub proof fn curves_are_straight(
    c: Curve,
    index: int,
    end: int,
    last_cents: Option<int>,
    last_point: Option<(u64, u16)>,
    k: int,
)
    requires
        0 <= index,
        end <= c.steps,
        c.steps > 0,
        c.range > 0,
        c.start + c.span <= u64::MAX,
        0 <= k < pitch_glide::curve_points(c, index, end, last_cents, last_point).len(),
    ensures
        exists|i: int, cents: int|
            index <= i <= end && #[trigger] on_the_way(
                pitch_glide::curve_points(c, index, end, last_cents, last_point)[k],
                c,
                i,
                cents,
            ),
    decreases end - index + 1,
{
    let cents = c.cents(index);
    let point = (c.tick(index), pitch_glide::bend_value(cents, c.range));
    let near = match last_cents {
        Some(last) => fraction::abs(cents - last) < c.min_delta,
        None => false,
    };
    let all = pitch_glide::curve_points(c, index, end, last_cents, last_point);
    if index != 0 && index != c.steps && near || last_point == Some(point) {
        curves_are_straight(c, index + 1, end, last_cents, last_point, k);
    } else {
        let rest = pitch_glide::curve_points(c, index + 1, end, Some(cents), Some(point));
        assert(all =~= seq![step_event(c, index)] + rest);
        if k == 0 {
            step_is_on_the_way(c, index);
            assert(on_the_way(all[0], c, index, cents));
        } else {
            assert(all[k] == rest[k - 1]);
            curves_are_straight(c, index + 1, end, Some(cents), Some(point), k - 1);
        }
    }
}

proof fn ends_of_a_segment(
    g: BendTargetView,
    start: u64,
    end: u64,
    from: int,
    to: int,
    source: Seq<char>,
    d: DiagnosticsView,
)
    requires
        pitch_glide::bent_segment(g, start, end, from, to, source, d).error is None,
        start < end,
    ensures
        g.config.curve.include_start_point ==> exists|j: int|
            0 <= j < pitch_glide::bent_segment(g, start, end, from, to, source, d).events.len()
                && #[trigger] moves_wheel(
                pitch_glide::bent_segment(g, start, end, from, to, source, d).events[j],
                g,
                start,
                from,
            ),
        g.config.curve.include_end_point ==> exists|j: int|
            0 <= j < pitch_glide::bent_segment(g, start, end, from, to, source, d).events.len()
                && #[trigger] moves_wheel(
                pitch_glide::bent_segment(g, start, end, from, to, source, d).events[j],
                g,
                (end - 1) as u64,
                to,
            ),
{
    let c = pitch_glide::segment_curve(g, start, end, from, to);
    let b = pitch_glide::bent_segment(g, start, end, from, to, source, d);
    let with_start = g.config.curve.include_start_point;
    let last = if g.config.curve.include_end_point {
        c.steps
    } else {
        c.steps - 1
    };
    let first: int = if with_start {
        0
    } else {
        1
    };
    let points = pitch_glide::curve_points(c, first, last, None, None);
    let shift = b.events.len() - points.len();
    assert(forall|k: int| 0 <= k < points.len() ==> #[trigger] b.events[k + shift] == points[k]);
    if with_start {
        first_point_is_the_start(c, last);
        assert(b.events[0 + shift] == points[0]);
        assert(moves_wheel(b.events[shift], g, start, from));
    }
    if g.config.curve.include_end_point {
        last_point_is_given(c, first, None, None);
        let e = step_event(c, c.steps);
        let k = choose|k: int| 0 <= k < points.len() && points[k] == e;
        assert(b.events[k + shift] == e);
        let steps = c.steps;
        assert(c.span * steps / steps == c.span) by (nonlinear_arith)
            requires
                steps > 0,
        ;
        let way = c.to - c.from;
        assert(way * steps >= 0 ==> (way * steps) / steps == way) by (nonlinear_arith)
            requires
                steps > 0,
        ;
        assert(way * steps < 0 ==> (-(way * steps)) / steps == -way) by (nonlinear_arith)
            requires
                steps > 0,
        ;
        assert(c.cents(steps) == to);
        wheel_is_nearest(to, c.range);
        assert(moves_wheel(b.events[k + shift], g, (end - 1) as u64, to));
    }
}

/// The key that a note of a group leads to.
spec fn goal_of(s: SegmentView) -> u8 {
    match s.meta.pitch_glide {
        Some(glide) => glide.target_midi_note,
        None => s.note,
    }
}

proof fn segments_are_among_the_group(
    g: BendTargetView,
    group: Seq<SegmentView>,
    n: int,
    k: int,
    d: DiagnosticsView,
)
    requires
        0 <= k < n <= group.len(),
        pitch_glide::bent_segments(g, group, n, d).error is None,
        group[k].start_tick < group[k].end_tick,
    ensures
        g.config.curve.include_start_point ==> exists|j: int|
            0 <= j < pitch_glide::bent_segments(g, group, n, d).events.len() && #[trigger] moves_wheel(
                pitch_glide::bent_segments(g, group, n, d).events[j],
                g,
                group[k].start_tick,
                100 * (group[k].note - group[0].note),
            ),
        g.config.curve.include_end_point ==> exists|j: int|
            0 <= j < pitch_glide::bent_segments(g, group, n, d).events.len() && #[trigger] moves_wheel(
                pitch_glide::bent_segments(g, group, n, d).events[j],
                g,
                (group[k].end_tick - 1) as u64,
                100 * (goal_of(group[k]) - group[0].note),
            ),
    decreases n,
{
    let before = pitch_glide::bent_segments(g, group, n - 1, d);
    let all = pitch_glide::bent_segments(g, group, n, d);
    assert(before.error is None);
    let s = group[n - 1];
    let (to, source) = pitch_glide::segment_target(s);
    let from_cents = (s.note - group[0].note) * 100;
    let to_cents = (to - group[0].note) * 100;
    let next = pitch_glide::bent_segment(
        g,
        s.start_tick,
        s.end_tick,
        from_cents,
        to_cents,
        source,
        before.diagnostics,
    );
    assert(all.events == before.events + next.events);
    let n0 = before.events.len() as int;
    if k < n - 1 {
        segments_are_among_the_group(g, group, n - 1, k, d);
        assert(forall|j: int| 0 <= j < n0 ==> #[trigger] all.events[j] == before.events[j]);
        let from = 100 * (group[k].note - group[0].note);
        let target = 100 * (goal_of(group[k]) - group[0].note);
        if g.config.curve.include_start_point {
            let j = choose|j: int|
                0 <= j < n0 && #[trigger] moves_wheel(
                    before.events[j],
                    g,
                    group[k].start_tick,
                    from,
                );
            assert(moves_wheel(all.events[j], g, group[k].start_tick, from));
        }
        if g.config.curve.include_end_point {
            let tick = (group[k].end_tick - 1) as u64;
            let j = choose|j: int|
                0 <= j < n0 && #[trigger] moves_wheel(before.events[j], g, tick, target);
            assert(moves_wheel(all.events[j], g, tick, target));
        }
    } else {
        ends_of_a_segment(
            g,
            s.start_tick,
            s.end_tick,
            from_cents,
            to_cents,
            source,
            before.diagnostics,
        );
        assert(forall|j: int|
            0 <= j < next.events.len() ==> #[trigger] all.events[j + n0] == next.events[j]);
        let from = 100 * (group[k].note - group[0].note);
        let target = 100 * (goal_of(group[k]) - group[0].note);
        assert(from == from_cents && target == to_cents);
        if g.config.curve.include_start_point {
            let j = choose|j: int|
                0 <= j < next.events.len() && #[trigger] moves_wheel(
                    next.events[j],
                    g,
                    s.start_tick,
                    from_cents,
                );
            assert(moves_wheel(all.events[j + n0], g, group[k].start_tick, from));
        }
        if g.config.curve.include_end_point {
            let tick = (s.end_tick - 1) as u64;
            let j = choose|j: int|
                0 <= j < next.events.len() && #[trigger] moves_wheel(
                    next.events[j],
                    g,
                    tick,
                    to_cents,
                );
            assert(moves_wheel(all.events[j + n0], g, (group[k].end_tick - 1) as u64, target));
        }
    }
}

/// In a slurred group every note starts at its own pitch: where it begins, the
/// wheel is 100 cents from its middle for each key between it and the first note of
/// the group, which is the one that sounds.
pub proof fn segments_begin_at_their_note(
    g: BendTargetView,
    group: Seq<SegmentView>,
    k: int,
    d: DiagnosticsView,
)
    requires
        0 <= k < group.len(),
        pitch_glide::bent_group(g, group, d).error is None,
        group[k].start_tick < group[k].end_tick,
        g.config.curve.include_start_point,
    ensures
        exists|j: int|
            0 <= j < pitch_glide::bent_group(g, group, d).events.len() && #[trigger] moves_wheel(
                pitch_glide::bent_group(g, group, d).events[j],
                g,
                group[k].start_tick,
                100 * (group[k].note - group[0].note),
            ),
{
    let n = group.len() as int;
    segments_are_among_the_group(g, group, n, k, d);
    let part = pitch_glide::bent_segments(g, group, n, d).events;
    let all = pitch_glide::bent_group(g, group, d).events;
    let cents = 100 * (group[k].note - group[0].note);
    let j = choose|j: int|
        0 <= j < part.len() && #[trigger] moves_wheel(part[j], g, group[k].start_tick, cents);
    assert(all[j] == part[j]);
    assert(moves_wheel(all[j], g, group[k].start_tick, cents));
}

/// In a slurred group every note that glides ends at its target, one tick before
/// it ends; one that does not glide stays at its own pitch.
pub proof fn segments_end_at_their_target(
    g: BendTargetView,
    group: Seq<SegmentView>,
    k: int,
    d: DiagnosticsView,
    target: u8,
)
    requires
        0 <= k < group.len(),
        pitch_glide::bent_group(g, group, d).error is None,
        group[k].start_tick < group[k].end_tick,
        g.config.curve.include_end_point,
        match group[k].meta.pitch_glide {
            Some(glide) => glide.target_midi_note == target,
            None => group[k].note == target,
        },
    ensures
        exists|j: int|
            0 <= j < pitch_glide::bent_group(g, group, d).events.len() && #[trigger] moves_wheel(
                pitch_glide::bent_group(g, group, d).events[j],
                g,
                (group[k].end_tick - 1) as u64,
                100 * (target - group[0].note),
            ),
{
    let n = group.len() as int;
    segments_are_among_the_group(g, group, n, k, d);
    let part = pitch_glide::bent_segments(g, group, n, d).events;
    let all = pitch_glide::bent_group(g, group, d).events;
    let cents = 100 * (target - group[0].note);
    let tick = (group[k].end_tick - 1) as u64;
    let j = choose|j: int| 0 <= j < part.len() && #[trigger] moves_wheel(part[j], g, tick, cents);
    assert(all[j] == part[j]);
    assert(moves_wheel(all[j], g, tick, cents));
}

/// A glide of one note starts with the wheel in its middle and ends where the
/// target is: 100 cents for each key from the note to it.
pub proof fn glides_lead_to_their_target(
    g: BendTargetView,
    start: u64,
    end: u64,
    note: u8,
    glide: PitchGlideMetaView,
    d: DiagnosticsView,
)
    requires
        start < end,
        pitch_glide::bent_note(g, start, end, note, glide, d).error is None,
        g.config.curve.include_start_point,
        g.config.curve.include_end_point,
    ensures
        exists|i: int|
            0 <= i < pitch_glide::bent_note(g, start, end, note, glide, d).events.len()
                && #[trigger] moves_wheel(
                pitch_glide::bent_note(g, start, end, note, glide, d).events[i],
                g,
                start,
                0,
            ),
        exists|j: int|
            0 <= j < pitch_glide::bent_note(g, start, end, note, glide, d).events.len()
                && #[trigger] moves_wheel(
                pitch_glide::bent_note(g, start, end, note, glide, d).events[j],
                g,
                (end - 1) as u64,
                100 * (glide.target_midi_note - note),
            ),
        g.config.reset.at_note_end ==> moves_wheel(
            pitch_glide::bent_note(g, start, end, note, glide, d).events.last(),
            g,
            end,
            0,
        ),
{
    let to = (glide.target_midi_note - note) * 100;
    ends_of_a_segment(g, start, end, 0, to, glide.source, d);
    let part = pitch_glide::bent_segment(g, start, end, 0, to, glide.source, d).events;
    let all = pitch_glide::bent_note(g, start, end, note, glide, d).events;
    let tick = (end - 1) as u64;
    let i = choose|i: int| 0 <= i < part.len() && #[trigger] moves_wheel(part[i], g, start, 0);
    let j = choose|j: int| 0 <= j < part.len() && #[trigger] moves_wheel(part[j], g, tick, to);
    assert(all[i] == part[i] && all[j] == part[j]);
    assert(moves_wheel(all[i], g, start, 0));
    assert(moves_wheel(all[j], g, tick, 100 * (glide.target_midi_note - note)));
    pitch_glide::no_glide_is_the_middle(g.range());
}

/// The range that a device is told is the one that glides are computed for: the
/// whole keys on controller 6, the cents on controller 38.
pub proof fn ranges_are_told(
    midi_track: usize,
    channel: u8,
    semitones: u8,
    cents: u8,
    emit_null: bool,
)
    requires
        semitones <= 127,
        cents <= 127,
    ensures
        ({
            let e = pitch_glide::range_setup(midi_track, channel, semitones, cents, emit_null);
            let p = Place { midi_track, tick: 0, channel };
            &&& e.len() >= 5
            &&& messages::sets(e[0], p, 101, 0)
            &&& messages::sets(e[1], p, 100, 0)
            &&& messages::sets(e[2], p, 6, semitones as int)
            &&& messages::sets(e[3], p, 38, cents as int)
            &&& emit_null ==> e.len() == 7 && messages::sets(e[4], p, 101, 127) && messages::sets(e[5], p, 100, 127)
            &&& e.last().kind == (KindView::PitchBend { channel, value: 8192 })
        }),
{
}

proof fn widest_is_widest(events: Seq<IrEventView>, n: int, i: int)
    requires
        0 <= i < n <= events.len(),
    ensures
        events[i] matches IrEventView::Note { note, meta, .. } ==> (meta.pitch_glide matches Some(
            glide,
        ) ==> 100 * (glide.target_midi_note - note) <= pitch_glide::widest_glide(events, n) && 100 * (note
            - glide.target_midi_note) <= pitch_glide::widest_glide(events, n)),
    decreases n,
{
    if i < n - 1 {
        widest_is_widest(events, n - 1, i);
    }
}

proof fn groups_are_no_narrower(
    events: Seq<IrEventView>,
    start: int,
    origin: u8,
    index: int,
    gliding: bool,
    widest: int,
)
    ensures
        pitch_glide::widest_from(events, start, origin, index, gliding, widest) >= widest,
    decreases events.len() - index,
{
    if 0 <= index < events.len() {
        if let IrEventView::Note { note, meta, .. } = events[index] {
            let glide = gliding || meta.pitch_glide is Some;
            let next = if glide {
                pitch_glide::larger(pitch_glide::larger(widest, pitch_glide::cents_between(note, origin)), pitch_glide::glide_cents(origin, meta))
            } else {
                widest
            };
            groups_are_no_narrower(events, start, origin, index + 1, glide, next);
        }
    }
}

proof fn groups_hold_glides(events: Seq<IrEventView>, n: int)
    requires
        0 <= n <= events.len(),
    ensures
        pitch_glide::widest_group(events, n) >= pitch_glide::widest_glide(events, events.len() as int),
    decreases n,
{
    if n > 0 {
        groups_hold_glides(events, n - 1);
        if let IrEventView::Note { note, meta, .. } = events[n - 1] {
            groups_are_no_narrower(
                events,
                n - 1,
                note,
                n - 1,
                false,
                pitch_glide::widest_group(events, n - 1),
            );
        }
    }
}

/// A range that widens holds every glide of a track, up to 48 keys.
pub proof fn ranges_widen_for_every_glide(events: Seq<IrEventView>, c: PitchGlideConfig, i: int)
    requires
        c.range_policy == PitchGlideRangePolicy::AutoExpandTo48,
        0 <= i < events.len(),
    ensures
        events[i] matches IrEventView::Note { note, meta, .. } ==> (meta.pitch_glide matches Some(
            glide,
        ) ==> ({
            let range = pitch_glide::glide_range(events, c);
            let cents = range.0 * 100 + range.1;
            range.0 >= 48 || (100 * (glide.target_midi_note - note) <= cents && 100 * (note
                - glide.target_midi_note) <= cents)
        })),
{
    widest_is_widest(events, events.len() as int, i);
    groups_hold_glides(events, events.len() as int);
}

/// Without that policy the configured range is kept.
pub proof fn configured_ranges_are_kept(events: Seq<IrEventView>, c: PitchGlideConfig)
    requires
        c.range_policy != PitchGlideRangePolicy::AutoExpandTo48,
    ensures
        pitch_glide::glide_range(events, c) == (c.pitch_bend_range_semitones, c.pitch_bend_range_cents),
{
}

/// Where it is asked for, the wheel is back in its middle when a glide ends, and
/// when a slurred group ends.
pub proof fn wheels_rest_after_glides(
    g: BendTargetView,
    start: u64,
    end: u64,
    note: u8,
    glide: PitchGlideMetaView,
    group: Seq<SegmentView>,
    d: DiagnosticsView,
)
    requires
        g.config.reset.at_note_end,
    ensures
        pitch_glide::bent_note(g, start, end, note, glide, d).error is None ==> ({
            let e = pitch_glide::bent_note(g, start, end, note, glide, d).events.last();
            e.track_index == g.midi_track && e.abs_tick == end && e.kind == (KindView::PitchBend {
                channel: g.channel,
                value: 8192,
            })
        }),
        group.len() > 0 && pitch_glide::bent_group(g, group, d).error is None ==> ({
            let e = pitch_glide::bent_group(g, group, d).events.last();
            e.track_index == g.midi_track && e.abs_tick == group.last().end_tick && e.kind == (
            KindView::PitchBend { channel: g.channel, value: 8192 })
        }),
{
}

/// A glide beyond the range of the wheel is an error where the policy says so, and
/// is reported otherwise; one within the range is neither.
pub proof fn wide_glides_follow_the_policy(
    g: BendTargetView,
    start: u64,
    end: u64,
    note: u8,
    glide: PitchGlideMetaView,
    d: DiagnosticsView,
)
    ensures
        ({
            let cents = if glide.target_midi_note >= note {
                100 * (glide.target_midi_note - note)
            } else {
                100 * (note - glide.target_midi_note)
            };
            let range = 100 * g.semitones + g.cents;
            let r = pitch_glide::bent_note(g, start, end, note, glide, d);
            &&& g.semitones >= 1 && cents <= range ==> r.error is None && r.diagnostics == d
            &&& g.semitones >= 1 && cents > range && g.config.range_policy
                == PitchGlideRangePolicy::ErrorIfExceeded ==> r.error is Some && r.events.len() == 0
            &&& g.semitones >= 1 && cents > range && g.config.range_policy
                != PitchGlideRangePolicy::ErrorIfExceeded ==> r.error is None
                && r.diagnostics.unsupported_commands.len() == d.unsupported_commands.len() + 1
        }),
{
}

} // verus!
