//! What envelopes sound like: the value that is in force at each count.

use vstd::prelude::*;

use crate::ir::{ECommand, EnvelopeMode, EnvelopeR, EnvelopeRef, SourceFamily};
use crate::render::envelope;
use crate::render::envelope::{EnvelopePoint, EnvelopeShape, Phase, WalkView};
use crate::render::events;
use crate::render::events::KindView;
use crate::render::notes;
use crate::render::score::ScoreView;
use crate::render::stage::{Moment, StageView};
use crate::smfmap;
use crate::smfmap::SmfMapConfigView;
use crate::smfmap::details::Loudness;

verus! {

// ---------------------------------------------------------------------------
// Counts
// ---------------------------------------------------------------------------
/// The position a number of counts later.
pub open spec fn counts_later(tempo: Seq<(u64, u32)>, ppq: u16, pos: nat, counts: nat) -> nat
    decreases counts,
{
    if counts == 0 {
        pos
    } else {
        counts_later(tempo, ppq, envelope::next_count(tempo, ppq, pos), (counts - 1) as nat)
    }
}

proof fn counts_go_on(tempo: Seq<(u64, u32)>, ppq: u16, pos: nat, counts: nat)
    ensures
        counts_later(tempo, ppq, pos, counts) >= pos,
    decreases counts,
{
    if counts > 0 {
        envelope::next_count_is_later(tempo, ppq, pos);
        counts_go_on(tempo, ppq, envelope::next_count(tempo, ppq, pos), (counts - 1) as nat);
    }
}

/// Sixty counts are a second: at one tempo, a number of counts takes as many
/// sixtieths of the beats of a minute. A tick is 3600 positions.
pub proof fn sixty_counts_are_a_second(bpm: u32, ppq: u16, pos: nat, counts: nat)
    requires
        bpm > 0,
        ppq > 0,
    ensures
        counts_later(seq![(0u64, bpm)], ppq, pos, counts) == pos + counts * (ppq * bpm),
    decreases counts,
{
    let tempo = seq![(0u64, bpm)];
    if counts > 0 {
        let at = (pos / 3600) as u64;
        reveal_with_fuel(events::tempo_at, 3);
        reveal_with_fuel(envelope::reach, 3);
        assert(events::tempo_at(tempo, 1, at) == bpm);
        assert(envelope::next_count(tempo, ppq, pos) == pos + ppq * bpm);
        sixty_counts_are_a_second(bpm, ppq, (pos + ppq * bpm) as nat, (counts - 1) as nat);
        let n = ppq * bpm;
        assert((counts - 1) * n + n == counts * n) by (nonlinear_arith);
    } else {
        assert(0 * (ppq * bpm) == 0) by (nonlinear_arith);
    }
}

/// A count that a change of tempo falls into goes on at the new tempo: of the time
/// that was left, as much is left after it.
pub proof fn counts_change_with_the_tempo(
    first: u32,
    tick: u64,
    second: u32,
    ppq: u16,
    pos: nat,
)
    requires
        first > 0,
        second > 0,
        ppq > 0,
        tick > 0,
        pos / 3600 < tick,
        pos < tick * 3600 < pos + ppq * first,
    ensures
        ({
            let border = tick * 3600;
            let left = pos + ppq * first - border;
            let after = envelope::next_count(seq![(0u64, first), (tick, second)], ppq, pos) - border;
            0 <= left * (ppq * second) - after * (ppq * first) < ppq * first
        }),
{
    let tempo = seq![(0u64, first), (tick, second)];
    let at = (pos / 3600) as u64;
    reveal_with_fuel(events::tempo_at, 4);
    reveal_with_fuel(envelope::reach, 4);
    assert(events::tempo_at(tempo, 2, at) == first);
    let (a, b) = (ppq * first, ppq * second);
    let border = tick * 3600;
    let left = pos + a - border;
    let n = left * b;
    let q = n / a;
    assert(a > 0) by (nonlinear_arith)
        requires
            a == ppq * first,
            ppq > 0,
            first > 0,
    ;
    assert(0 <= n - q * a < a) by (nonlinear_arith)
        requires
            q == n / a,
            a > 0,
    ;
    assert(envelope::position(tick) == border);
    assert(envelope::next_count(tempo, ppq, pos) == border + q);
}

// ---------------------------------------------------------------------------
// The value in force
// ---------------------------------------------------------------------------
/// The value in force at a tick: the last one that was given by then.
pub open spec fn in_force(points: Seq<EnvelopePoint>, tick: int, before: Option<u8>) -> Option<u8>
    decreases points.len(),
{
    if points.len() == 0 {
        before
    } else {
        match points.last() {
            EnvelopePoint::Value { tick: t, value } => if t <= tick {
                Some(value)
            } else {
                in_force(points.drop_last(), tick, before)
            },
            _ => in_force(points.drop_last(), tick, before),
        }
    }
}

proof fn in_force_of_both(
    a: Seq<EnvelopePoint>,
    b: Seq<EnvelopePoint>,
    tick: int,
    before: Option<u8>,
)
    ensures
        in_force(a + b, tick, before) == in_force(b, tick, in_force(a, tick, before)),
    decreases b.len(),
{
    if b.len() == 0 {
        assert(a + b =~= a);
    } else {
        in_force_of_both(a, b.drop_last(), tick, before);
        assert((a + b).drop_last() =~= a + b.drop_last());
        assert((a + b).last() == b.last());
    }
}

/// Every value comes at a tick or later.
spec fn later_than(points: Seq<EnvelopePoint>, tick: int) -> bool {
    forall|i: int|
        0 <= i < points.len() ==> ((#[trigger] points[i]) matches EnvelopePoint::Value {
            tick: t,
            ..
        } ==> t > tick)
}

proof fn later_values_do_not_count(points: Seq<EnvelopePoint>, tick: int, before: Option<u8>)
    requires
        later_than(points, tick),
    ensures
        in_force(points, tick, before) == before,
    decreases points.len(),
{
    if points.len() > 0 {
        assert(points.last() == points[points.len() - 1]);
        assert forall|i: int| 0 <= i < points.drop_last().len() implies ((
        #[trigger] points.drop_last()[i]) matches EnvelopePoint::Value { tick: t, .. } ==> t
            > tick) by {
            assert(points.drop_last()[i] == points[i]);
        }
        later_values_do_not_count(points.drop_last(), tick, before);
    }
}

proof fn rates_come_later(
    e: EnvelopeR,
    loudness: Loudness,
    phase: Phase,
    level: int,
    pos: nat,
    last: Option<u8>,
    end: u64,
    tempo: Seq<(u64, u32)>,
    ppq: u16,
    tick: int,
)
    requires
        envelope::nearest_tick(pos) > tick,
    ensures
        later_than(envelope::rates(e, loudness, phase, level, pos, last, end, tempo, ppq), tick),
    decreases envelope::time_left(pos, end),
{
    if envelope::nearest_tick(pos) < end {
        envelope::next_count_is_later(tempo, ppq, pos);
        let value = envelope::rate_value(loudness, level);
        let (p, l) = envelope::next_level(e, phase, level);
        let next = envelope::next_count(tempo, ppq, pos);
        rates_come_later(e, loudness, p, l, next, Some(value), end, tempo, ppq, tick);
    }
}

// ---------------------------------------------------------------------------
// Envelopes of rates
// ---------------------------------------------------------------------------
/// The phase and the level of an `@r` envelope a number of counts later.
pub open spec fn levels_later(e: EnvelopeR, phase: Phase, level: int, counts: nat) -> (Phase, int)
    decreases counts,
{
    if counts == 0 {
        (phase, level)
    } else {
        let (p, l) = envelope::next_level(e, phase, level);
        levels_later(e, p, l, (counts - 1) as nat)
    }
}

proof fn rates_are_in_force(
    e: EnvelopeR,
    loudness: Loudness,
    phase: Phase,
    level: int,
    pos: nat,
    last: Option<u8>,
    end: u64,
    tempo: Seq<(u64, u32)>,
    ppq: u16,
    counts: nat,
)
    requires
        envelope::nearest_tick(counts_later(tempo, ppq, pos, counts)) < end,
        envelope::nearest_tick(counts_later(tempo, ppq, pos, counts)) < envelope::nearest_tick(
            counts_later(tempo, ppq, pos, counts + 1),
        ),
    ensures
        in_force(
            envelope::rates(e, loudness, phase, level, pos, last, end, tempo, ppq),
            envelope::nearest_tick(counts_later(tempo, ppq, pos, counts)) as int,
            last,
        ) == Some(loudness.value(levels_later(e, phase, level, counts).1 * 15, 255)),
    decreases counts,
{
    let tick = envelope::nearest_tick(counts_later(tempo, ppq, pos, counts)) as int;
    counts_go_on(tempo, ppq, pos, counts);
    let value = envelope::rate_value(loudness, level);
    let (p, l) = envelope::next_level(e, phase, level);
    let next = envelope::next_count(tempo, ppq, pos);
    let given = if last == Some(value) {
        Seq::empty()
    } else {
        seq![EnvelopePoint::Value { tick: envelope::nearest_tick(pos) as u64, value }]
    };
    let rest = envelope::rates(e, loudness, p, l, next, Some(value), end, tempo, ppq);
    assert(envelope::rates(e, loudness, phase, level, pos, last, end, tempo, ppq) == given + rest);
    in_force_of_both(given, rest, tick, last);
    reveal_with_fuel(in_force, 2);
    assert(in_force(given, tick, last) == Some(value));
    if counts == 0 {
        reveal_with_fuel(counts_later, 2);
        rates_come_later(e, loudness, p, l, next, Some(value), end, tempo, ppq, tick);
        later_values_do_not_count(rest, tick, Some(value));
    } else {
        rates_are_in_force(
            e,
            loudness,
            p,
            l,
            next,
            Some(value),
            end,
            tempo,
            ppq,
            (counts - 1) as nat,
        );
    }
}

/// At each count of a note an `@r` envelope has the level that its rates lead to:
/// it starts at its attack level, and the value in force is the share of the level
/// in 255.
pub proof fn rates_lead_the_level(
    e: EnvelopeR,
    loudness: Loudness,
    start: u64,
    end: u64,
    tempo: Seq<(u64, u32)>,
    ppq: u16,
    counts: nat,
)
    requires
        envelope::nearest_tick(counts_later(tempo, ppq, (start * 3600) as nat, counts)) < end,
        envelope::nearest_tick(counts_later(tempo, ppq, (start * 3600) as nat, counts)) < envelope::nearest_tick(
            counts_later(tempo, ppq, (start * 3600) as nat, counts + 1),
        ),
    ensures
        in_force(
            envelope::envelope_points(EnvelopeShape::R(e), loudness, start, end, tempo, ppq),
            envelope::nearest_tick(counts_later(tempo, ppq, (start * 3600) as nat, counts)) as int,
            None,
        ) == Some(
            loudness.value(levels_later(e, Phase::Attack, e.al as int, counts).1 * 15, 255),
        ),
{
    let pos = (start * 3600) as nat;
    rates_are_in_force(
        e,
        loudness,
        Phase::Attack,
        e.al as int,
        pos,
        None,
        end,
        tempo,
        ppq,
        counts,
    );
}

/// While it attacks, an envelope rises by its attack rate at each count, up to 255.
pub proof fn attacks_rise(e: EnvelopeR, level: int, counts: nat)
    requires
        0 <= level <= 255,
        counts > 0 ==> level + (counts - 1) * e.ar < 255,
    ensures
        levels_later(e, Phase::Attack, level, counts) == (
            Phase::Attack,
            if level + counts * e.ar <= 255 {
                level + counts * e.ar
            } else {
                255
            },
        ),
    decreases counts,
{
    let (n, r) = (counts as int, e.ar as int);
    assert(n > 0 ==> (n - 1) * r == n * r - r) by (nonlinear_arith);
    assert(0 * r == 0) by (nonlinear_arith);
    if counts > 0 {
        assert((n - 1) * r >= 0) by (nonlinear_arith)
            requires
                n > 0,
                r >= 0,
        ;
        if counts > 1 {
            assert((n - 1) * r >= r) by (nonlinear_arith)
                requires
                    n > 1,
                    r >= 0,
            ;
            assert((n - 2) * r == (n - 1) * r - r) by (nonlinear_arith);
        }
        let next = if level + r <= 255 {
            level + r
        } else {
            255
        };
        assert(envelope::next_level(e, Phase::Attack, level) == (Phase::Attack, next));
        attacks_rise(e, next, (counts - 1) as nat);
    }
}

/// At its height an envelope begins to decay, which takes a count, and then falls by
/// its decay rate at each count, down to its sustain level.
pub proof fn decays_fall(e: EnvelopeR, level: int, counts: nat)
    requires
        e.sl <= level <= 255,
        counts > 0 ==> level - (counts - 1) * e.dr > e.sl,
    ensures
        levels_later(e, Phase::Attack, 255, 1) == (Phase::Decay, 255int),
        levels_later(e, Phase::Decay, level, counts) == (
            Phase::Decay,
            if level - counts * e.dr >= e.sl {
                level - counts * e.dr
            } else {
                e.sl as int
            },
        ),
    decreases counts,
{
    reveal_with_fuel(levels_later, 2);
    let (n, r) = (counts as int, e.dr as int);
    assert(n > 0 ==> (n - 1) * r == n * r - r) by (nonlinear_arith);
    assert(0 * r == 0) by (nonlinear_arith);
    if counts > 0 {
        assert((n - 1) * r >= 0) by (nonlinear_arith)
            requires
                n > 0,
                r >= 0,
        ;
        if counts > 1 {
            assert((n - 1) * r >= r) by (nonlinear_arith)
                requires
                    n > 1,
                    r >= 0,
            ;
            assert((n - 2) * r == (n - 1) * r - r) by (nonlinear_arith);
        }
        let next = if level - r >= e.sl {
            level - r
        } else {
            e.sl as int
        };
        assert(envelope::next_level(e, Phase::Decay, level) == (Phase::Decay, next));
        decays_fall(e, next, (counts - 1) as nat);
    }
}

/// At its sustain level an envelope begins to sustain, which takes a count. From then
/// on it falls by its sustain rate at each count: by exactly that where so much is
/// left, and otherwise to nothing, where it stays.
pub proof fn sustained_levels_fall(e: EnvelopeR, level: int, counts: nat)
    requires
        0 <= level <= 255,
    ensures
        levels_later(e, Phase::Decay, e.sl as int, 1) == (Phase::Sustain, e.sl as int),
        levels_later(e, Phase::Sustain, level, counts) == (
            Phase::Sustain,
            if level - counts * e.sr >= 0 {
                level - counts * e.sr
            } else {
                0
            },
        ),
        e.sr > 0 && counts >= 255 ==> levels_later(e, Phase::Sustain, level, counts).1 == 0,
    decreases counts,
{
    reveal_with_fuel(levels_later, 2);
    let (n, r) = (counts as int, e.sr as int);
    assert(n > 0 ==> (n - 1) * r == n * r - r) by (nonlinear_arith);
    assert(0 * r == 0) by (nonlinear_arith);
    assert(n * r >= 0) by (nonlinear_arith)
        requires
            n >= 0,
            r >= 0,
    ;
    if counts > 0 {
        assert((n - 1) * r >= 0) by (nonlinear_arith)
            requires
                n > 0,
                r >= 0,
        ;
        let next = if level - r >= 0 {
            level - r
        } else {
            0
        };
        assert(envelope::next_level(e, Phase::Sustain, level) == (Phase::Sustain, next));
        sustained_levels_fall(e, next, (counts - 1) as nat);
    }
    if r > 0 && n >= 255 {
        assert(n * r >= 255) by (nonlinear_arith)
            requires
                n >= 255,
                r >= 1,
        ;
    }
}

// ---------------------------------------------------------------------------
// Envelopes of commands
// ---------------------------------------------------------------------------
proof fn walks_come_later(
    commands: Seq<ECommand>,
    w: WalkView,
    end: u64,
    tempo: Seq<(u64, u32)>,
    ppq: u16,
    tick: int,
)
    requires
        envelope::nearest_tick(w.pos) > tick,
    ensures
        later_than(envelope::walk(commands, w, end, tempo, ppq), tick),
    decreases envelope::time_left(w.pos, end), commands.len() - w.idle,
{
    if envelope::goes_on(w, commands, end) {
        match envelope::timed(w, commands[w.at]) {
            Some((value, level, count)) => {
                envelope::next_count_is_later(tempo, ppq, w.pos);
                let next = w.on(tempo, ppq, value, level, w.done + 1 >= count);
                walks_come_later(commands, next, end, tempo, ppq, tick);
            },
            None => {
                if let (points, Some(next)) = envelope::instant(w, commands[w.at]) {
                    walks_come_later(commands, next, end, tempo, ppq, tick);
                }
            },
        }
    }
}

/// One count of a command that takes time.
proof fn one_count_of_a_walk(
    commands: Seq<ECommand>,
    w: WalkView,
    end: u64,
    tempo: Seq<(u64, u32)>,
    ppq: u16,
    value: u8,
    level: int,
    count: int,
    tick: int,
)
    requires
        envelope::goes_on(w, commands, end),
        envelope::timed(w, commands[w.at]) == Some((value, level, count)),
        tick >= envelope::nearest_tick(w.pos),
    ensures
        ({
            let next = w.on(tempo, ppq, value, level, w.done + 1 >= count);
            &&& in_force(envelope::walk(commands, w, end, tempo, ppq), tick, w.last) == in_force(
                envelope::walk(commands, next, end, tempo, ppq),
                tick,
                Some(value),
            )
            &&& tick < envelope::nearest_tick(next.pos) ==> in_force(
                envelope::walk(commands, w, end, tempo, ppq),
                tick,
                w.last,
            ) == Some(value)
        }),
{
    let next = w.on(tempo, ppq, value, level, w.done + 1 >= count);
    let rest = envelope::walk(commands, next, end, tempo, ppq);
    in_force_of_both(w.given(value), rest, tick, w.last);
    reveal_with_fuel(in_force, 2);
    if tick < envelope::nearest_tick(next.pos) {
        walks_come_later(commands, next, end, tempo, ppq, tick);
        later_values_do_not_count(rest, tick, Some(value));
    }
}

/// A level that is held is in force at each of its counts.
pub proof fn held_levels_stay(
    commands: Seq<ECommand>,
    w: WalkView,
    end: u64,
    tempo: Seq<(u64, u32)>,
    ppq: u16,
    level: u8,
    count: u32,
    k: nat,
)
    requires
        0 <= w.at < commands.len(),
        w.idle < commands.len(),
        commands[w.at] == (ECommand::Hold { level, count }),
        0 <= w.done,
        w.done + k < count,
        envelope::nearest_tick(counts_later(tempo, ppq, w.pos, k)) < end,
        envelope::nearest_tick(counts_later(tempo, ppq, w.pos, k)) < envelope::nearest_tick(
            counts_later(tempo, ppq, w.pos, k + 1),
        ),
    ensures
        in_force(
            envelope::walk(commands, w, end, tempo, ppq),
            envelope::nearest_tick(counts_later(tempo, ppq, w.pos, k)) as int,
            w.last,
        ) == Some(w.loudness.value(level as int, 1)),
    decreases k,
{
    let tick = envelope::nearest_tick(counts_later(tempo, ppq, w.pos, k)) as int;
    counts_go_on(tempo, ppq, w.pos, k);
    let value = w.loudness.value(level as int, 1);
    assert(envelope::timed(w, commands[w.at]) == Some((value, level as int, count as int)));
    one_count_of_a_walk(
        commands,
        w,
        end,
        tempo,
        ppq,
        value,
        level as int,
        count as int,
        tick,
    );
    let next = w.on(tempo, ppq, value, level as int, w.done + 1 >= count);
    if k == 0 {
        reveal_with_fuel(counts_later, 2);
    } else {
        held_levels_stay(commands, next, end, tempo, ppq, level, count, (k - 1) as nat);
    }
}

/// A level alone lasts one count.
pub proof fn single_levels_last_a_count(
    commands: Seq<ECommand>,
    w: WalkView,
    end: u64,
    tempo: Seq<(u64, u32)>,
    ppq: u16,
    level: u8,
)
    requires
        0 <= w.at < commands.len(),
        w.idle < commands.len(),
        commands[w.at] == ECommand::Level(level),
        w.done == 0,
        envelope::nearest_tick(w.pos) < end,
        envelope::nearest_tick(w.pos) < envelope::nearest_tick(counts_later(tempo, ppq, w.pos, 1)),
    ensures
        in_force(envelope::walk(commands, w, end, tempo, ppq), envelope::nearest_tick(w.pos) as int, w.last) == Some(
            w.loudness.value(level as int, 1),
        ),
        forall|tick: int|
            tick >= envelope::nearest_tick(counts_later(tempo, ppq, w.pos, 1)) ==> #[trigger] in_force(
                envelope::walk(commands, w, end, tempo, ppq),
                tick,
                w.last,
            ) == in_force(
                envelope::walk(
                    commands,
                    WalkView {
                        at: w.at + 1,
                        level: level as int,
                        idle: 0,
                        pos: counts_later(tempo, ppq, w.pos, 1),
                        last: Some(w.loudness.value(level as int, 1)),
                        ..w
                    },
                    end,
                    tempo,
                    ppq,
                ),
                tick,
                Some(w.loudness.value(level as int, 1)),
            ),
{
    reveal_with_fuel(counts_later, 2);
    envelope::next_count_is_later(tempo, ppq, w.pos);
    let value = w.loudness.value(level as int, 1);
    assert(envelope::timed(w, commands[w.at]) == Some((value, level as int, 1int)));
    let now = envelope::nearest_tick(w.pos) as int;
    one_count_of_a_walk(commands, w, end, tempo, ppq, value, level as int, 1, now);
    let next = w.on(tempo, ppq, value, level as int, true);
    let after = WalkView {
        at: w.at + 1,
        level: level as int,
        idle: 0,
        pos: counts_later(tempo, ppq, w.pos, 1),
        last: Some(value),
        ..w
    };
    assert(next =~= after);
    assert forall|tick: int|
        tick >= envelope::nearest_tick(counts_later(tempo, ppq, w.pos, 1)) implies #[trigger] in_force(
        envelope::walk(commands, w, end, tempo, ppq),
        tick,
        w.last,
    ) == in_force(envelope::walk(commands, after, end, tempo, ppq), tick, Some(value)) by {
        one_count_of_a_walk(commands, w, end, tempo, ppq, value, level as int, 1, tick);
    }
}

/// A level that moves comes nearer to its target by an equal part at each count, and
/// is there at the last.
pub proof fn moving_levels_reach_their_target(
    commands: Seq<ECommand>,
    w: WalkView,
    end: u64,
    tempo: Seq<(u64, u32)>,
    ppq: u16,
    target: u8,
    count: u32,
    k: nat,
)
    requires
        0 <= w.at < commands.len(),
        w.idle < commands.len(),
        commands[w.at] == (ECommand::Ramp { target, count }),
        0 <= w.done,
        w.done + k < count,
        envelope::nearest_tick(counts_later(tempo, ppq, w.pos, k)) < end,
        envelope::nearest_tick(counts_later(tempo, ppq, w.pos, k)) < envelope::nearest_tick(
            counts_later(tempo, ppq, w.pos, k + 1),
        ),
    ensures
        ({
            let over = w.done + k + 1;
            in_force(
                envelope::walk(commands, w, end, tempo, ppq),
                envelope::nearest_tick(counts_later(tempo, ppq, w.pos, k)) as int,
                w.last,
            ) == Some(
                w.loudness.value(w.level * (count - over) + target * over, count as int),
            )
        }),
    decreases k,
{
    let tick = envelope::nearest_tick(counts_later(tempo, ppq, w.pos, k)) as int;
    counts_go_on(tempo, ppq, w.pos, k);
    let value = envelope::ramp_value(w.loudness, w.level, target as int, w.done + 1, count as int);
    let level = if w.done + 1 >= count {
        target as int
    } else {
        w.level
    };
    one_count_of_a_walk(commands, w, end, tempo, ppq, value, level, count as int, tick);
    let next = w.on(tempo, ppq, value, level, w.done + 1 >= count);
    if k == 0 {
        reveal_with_fuel(counts_later, 2);
        let (a, b, c, d) = (w.level, target as int, count as int, w.done + 1);
        assert(a * c + (b - a) * d == a * (c - d) + b * d) by (nonlinear_arith);
    } else {
        moving_levels_reach_their_target(
            commands,
            next,
            end,
            tempo,
            ppq,
            target,
            count,
            (k - 1) as nat,
        );
    }
}

/// An `@e` envelope starts with its note, at its first command and full level.
pub proof fn envelopes_start_with_their_note(
    commands: Seq<ECommand>,
    loudness: Loudness,
    start: u64,
    end: u64,
    tempo: Seq<(u64, u32)>,
    ppq: u16,
    level: u8,
    count: u32,
    k: nat,
)
    requires
        commands.len() > 0,
        commands[0] == (ECommand::Hold { level, count }),
        k < count,
        envelope::nearest_tick(counts_later(tempo, ppq, (start * 3600) as nat, k)) < end,
        envelope::nearest_tick(counts_later(tempo, ppq, (start * 3600) as nat, k)) < envelope::nearest_tick(
            counts_later(tempo, ppq, (start * 3600) as nat, k + 1),
        ),
    ensures
        in_force(
            envelope::envelope_points(EnvelopeShape::E(commands), loudness, start, end, tempo, ppq),
            envelope::nearest_tick(counts_later(tempo, ppq, (start * 3600) as nat, k)) as int,
            None,
        ) == Some(loudness.value(level as int, 1)),
{
    let w = WalkView::begin(start, loudness);
    held_levels_stay(commands, w, end, tempo, ppq, level, count, k);
}

/// A loop goes round: at its end the envelope goes on from the command after its
/// start, and only the end of the note ends it, if time passes in it.
pub proof fn loops_go_round(
    commands: Seq<ECommand>,
    w: WalkView,
    end: u64,
    tempo: Seq<(u64, u32)>,
    ppq: u16,
)
    requires
        envelope::goes_on(w, commands, end),
    ensures
        commands[w.at] == ECommand::LoopStart ==> envelope::walk(commands, w, end, tempo, ppq) == envelope::walk(
            commands,
            WalkView {
                at: w.at + 1,
                done: 0,
                idle: w.idle + 1,
                loop_at: Some(w.at + 1),
                ..w
            },
            end,
            tempo,
            ppq,
        ),
        commands[w.at] == ECommand::LoopEnd && w.loop_at is Some ==> envelope::walk(
            commands,
            w,
            end,
            tempo,
            ppq,
        ) == envelope::walk(
            commands,
            WalkView { at: w.loop_at->0, done: 0, idle: w.idle + 1, ..w },
            end,
            tempo,
            ppq,
        ),
        commands[w.at] == ECommand::LoopEnd && w.loop_at is None ==> envelope::walk(
            commands,
            w,
            end,
            tempo,
            ppq,
        ).len() == 0,
{
    let all = envelope::walk(commands, w, end, tempo, ppq);
    if let (points, Some(next)) = envelope::instant(w, commands[w.at]) {
        let rest = envelope::walk(commands, next, end, tempo, ppq);
        assert(points.len() == 0 ==> points + rest =~= rest);
    }
}

/// Changes of tone and register writes in an envelope come at the tick of the count
/// that they stand before.
pub proof fn side_effects_come_in_time(
    commands: Seq<ECommand>,
    w: WalkView,
    end: u64,
    tempo: Seq<(u64, u32)>,
    ppq: u16,
)
    requires
        envelope::goes_on(w, commands, end),
    ensures
        commands[w.at] matches ECommand::ToneChange(tone) ==> envelope::walk(
            commands,
            w,
            end,
            tempo,
            ppq,
        ).len() > 0 && envelope::walk(commands, w, end, tempo, ppq)[0] == (EnvelopePoint::Tone {
            tick: ((w.pos + 1800) / 3600) as u64,
            tone,
        }),
        commands[w.at] matches ECommand::RegisterWrite { register, data } ==> (0 <= register <= 255
            && 0 <= data <= 255 ==> envelope::walk(commands, w, end, tempo, ppq).len() > 0 && envelope::walk(
            commands,
            w,
            end,
            tempo,
            ppq,
        )[0] == (EnvelopePoint::Register {
            tick: ((w.pos + 1800) / 3600) as u64,
            register: register as u8,
            data: data as u8,
        })),
{
}

// ---------------------------------------------------------------------------
// Controllers
// ---------------------------------------------------------------------------
proof fn events_stay_with_points(
    s: ScoreView,
    v: StageView,
    start: u64,
    points: Seq<EnvelopePoint>,
    n: int,
    controller: Option<u8>,
    at: Moment,
)
    requires
        forall|i: int| 0 <= i < points.len() ==> #[trigger] points[i] is Value,
        controller is Some,
        0 <= n <= points.len(),
    ensures
        notes::with_points(s, v, start, points, n, controller, at) matches Ok(t) && t.events.len()
            == s.events.len() + n && (forall|i: int|
            0 <= i < n ==> {
                let e = #[trigger] t.events[s.events.len() + i];
                &&& e.track_index == v.midi_track
                &&& points[i] matches EnvelopePoint::Value { tick, value }
                &&& e.abs_tick == tick
                &&& e.kind == (KindView::ControlChange {
                    channel: v.channel,
                    controller: controller->0,
                    value,
                })
            }),
    decreases n,
{
    if n > 0 {
        events_stay_with_points(s, v, start, points, n - 1, controller, at);
    }
}

/// The values of an envelope that becomes a controller are sent to it, each at its
/// tick and in its order, beside the note at its own loudness.
pub proof fn values_are_sent_to_the_controller(
    s: ScoreView,
    v: StageView,
    start: u64,
    end: u64,
    note: u8,
    velocity: u8,
    reference: EnvelopeRef,
    points: Seq<EnvelopePoint>,
    told: bool,
    tone: Option<u8>,
)
    requires
        forall|i: int| 0 <= i < points.len() ==> #[trigger] points[i] is Value,
        !v.shared,
        v.family == SourceFamily::Psg,
        v.options.envelope_mode == EnvelopeMode::Cc11,
        v.options.smfmap.psg_envelope_map_enabled,
        v.options.smfmap.details.emit_expression_cc,
    ensures
        notes::enveloped(s, v, start, end, note, velocity, reference, points, told, tone) matches Ok(r)
            && r.0.events.len() == s.events.len() + points.len() + 2 && (forall|i: int|
            0 <= i < points.len() ==> {
                let e = #[trigger] r.0.events[s.events.len() + i];
                &&& points[i] matches EnvelopePoint::Value { tick, value }
                &&& e.track_index == v.midi_track
                &&& e.abs_tick == tick
                &&& e.kind == (KindView::ControlChange {
                    channel: v.channel,
                    controller: v.options.smfmap.psg_expression_cc,
                    value,
                })
            }) && ({
            let on = r.0.events[(s.events.len() + points.len()) as int];
            let off = r.0.events.last();
            &&& on.abs_tick == start
            &&& on.kind == (KindView::NoteOn { channel: v.channel, note, velocity })
            &&& off.abs_tick == end
            &&& off.kind matches KindView::NoteOff { channel, note: key, .. }
            &&& channel == v.channel
            &&& key == note
        }),
{
    reveal(notes::enveloped);
    all_are_values(points, points.len() as int);
    let at = Moment { step: None, tone, envelope: Some(smfmap::envelope_id(reference)) };
    let controller = Some(v.options.smfmap.psg_expression_cc);
    events_stay_with_points(s, v, start, points, points.len() as int, controller, at);
}

proof fn all_are_values(points: Seq<EnvelopePoint>, n: int)
    requires
        forall|i: int| 0 <= i < points.len() ==> #[trigger] points[i] is Value,
        0 <= n <= points.len(),
    ensures
        notes::values_of(points, n).len() == n,
    decreases n,
{
    if n > 0 {
        all_are_values(points, n - 1);
    }
}

/// Each kind of envelope goes to its own controller.
pub proof fn envelopes_have_their_controllers(c: SmfMapConfigView)
    ensures
        c.envelope_controller(SourceFamily::Psg, EnvelopeMode::Cc11) == c.psg_expression_cc,
        c.envelope_controller(SourceFamily::PsgNoise, EnvelopeMode::Cc11) == c.psg_expression_cc,
        c.envelope_controller(SourceFamily::Scc, EnvelopeMode::Cc11) == c.envelope_expression_cc,
        c.envelope_controller(SourceFamily::Opll, EnvelopeMode::Cc11) == c.envelope_expression_cc,
        forall|f: SourceFamily| #[trigger]
            c.envelope_controller(f, EnvelopeMode::Cc7) == c.envelope_volume_cc,
{
}

/// A velocity lowered to a share is that share of it, rounded: none is silence, all
/// is the velocity.
pub proof fn velocities_are_lowered_to_their_share(velocity: u8, value: u8)
    requires
        velocity <= 127,
        value <= 127,
    ensures
        -127 <= 2 * (127 * notes::scaled(velocity, value as int) - velocity * value) <= 127,
        notes::scaled(velocity, 127) == velocity,
        notes::scaled(velocity, 0) == 0,
{
    assert(0 <= velocity * value <= 127 * 127) by (nonlinear_arith)
        requires
            velocity <= 127,
            value <= 127,
    ;
}

} // verus!
