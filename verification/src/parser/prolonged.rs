//! What endless loops play on with.

use vstd::prelude::*;

use crate::fraction;
use crate::fraction::Frac;
use crate::ir::{EnvelopeRef, IrEventView, LoopMarkerKind, NoteMetaView, TrackIrView};
use crate::parser::loops;
use crate::parser::music;
use crate::parser::timing;

verus! {

// ---------------------------------------------------------------------------
// Where a loop is
// ---------------------------------------------------------------------------
proof fn unmarked_events_pass(events: Seq<IrEventView>, i: int, to: int, open: Option<Frac>)
    requires
        0 <= i <= to <= events.len(),
        forall|k: int| i <= k < to ==> !(#[trigger] events[k] is LoopMarker),
    ensures
        loops::region_from(events, i, open) == loops::region_from(events, to, open),
    decreases to - i,
{
    if i < to {
        unmarked_events_pass(events, i + 1, to, open);
    }
}

/// An endless loop is what stands between its two marks.
pub proof fn loops_are_between_their_marks(
    t: TrackIrView,
    i: int,
    j: int,
    start: Frac,
    end: Frac,
)
    requires
        0 <= i < j < t.events.len(),
        forall|k: int| 0 <= k < j && k != i ==> !(#[trigger] t.events[k] is LoopMarker),
        t.events[i] == (IrEventView::LoopMarker { at: start, kind: LoopMarkerKind::Start }),
        t.events[j] == (IrEventView::LoopMarker { at: end, kind: LoopMarkerKind::End }),
        fraction::less(start, end),
    ensures
        loops::region(t) == Some((start, end)),
{
    unmarked_events_pass(t.events, 0, i, None);
    unmarked_events_pass(t.events, i + 1, j, Some(start));
}

// ---------------------------------------------------------------------------
// What is repeated
// ---------------------------------------------------------------------------
/// A difference is how far the larger position is behind the smaller one.
pub proof fn differences_are_apart(a: Frac, b: Frac)
    requires
        fraction::minus(a, b) is Some,
    ensures
        music::apart(b, a, (fraction::minus(a, b)->0).num, (fraction::minus(a, b)->0).den),
        (fraction::minus(a, b)->0).den > 0,
{
    let n = a.num * b.den - b.num * a.den;
    let d = a.den * b.den;
    assert(d > 0) by (nonlinear_arith)
        requires
            d == a.den * b.den,
            a.den > 0,
            b.den > 0,
    ;
    fraction::frac_reduces(n, d);
    let c = fraction::minus(a, b)->0;
    assert(b.den * a.den == d) by (nonlinear_arith)
        requires
            d == a.den * b.den,
    ;
    assert(n * c.den == c.num * d);
}

/// A note of a loop comes again later by the shift, on the same key and as loud,
/// and as long as it was, unless the horizon cuts it off: then it ends there.
/// What would begin at the horizon or after it does not come again.
pub proof fn repeated_notes_are_later(
    start: Frac,
    duration: Frac,
    note: u8,
    velocity: u8,
    tone: Option<u8>,
    envelope: Option<EnvelopeRef>,
    meta: NoteMetaView,
    shift: Frac,
    horizon: Frac,
)
    ensures
        ({
            let e = IrEventView::Note { start, duration, note, velocity, tone, envelope, meta };
            match loops::shifted(e, start, shift, horizon) {
                Some(Some(f)) => f matches IrEventView::Note {
                    start: s,
                    duration: d,
                    note: k,
                    velocity: v,
                    tone: w,
                    envelope: x,
                    meta: y,
                } && music::apart(start, s, shift.num, shift.den) && fraction::less(s, horizon) && k == note && v
                    == velocity && w == tone && x == envelope && y == meta && (d == duration
                    || music::apart(s, horizon, d.num, d.den)),
                Some(None) => fraction::plus(start, shift) is Some && (!fraction::less(fraction::plus(start, shift)->0, horizon)
                    || !fraction::less(
                    fraction::whole(0),
                    fraction::minus(horizon, fraction::plus(start, shift)->0)->0,
                )),
                None => true,
            }
        }),
{
    let e = IrEventView::Note { start, duration, note, velocity, tone, envelope, meta };
    if let Some(Some(f)) = loops::shifted(e, start, shift, horizon) {
        timing::sums_are_apart(start, shift);
        let s = fraction::plus(start, shift)->0;
        if let Some(end) = fraction::plus(s, duration) {
            if fraction::less(horizon, end) {
                differences_are_apart(horizon, s);
            }
        }
    }
}

/// A round of a loop brings back every event of the loop that begins before the
/// horizon then, and nothing else; what was there stays in front.
pub proof fn rounds_bring_the_loop_back(
    events: Seq<IrEventView>,
    original: Seq<IrEventView>,
    n: int,
    start: Frac,
    stop: Frac,
    shift: Frac,
    horizon: Frac,
    k: int,
    e: IrEventView,
)
    requires
        0 <= k < n <= original.len(),
        loops::event_at(original[k]) is Some,
        !fraction::less(loops::event_at(original[k])->0, start),
        fraction::less(loops::event_at(original[k])->0, stop),
        loops::shifted(original[k], loops::event_at(original[k])->0, shift, horizon) == Some(Some(e)),
    ensures
        loops::with_round(events, original, n, start, stop, shift, horizon) matches Some(r)
            ==> r.contains(e) && r.len() >= events.len() && r.take(events.len() as int) == events,
    decreases n,
{
    if let Some(r) = loops::with_round(events, original, n, start, stop, shift, horizon) {
        let before = loops::with_round(events, original, n - 1, start, stop, shift, horizon)->0;
        round_keeps(events, original, n - 1, start, stop, shift, horizon);
        assert(r.take(events.len() as int) =~= before.take(events.len() as int));
        if k == n - 1 {
            assert(r[r.len() - 1] == e);
        } else {
            rounds_bring_the_loop_back(
                events,
                original,
                n - 1,
                start,
                stop,
                shift,
                horizon,
                k,
                e,
            );
            let i = choose|i: int| 0 <= i < before.len() && before[i] == e;
            assert(r[i] == e);
        }
    }
}

proof fn round_keeps(
    events: Seq<IrEventView>,
    original: Seq<IrEventView>,
    n: int,
    start: Frac,
    stop: Frac,
    shift: Frac,
    horizon: Frac,
)
    requires
        0 <= n <= original.len(),
    ensures
        loops::with_round(events, original, n, start, stop, shift, horizon) matches Some(r) ==> r.len()
            >= events.len() && r.take(events.len() as int) == events,
    decreases n,
{
    if let Some(r) = loops::with_round(events, original, n, start, stop, shift, horizon) {
        if n > 0 {
            round_keeps(events, original, n - 1, start, stop, shift, horizon);
            let before = loops::with_round(events, original, n - 1, start, stop, shift, horizon)->0;
            assert(r.take(events.len() as int) =~= before.take(events.len() as int));
        } else {
            assert(r.take(events.len() as int) =~= events);
        }
    }
}

/// A loop that was played a number of times is that many times as long as one
/// round of it.
pub proof fn rounds_share_the_loop(expanded: Frac, n: u32)
    requires
        n > 0,
        expanded.den > 0,
    ensures
        loops::single_loop(expanded, Some(n)) matches Some(one) ==> one.num * n * expanded.den
            == expanded.num * one.den,
        loops::single_loop(expanded, None) == Some(expanded),
{
    let d = expanded.den * n;
    assert(d > 0) by (nonlinear_arith)
        requires
            d == expanded.den * n,
            expanded.den > 0,
            n > 0,
    ;
    fraction::frac_reduces(expanded.num, d);
    if let Some(one) = loops::single_loop(expanded, Some(n)) {
        assert(one.num * n * expanded.den == one.num * d) by (nonlinear_arith)
            requires
                d == expanded.den * n,
        ;
    }
}

/// The rounds that are added follow each other at the distance of one round, the
/// first right behind what was played already.
pub proof fn rounds_follow_each_other(
    t: TrackIrView,
    start: Frac,
    end: Frac,
    horizon: Frac,
    loop_count: Option<u32>,
    expanded: Frac,
    one: Frac,
    stop: Frac,
    next: Frac,
    first: Seq<IrEventView>,
)
    requires
        fraction::minus(end, start) == Some(expanded),
        loops::single_loop(expanded, loop_count) == Some(one),
        fraction::less(fraction::whole(0), one),
        one.den > 0,
        fraction::plus(start, one) == Some(stop),
        fraction::plus(expanded, one) == Some(next),
        horizon.den > 0,
        fraction::plus(start, expanded) is Some,
        fraction::less(fraction::plus(start, expanded)->0, horizon),
        loops::with_round(
            t.events,
            t.events,
            t.events.len() as int,
            start,
            stop,
            expanded,
            horizon,
        ) == Some(first),
        fraction::plus(start, next) is Some,
        !fraction::less(fraction::plus(start, next)->0, horizon),
    ensures
        loops::played_on(t, start, end, horizon, loop_count) matches Some(r) && r.events == first
            && r.source_id == t.source_id && r.kind == t.kind,
{
    assert(one.num > 0);
    assert(loops::with_rounds(first, t.events, start, stop, one, next, horizon) == Some(first));
    assert(loops::with_rounds(t.events, t.events, start, stop, one, expanded, horizon) == Some(first));
}

} // verus!
