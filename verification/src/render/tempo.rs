//! The tempo map.

use vstd::prelude::*;

use crate::ir::{TempoEvent, TempoEventView};
use crate::render::events;
use crate::render::events::find_tick;
use crate::render::score::{Score, ScoreView};
use crate::text;
use crate::text::{join2, number_text};
use crate::views;

verus! {

/// A tempo put in its place, from place `i` on; it takes the place of one at the
/// same tick.
pub open spec fn tempo_put(points: Seq<(u64, u32)>, i: int, tick: u64, bpm: u32) -> Seq<(u64, u32)>
    decreases points.len() - i,
{
    if i < 0 || i >= points.len() {
        points.push((tick, bpm))
    } else if points[i].0 == tick {
        points.update(i, (tick, bpm))
    } else if tick < points[i].0 {
        points.insert(i, (tick, bpm))
    } else {
        tempo_put(points, i + 1, tick, bpm)
    }
}

/// Whether another tempo stands at a tick.
pub open spec fn tempo_conflicts(points: Seq<(u64, u32)>, tick: u64, bpm: u32) -> bool {
    exists|k: int|
        0 <= k < points.len() && (#[trigger] points[k]).0 == tick && points[k].1 != bpm
}

/// The tempo points of the first `n` tempo events, in the order of their ticks. Of
/// two at one tick the later event counts, and a warning says so.
pub open spec fn tempo_map(s: ScoreView, events: Seq<TempoEventView>, n: int, ppq: u16) -> (
    Seq<(u64, u32)>,
    ScoreView,
)
    decreases n,
{
    if n <= 0 || n > events.len() {
        (Seq::empty(), s)
    } else {
        let (points, t) = tempo_map(s, events, n - 1, ppq);
        let tick = events::tick_at(events[n - 1].at, ppq);
        let bpm = events[n - 1].bpm;
        (
            tempo_put(points, 0, tick, bpm),
            if tempo_conflicts(points, tick, bpm) {
                t.warned(None, "conflicting tempo at tick "@ + text::decimal(tick as nat))
            } else {
                t
            },
        )
    }
}

/// The ticks of tempo points ascend.
pub open spec fn ticks_ascend(points: Seq<(u64, u32)>) -> bool {
    forall|i: int, j: int|
        0 <= i < j < points.len() ==> (#[trigger] points[i]).0 < (#[trigger] points[j]).0
}

proof fn tempo_put_keeps_order(points: Seq<(u64, u32)>, i: int, tick: u64, bpm: u32)
    requires
        ticks_ascend(points),
        0 <= i <= points.len(),
        forall|k: int| 0 <= k < i ==> (#[trigger] points[k]).0 < tick,
    ensures
        ticks_ascend(tempo_put(points, i, tick, bpm)),
    decreases points.len() - i,
{
    if i < points.len() && points[i].0 < tick {
        tempo_put_keeps_order(points, i + 1, tick, bpm);
    }
}

/// The tempo map is in order, with one tempo at a tick.
pub proof fn tempo_map_ascends(s: ScoreView, events: Seq<TempoEventView>, n: int, ppq: u16)
    requires
        0 <= n <= events.len(),
    ensures
        ticks_ascend(tempo_map(s, events, n, ppq).0),
    decreases n,
{
    if n > 0 {
        tempo_map_ascends(s, events, n - 1, ppq);
        tempo_put_keeps_order(
            tempo_map(s, events, n - 1, ppq).0,
            0,
            events::tick_at(events[n - 1].at, ppq),
            events[n - 1].bpm,
        );
    }
}

fn put_tempo(points: &mut Vec<(u64, u32)>, tick: u64, bpm: u32)
    ensures
        final(points)@ == tempo_put(old(points)@, 0, tick, bpm),
{
    let mut i: usize = 0;
    while i < points.len()
        invariant
            i <= points@.len(),
            points@ == old(points)@,
            tempo_put(points@, 0, tick, bpm) == tempo_put(points@, i as int, tick, bpm),
        decreases points@.len() - i,
    {
        if points[i].0 == tick {
            points.set(i, (tick, bpm));
            return;
        }
        if tick < points[i].0 {
            points.insert(i, (tick, bpm));
            return;
        }
        i += 1;
    }
    points.push((tick, bpm));
}

fn find_conflict(points: &[(u64, u32)], tick: u64, bpm: u32) -> (r: bool)
    ensures
        r == tempo_conflicts(points@, tick, bpm),
{
    let mut i: usize = 0;
    while i < points.len()
        invariant
            i <= points@.len(),
            forall|k: int|
                0 <= k < i ==> !((#[trigger] points@[k]).0 == tick && points@[k].1 != bpm),
        decreases points@.len() - i,
    {
        if points[i].0 == tick && points[i].1 != bpm {
            assert(points@[i as int].0 == tick);
            return true;
        }
        i += 1;
    }
    false
}

/// The tempo map of a song.
pub fn find_tempo_map(score: &mut Score, events: &[TempoEvent], ppq: u16) -> (r: Vec<(u64, u32)>)
    ensures
        (r@, final(score).deep_view()) == tempo_map(
            old(score).deep_view(),
            views::all_views(events@),
            events@.len() as int,
            ppq,
        ),
{
    let ghost all = views::all_views(events@);
    let ghost start = score.deep_view();
    let mut points: Vec<(u64, u32)> = Vec::new();
    let mut i: usize = 0;
    while i < events.len()
        invariant
            i <= events@.len(),
            all == views::all_views(events@),
            start == old(score).deep_view(),
            (points@, score.deep_view()) == tempo_map(start, all, i as int, ppq),
        decreases events@.len() - i,
    {
        assert(all[i as int] == events@[i as int].deep_view());
        let tick = find_tick(events[i].at_steps, ppq);
        let bpm = events[i].bpm;
        if find_conflict(points.as_slice(), tick, bpm) {
            let n = number_text(tick);
            let message = join2("conflicting tempo at tick ", n.as_str());
            score.warn(None, message.as_str());
        }
        put_tempo(&mut points, tick, bpm);
        i += 1;
    }
    points
}

} // verus!
