//! When and where things sound: ticks, tempos, channels and tracks of the output.

use vstd::prelude::*;

use crate::fraction;
use crate::fraction::Frac;
use crate::ir::{ChannelOverflowPolicy, OptionsView, TempoEventView, TrackIrView, TrackKind};
use crate::render::channels;
use crate::render::channels::{Allocation, Given};
use crate::render::events;
use crate::render::events::KindView;
use crate::render::score::ScoreView;
use crate::render::song;
use crate::render::stage::StageView;
use crate::render::tempo;

verus! {

// ---------------------------------------------------------------------------
// Ticks
// ---------------------------------------------------------------------------
/// A beat has 48 steps and as many ticks as are asked for: the tick of a position is
/// its share, rounded to the nearest.
pub proof fn beats_have_their_ticks(f: Frac, ppq: u16)
    requires
        f.den > 0,
        f.num >= 0,
        f.num * ppq < f.den * 0x1_0000_0000_0000,
    ensures
        -48 * f.den <= 2 * (events::tick_at(f, ppq) * (48 * f.den) - f.num * ppq) <= 48 * f.den,
        f == fraction::whole(48) ==> events::tick_at(f, ppq) == ppq,
{
    let n = f.num * ppq;
    let d = f.den * 48;
    assert(n >= 0) by (nonlinear_arith)
        requires
            n == f.num * ppq,
            f.num >= 0,
    ;
    let t = (n + d / 2) / d;
    assert(2 * t * d <= 2 * n + d && 2 * n + d <= 2 * t * d + 2 * d && t >= 0)
        by (nonlinear_arith)
        requires
            t == (n + d / 2) / d,
            d > 0,
            d % 2 == 0,
            n >= 0,
    ;
    assert(t < 0x1_0000_0000_0000_0000) by (nonlinear_arith)
        requires
            2 * t * d <= 2 * n + d,
            n < f.den * 0x1_0000_0000_0000,
            d == f.den * 48,
            f.den > 0,
    ;
    assert(events::tick_at(f, ppq) == t);
    assert(t * (48 * f.den) == t * d) by (nonlinear_arith)
        requires
            d == f.den * 48,
    ;
    assert(2 * (t * d) == 2 * t * d) by (nonlinear_arith);
    if f == fraction::whole(48) {
        assert(n == 48 * ppq);
        assert(d == 48);
    }
}

/// A note ends where its length leads from its start.
pub proof fn notes_end_where_their_length_leads(start: Frac, duration: Frac, ppq: u16)
    requires
        fraction::plus(start, duration) is Some,
    ensures
        events::end_tick_of(start, duration, ppq) == events::tick_at(fraction::plus(start, duration)->0, ppq),
{
}

// ---------------------------------------------------------------------------
// Tempos
// ---------------------------------------------------------------------------
/// The tempo of a point is in force from its tick until the next point; before the
/// first there are 120 beats in a minute.
pub proof fn tempos_hold_until_the_next(points: Seq<(u64, u32)>, k: int, tick: u64)
    requires
        tempo::ticks_ascend(points),
        -1 <= k < points.len(),
        k >= 0 ==> points[k].0 <= tick,
        k + 1 < points.len() ==> tick < points[k + 1].0,
    ensures
        events::tempo_at(points, points.len() as int, tick) == (if k < 0 {
            120
        } else {
            points[k].1
        }),
{
    tempo_before(points, points.len() as int, k, tick);
}

proof fn tempo_before(points: Seq<(u64, u32)>, n: int, k: int, tick: u64)
    requires
        tempo::ticks_ascend(points),
        -1 <= k < n <= points.len(),
        k >= 0 ==> points[k].0 <= tick,
        k + 1 < points.len() ==> tick < points[k + 1].0,
    ensures
        events::tempo_at(points, n, tick) == (if k < 0 {
            120
        } else {
            points[k].1
        }),
    decreases n,
{
    if n - 1 > k {
        if k + 1 < n - 1 {
            assert(points[k + 1].0 < points[n - 1].0);
        }
        tempo_before(points, n - 1, k, tick);
    }
}

proof fn put_is_there(points: Seq<(u64, u32)>, i: int, tick: u64, bpm: u32)
    requires
        0 <= i <= points.len(),
    ensures
        tempo::tempo_put(points, i, tick, bpm).contains((tick, bpm)),
        forall|k: int|
            0 <= k < points.len() && (k < i || points[k].0 != tick) ==> tempo::tempo_put(
                points,
                i,
                tick,
                bpm,
            ).contains(#[trigger] points[k]),
    decreases points.len() - i,
{
    let after = tempo::tempo_put(points, i, tick, bpm);
    if i >= points.len() {
        assert(after[points.len() as int] == (tick, bpm));
        assert forall|k: int| 0 <= k < points.len() implies after.contains(
            #[trigger] points[k],
        ) by {
            assert(after[k] == points[k]);
        }
    } else if points[i].0 == tick {
        assert(after[i] == (tick, bpm));
        assert forall|k: int|
            0 <= k < points.len() && (k < i || points[k].0 != tick) implies after.contains(
            #[trigger] points[k],
        ) by {
            assert(after[k] == points[k]);
        }
    } else if tick < points[i].0 {
        assert(after[i] == (tick, bpm));
        assert forall|k: int| 0 <= k < points.len() implies after.contains(
            #[trigger] points[k],
        ) by {
            if k < i {
                assert(after[k] == points[k]);
            } else {
                assert(after[k + 1] == points[k]);
            }
        }
    } else {
        put_is_there(points, i + 1, tick, bpm);
    }
}

/// Of the tempos at a tick the last one written counts, and those at other ticks
/// stay.
pub proof fn the_last_tempo_counts(
    s: ScoreView,
    events: Seq<TempoEventView>,
    n: int,
    ppq: u16,
)
    requires
        0 < n <= events.len(),
    ensures
        ({
            let before = tempo::tempo_map(s, events, n - 1, ppq).0;
            let after = tempo::tempo_map(s, events, n, ppq).0;
            let tick = events::tick_at(events[n - 1].at, ppq);
            &&& after.contains((tick, events[n - 1].bpm))
            &&& forall|k: int|
                0 <= k < before.len() && before[k].0 != tick ==> after.contains(
                    #[trigger] before[k],
                )
        }),
{
    put_is_there(
        tempo::tempo_map(s, events, n - 1, ppq).0,
        0,
        events::tick_at(events[n - 1].at, ppq),
        events[n - 1].bpm,
    );
}

/// Two tempos at one tick that differ are warned of, others are not.
pub proof fn conflicting_tempos_are_warned_of(
    s: ScoreView,
    events: Seq<TempoEventView>,
    n: int,
    ppq: u16,
)
    requires
        0 < n <= events.len(),
    ensures
        ({
            let (points, t) = tempo::tempo_map(s, events, n - 1, ppq);
            let after = tempo::tempo_map(s, events, n, ppq).1;
            let tick = events::tick_at(events[n - 1].at, ppq);
            let conflict = exists|k: int|
                0 <= k < points.len() && (#[trigger] points[k]).0 == tick && points[k].1
                    != events[n - 1].bpm;
            &&& after.events == t.events
            &&& after.diagnostics.parse_warnings.len() == t.diagnostics.parse_warnings.len() + (
            if conflict {
                1int
            } else {
                0int
            })
        }),
{
}

/// Each tempo point is an event of the conductor's track, at its tick.
pub proof fn tempos_stand_on_the_first_track(s: ScoreView, tempo: Seq<(u64, u32)>, n: int, i: int)
    requires
        0 <= i < n <= tempo.len(),
    ensures
        ({
            let t = song::with_tempos(s, tempo, n);
            let e = t.events[s.events.len() + i];
            &&& t.events.len() == s.events.len() + n
            &&& e.track_index == 0
            &&& e.abs_tick == tempo[i].0
            &&& e.kind == (KindView::Tempo { bpm: tempo[i].1 })
        }),
    decreases n,
{
    tempos_are_counted(s, tempo, n - 1);
    if i < n - 1 {
        tempos_stand_on_the_first_track(s, tempo, n - 1, i);
    }
}

proof fn tempos_are_counted(s: ScoreView, tempo: Seq<(u64, u32)>, n: int)
    requires
        0 <= n <= tempo.len(),
    ensures
        song::with_tempos(s, tempo, n).events.len() == s.events.len() + n,
    decreases n,
{
    if n > 0 {
        tempos_are_counted(s, tempo, n - 1);
    }
}

// ---------------------------------------------------------------------------
// Channels
// ---------------------------------------------------------------------------
/// A track is given the channel that it is configured for, and a rhythm track that
/// has none the channel of the drums.
pub proof fn configured_channels_are_given(
    g: Given,
    o: OptionsView,
    free: Seq<u8>,
    t: TrackIrView,
    midi_track: usize,
    channel: u8,
)
    requires
        o.smfmap.midi_channel(t.source_id) == Some(channel) || o.smfmap.midi_channel(t.source_id)
            is None && t.kind == TrackKind::Rhythm && o.smfmap.rhythm_channel == channel && channel
            <= 15,
    ensures
        channels::give_channel(g, o, free, t, midi_track) matches Ok(r) && r.allocations.len()
            == g.allocations.len() + 1 && r.allocations.last().channel == channel && r.floating
            == g.floating && ({
            let d = r.score.diagnostics.channel_allocations.last();
            &&& d.source_track == t.source_id
            &&& d.midi_track == midi_track
            &&& d.midi_channel == channel
        }),
{
}

/// A track that is configured for no channel is given the next free one; when none
/// is left, it is refused, shares one, or gets one on the next port, as asked for.
pub proof fn free_channels_are_given_in_turn(
    g: Given,
    o: OptionsView,
    free: Seq<u8>,
    t: TrackIrView,
    midi_track: usize,
)
    requires
        channels::fixed_channel(o.smfmap, t.source_id, t.kind) is None,
        0 <= g.floating,
        free.len() > 0,
        o.smfmap.midi_port(t.source_id) is None,
    ensures
        g.floating < free.len() ==> (channels::give_channel(g, o, free, t, midi_track) matches Ok(r)
            && r.allocations.last() == (Allocation { channel: free[g.floating], port: 0 })
            && r.floating == g.floating + 1),
        g.floating == free.len() && o.channel_overflow == ChannelOverflowPolicy::Error
            ==> channels::give_channel(g, o, free, t, midi_track) is Err,
        g.floating == free.len() && o.channel_overflow == ChannelOverflowPolicy::Shared ==> (
        channels::give_channel(g, o, free, t, midi_track) matches Ok(r) && r.allocations.last() == (
        Allocation { channel: free[0], port: 0 })
            && r.score.diagnostics.unsupported_commands.len()
            == g.score.diagnostics.unsupported_commands.len() + 1),
        g.floating == free.len() && o.channel_overflow == ChannelOverflowPolicy::MultiPort ==> (
        channels::give_channel(g, o, free, t, midi_track) matches Ok(r) && r.allocations.last() == (
        Allocation { channel: free[0], port: 1 })),
{
    let n = free.len() as int;
    if g.floating == n {
        assert(n % n == 0 && n / n == 1) by (nonlinear_arith)
            requires
                n > 0,
        ;
    }
}

/// A source track is named after its letter, on a track of its own behind the
/// conductor's.
pub proof fn tracks_are_named(s: ScoreView, v: StageView, port: u8)
    requires
        !v.options.smfmap.tracks.contains_key(v.id),
        v.glide is None,
    ensures
        song::track_begun(s, v, port) matches Ok(t) && t.events.len() == s.events.len() + (if port > 0 {
            2int
        } else {
            1int
        }) && ({
            let e = t.events[s.events.len() as int];
            &&& e.track_index == v.midi_track
            &&& e.abs_tick == 0
            &&& e.kind == KindView::TrackName("Track "@ + v.id)
        }) && (port > 0 ==> t.events.last().kind == (KindView::MidiPort { port })
            && t.events.last().track_index == v.midi_track),
{
}

/// The conductor's track says the title, four beats in a bar and no sharps or flats.
pub proof fn songs_are_headed(s: ScoreView, title: Seq<char>)
    ensures
        ({
            let t = song::with_heading(s, Some(title));
            let n = s.events.len() as int;
            &&& t.events.len() >= n + 3
            &&& t.events.take(n) == s.events
            &&& t.events[n].kind == KindView::TrackName(title)
            &&& t.events[n + 1].kind matches KindView::TimeSignature {
                numerator,
                denominator_power,
                ..
            }
            &&& numerator == 4
            &&& denominator_power == 2
            &&& t.events[n + 2].kind == (KindView::KeySignature { sharps_flats: 0, minor: false })
            &&& forall|i: int|
                n <= i < t.events.len() ==> (#[trigger] t.events[i]).track_index == 0
                    && t.events[i].abs_tick == 0
        }),
{
    let t = song::with_heading(s, Some(title));
    assert(t.events.take(s.events.len() as int) =~= s.events);
}

} // verus!
