//! What comes first at a tick, and what is rendered of a track at all.

use vstd::prelude::*;

use crate::ir;
use crate::ir::{
    ChannelOverflowPolicy, IrEventView, OptionsView, SmfRequestView, SourceFamily, TrackIrView,
    TrackKind,
};
use crate::render::channels;
use crate::render::envelope::EnvelopePoint;
use crate::render::events;
use crate::render::events::{KindView, RenderedEventView};
use crate::render::messages;
use crate::render::notes;
use crate::render::order;
use crate::render::pitch_glide;
use crate::render::requests;
use crate::render::score::{Failure, Place, ScoreView};
use crate::render::song;
use crate::render::stage::{Moment, StageView};
use crate::smfmap::{
    DrumOutputMode, OpllPseudoDrumMapView, PitchGlideSharedChannelPolicy, SmfMapConfigView,
};

verus! {

// ---------------------------------------------------------------------------
// The order at a tick
// ---------------------------------------------------------------------------
/// At one tick of a track notes end before new ones begin, so that a key that is
/// struck again is let go first.
pub proof fn notes_end_before_notes_begin(
    s: ScoreView,
    p: Place,
    end: u64,
    note: u8,
    velocity: u8,
    next: Place,
    later: u64,
    key: u8,
    loudness: u8,
)
    requires
        next.tick == end,
        next.midi_track == p.midi_track,
    ensures
        ({
            let n = s.events.len() as int;
            let a = notes::with_note(s, p, end, note, velocity).events[n + 1];
            let b = notes::with_note(s, next, later, key, loudness).events[n];
            a.kind is NoteOff && b.kind is NoteOn && order::plays_before(a, b) && !order::plays_before(b, a)
        }),
{
}

/// At one tick of a track a bank is chosen before the program in it, and both are
/// set, as controllers and parameters are, before a note begins with them.
pub proof fn settings_come_before_notes(
    s: ScoreView,
    p: Place,
    end: u64,
    note: u8,
    velocity: u8,
    a: u8,
    b: u8,
    value: u16,
)
    ensures
        ({
            let n = s.events.len() as int;
            let bank = requests::plain_request(s, p, SmfRequestView::Bank { msb: a, lsb: b }, true).events[n
                + 1];
            let program = requests::plain_request(s, p, SmfRequestView::Pc { program: a }, true).events[n];
            let set = requests::plain_request(
                s,
                p,
                SmfRequestView::Cc { controller: a, value: b },
                true,
            ).events[n];
            let parameter = requests::plain_request(
                s,
                p,
                SmfRequestView::Rpn { msb: a, lsb: b, value },
                true,
            ).events[n + 3];
            let begin = notes::with_note(s, p, end, note, velocity).events[n];
            &&& order::plays_before(bank, program) && !order::plays_before(program, bank)
            &&& order::plays_before(program, begin) && !order::plays_before(begin, program)
            &&& order::plays_before(set, begin) && !order::plays_before(begin, set)
            &&& order::plays_before(parameter, begin) && !order::plays_before(begin, parameter)
        }),
{
}

/// The first value of a PSG envelope is set before its note begins, so that the
/// note does not begin as loud as the one before it ended.
pub proof fn first_values_come_before_their_note(
    s: ScoreView,
    v: StageView,
    start: u64,
    end: u64,
    note: u8,
    velocity: u8,
    controller: u8,
    value: u8,
    at: Moment,
)
    requires
        v.family == SourceFamily::Psg || v.family == SourceFamily::PsgNoise,
    ensures
        notes::with_point(
            s,
            v,
            start,
            EnvelopePoint::Value { tick: start, value },
            Some(controller),
            at,
        ) matches Ok(t) && ({
            let n = s.events.len() as int;
            let first = t.events[n];
            let begin = notes::with_note(s, v.place(start), end, note, velocity).events[n];
            &&& first.kind == (KindView::ControlChange { channel: v.channel, controller, value })
            &&& order::plays_before(first, begin)
            &&& !order::plays_before(begin, first)
        }),
{
}

/// Whatever else holds, what stands at an earlier tick of a track is played
/// earlier.
pub proof fn earlier_ticks_come_first(a: RenderedEventView, b: RenderedEventView)
    requires
        a.track_index == b.track_index,
        a.abs_tick < b.abs_tick,
    ensures
        order::plays_before(a, b),
        !order::plays_before(b, a),
{
}

// ---------------------------------------------------------------------------
// Channels
// ---------------------------------------------------------------------------
/// A rhythm track goes to the channel of the drums, and an OPLL track that is
/// replaced by drums to that of its map; a channel that is set for a track counts
/// before either, and a track with neither takes what is free.
pub proof fn drums_have_their_channel(
    m: SmfMapConfigView,
    track: Seq<char>,
    kind: TrackKind,
    channel: u8,
    map: OpllPseudoDrumMapView,
)
    ensures
        m.midi_channel(track) == Some(channel) ==> channels::fixed_channel(m, track, kind) == Some(channel),
        m.midi_channel(track) is None && m.rhythm_channel <= 15 ==> channels::fixed_channel(
            m,
            track,
            TrackKind::Rhythm,
        ) == Some(m.rhythm_channel),
        m.midi_channel(track) is None && m.drum_map(track, TrackKind::Melodic) == Some(map)
            && map.output.mode == DrumOutputMode::Replace && map.output.midi_channel == Some(
            channel,
        ) && channel <= 15 ==> channels::fixed_channel(m, track, TrackKind::Melodic) == Some(channel),
        m.midi_channel(track) is None && m.drum_map(track, TrackKind::Melodic) == Some(map)
            && map.output.mode == DrumOutputMode::Replace && map.output.midi_channel is None
            && m.rhythm_channel <= 15 ==> channels::fixed_channel(m, track, TrackKind::Melodic) == Some(
            m.rhythm_channel,
        ),
        m.midi_channel(track) is None && m.drum_map(track, TrackKind::Melodic) is None
            ==> channels::fixed_channel(m, track, TrackKind::Melodic) is None,
{
}

/// A track for which no channel is left is refused, shares the channel of another
/// track, or goes to a further port, as the policy says.
pub proof fn crowded_tracks_follow_the_policy(free: Seq<u8>, n: int, port: u8)
    requires
        n >= free.len(),
    ensures
        channels::floating_channel(free, n, port, ChannelOverflowPolicy::Error) is None,
        free.len() > 0 ==> (channels::floating_channel(free, n, port, ChannelOverflowPolicy::Shared) matches Some(
            (a, shared),
        ) && shared && a.port == port && free.contains(a.channel)),
        free.len() > 0 ==> (channels::floating_channel(free, n, port, ChannelOverflowPolicy::MultiPort) matches Some(
            (a, shared),
        ) && !shared && (port < 127 ==> a.port > port) && free.contains(a.channel)),
        free.len() == 0 ==> channels::floating_channel(free, n, port, ChannelOverflowPolicy::Shared) is None
            && channels::floating_channel(free, n, port, ChannelOverflowPolicy::MultiPort) is None,
{
    if free.len() > 0 {
        let d = free.len() as int;
        assert(0 <= n % d < d);
        assert(free[n % d] == free[n % d]);
        assert(n / d >= 1) by (nonlinear_arith)
            requires
                n >= d,
                d > 0,
        ;
    }
}

/// On further ports no two tracks meet, as far as there are ports.
pub proof fn ports_keep_tracks_apart(free: Seq<u8>, n: int, k: int, port: u8)
    requires
        0 <= n < k,
        free.len() > 0,
        forall|i: int, j: int| 0 <= i < j < free.len() ==> #[trigger] free[i] != #[trigger] free[j],
        port + k / (free.len() as int) <= 127,
    ensures
        channels::floating_channel(free, n, port, ChannelOverflowPolicy::MultiPort) matches Some((a, _)) && (
        channels::floating_channel(free, k, port, ChannelOverflowPolicy::MultiPort) matches Some((b, _)) && a
            != b),
{
    let d = free.len() as int;
    assert(n == d * (n / d) + n % d && 0 <= n % d < d) by (nonlinear_arith)
        requires
            d > 0,
    ;
    assert(k == d * (k / d) + k % d && 0 <= k % d < d) by (nonlinear_arith)
        requires
            d > 0,
    ;
    assert(0 <= n / d <= k / d) by (nonlinear_arith)
        requires
            0 <= n < k,
            d > 0,
    ;
    if n < d {
        assert(n / d == 0 && n % d == n) by (nonlinear_arith)
            requires
                0 <= n < d,
        ;
    }
    if k < d {
        assert(k / d == 0 && k % d == k) by (nonlinear_arith)
            requires
                0 <= k < d,
        ;
    }
    if n % d == k % d {
        assert(n / d != k / d) by (nonlinear_arith)
            requires
                n == d * (n / d) + n % d,
                k == d * (k / d) + k % d,
                n % d == k % d,
                n != k,
        ;
    } else {
        if n % d < k % d {
            assert(free[n % d] != free[k % d]);
        } else {
            assert(free[k % d] != free[n % d]);
        }
    }
}

// ---------------------------------------------------------------------------
// Glides
// ---------------------------------------------------------------------------
proof fn glides_are_found(events: Seq<IrEventView>, n: int, i: int)
    requires
        0 <= n <= events.len(),
    ensures
        0 <= i < n && (events[i] matches IrEventView::Note { meta, .. } && meta.pitch_glide is Some)
            ==> song::has_glide(events, n),
        (forall|j: int|
            0 <= j < n ==> (#[trigger] events[j] matches IrEventView::Note { meta, .. }
                ==> meta.pitch_glide is None)) ==> !song::has_glide(events, n),
    decreases n,
{
    if n > 0 {
        glides_are_found(events, n - 1, i);
    }
}

/// Glides are rendered where they are switched on and the track has one. On a
/// channel that is shared they are left out, refused, or rendered all the same,
/// as the policy says.
pub proof fn glides_are_chosen(
    s: ScoreView,
    o: OptionsView,
    t: TrackIrView,
    shared: bool,
    i: int,
)
    ensures
        ({
            let c = o.smfmap.pitch_glide;
            let some = 0 <= i < t.events.len() && (t.events[i] matches IrEventView::Note {
                meta,
                ..
            } && meta.pitch_glide is Some);
            let none = forall|j: int|
                0 <= j < t.events.len() ==> (#[trigger] t.events[j] matches IrEventView::Note {
                    meta,
                    ..
                } ==> meta.pitch_glide is None);
            let r = song::glide_choice(s, o, t, shared);
            &&& !c.enabled || none ==> r == Ok::<(ScoreView, Option<(u8, u8)>), Failure>((s, None))
            &&& c.enabled && some && !shared ==> (r matches Ok((b, g)) && b == s && g is Some)
            &&& c.enabled && some && shared && c.shared_channel_policy
                == PitchGlideSharedChannelPolicy::Error ==> r is Err
            &&& c.enabled && some && shared && c.shared_channel_policy
                == PitchGlideSharedChannelPolicy::WarnAndSuppress ==> (r matches Ok((b, g)) && g
                is None && b.events == s.events && b.diagnostics.unsupported_commands.len()
                == s.diagnostics.unsupported_commands.len() + 1)
            &&& c.enabled && some && shared && c.shared_channel_policy
                == PitchGlideSharedChannelPolicy::AllowUnsafe ==> (r matches Ok((b, g)) && b == s
                && g is Some)
        }),
{
    glides_are_found(t.events, t.events.len() as int, i);
}

/// A group of slurred notes is a run of notes: each is slurred to the next one,
/// and keeps its own key and its own ticks.
pub proof fn groups_are_slurred_notes(
    events: Seq<IrEventView>,
    start: int,
    index: int,
    ppq: u16,
    k: int,
)
    requires
        0 <= start <= index < events.len(),
        0 <= k < pitch_glide::slurred_from(events, start, index, ppq).len(),
    ensures
        ({
            let group = pitch_glide::slurred_from(events, start, index, ppq);
            let g = group[k];
            &&& g.event_index == index + k
            &&& index + k < events.len()
            &&& events[index + k] matches IrEventView::Note { start: a, duration, note, meta, .. }
            &&& g.note == note
            &&& g.meta == meta
            &&& g.start_tick == events::tick_at(a, ppq)
            &&& g.end_tick == events::end_tick_of(a, duration, ppq)
            &&& k < group.len() - 1 ==> meta.slur_to_next
            &&& index + k != start ==> meta.slur_from_previous
        }),
    decreases events.len() - index,
{
    let group = pitch_glide::slurred_from(events, start, index, ppq);
    if k > 0 {
        let rest = pitch_glide::slurred_from(events, start, index + 1, ppq);
        assert(group[k] == rest[k - 1]);
        groups_are_slurred_notes(events, start, index + 1, ppq, k - 1);
    }
}

/// Where a track with glides ends, its bend wheel is back in the middle, if that
/// is asked for.
pub proof fn wheels_are_set_back(s: ScoreView, v: StageView, t: TrackIrView, port: u8)
    ensures
        v.glide is Some && v.options.smfmap.pitch_glide.reset.at_track_end ==> messages::extends(
            s.events,
            song::track_ended(s, v, t, port).events,
            1,
        ) && messages::sends(
            song::track_ended(s, v, t, port).events.last(),
            v.place(events::tick_at(t.length, v.options.ppq)),
            KindView::PitchBend { channel: v.channel, value: 8192 },
        ),
        v.glide is None || !v.options.smfmap.pitch_glide.reset.at_track_end ==> song::track_ended(
            s,
            v,
            t,
            port,
        ).events == s.events,
{
    let after = song::track_ended(s, v, t, port).events;
    if v.glide is Some && v.options.smfmap.pitch_glide.reset.at_track_end {
        assert(after.take(s.events.len() as int) =~= s.events);
    }
}

// ---------------------------------------------------------------------------
// Summaries
// ---------------------------------------------------------------------------
/// The notes and the controllers of a track are counted one by one: an event adds
/// one where it is one of them and stands on the track, and nothing otherwise.
pub proof fn events_are_counted(
    events: Seq<RenderedEventView>,
    e: RenderedEventView,
    midi_track: usize,
)
    ensures
        ({
            let n = events.len() as int;
            let more = events.push(e);
            let on_track = e.track_index == midi_track;
            &&& on_track && e.kind is NoteOn ==> song::count_notes(more, n + 1, midi_track)
                == song::count_notes(events, n, midi_track) + 1
            &&& !(on_track && e.kind is NoteOn) ==> song::count_notes(more, n + 1, midi_track)
                == song::count_notes(events, n, midi_track)
            &&& on_track && e.kind is ControlChange ==> song::count_controls(more, n + 1, midi_track)
                == song::count_controls(events, n, midi_track) + 1
            &&& !(on_track && e.kind is ControlChange) ==> song::count_controls(more, n + 1, midi_track)
                == song::count_controls(events, n, midi_track)
            &&& song::count_notes(Seq::empty(), 0, midi_track) == 0
            &&& song::count_controls(Seq::empty(), 0, midi_track) == 0
        }),
{
    counts_agree(events, events.push(e), events.len() as int, midi_track);
}

proof fn counts_agree(
    a: Seq<RenderedEventView>,
    b: Seq<RenderedEventView>,
    n: int,
    midi_track: usize,
)
    requires
        0 <= n <= a.len() <= b.len(),
        forall|i: int| 0 <= i < a.len() ==> a[i] == #[trigger] b[i],
    ensures
        song::count_notes(a, n, midi_track) == song::count_notes(b, n, midi_track),
        song::count_controls(a, n, midi_track) == song::count_controls(b, n, midi_track),
    decreases n,
{
    if n > 0 {
        counts_agree(a, b, n - 1, midi_track);
        assert(a[n - 1] == b[n - 1]);
    }
}

/// The summary of a track says which track it is, where it went, and how long it
/// is.
pub proof fn tracks_are_summed_up(s: ScoreView, v: StageView, t: TrackIrView, port: u8)
    ensures
        ({
            let d = song::track_ended(s, v, t, port).diagnostics;
            let one = d.track_summaries.last();
            &&& d.track_summaries.len() == s.diagnostics.track_summaries.len() + 1
            &&& one.source_track == v.id
            &&& one.midi_track == v.midi_track
            &&& one.midi_channel == v.channel
            &&& one.midi_port == port
            &&& one.source_steps == ir::step_json(t.length)
        }),
{
}

} // verus!
