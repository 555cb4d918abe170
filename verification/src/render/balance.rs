//! Every note of a rendered song that begins also ends.

use vstd::prelude::*;

use crate::diagnostics::{DiagnosticsView, IgnoredToneDefinitionView};
use crate::ir::{
    ControlKind, EnvelopeMode, EnvelopeRef, IrEventView, NoteMetaView, OptionsView,
    RegisterContext, SmfRequestView, SongIrView, TempoEventView, TonePolicy, TrackIrView,
};
use crate::render;
use crate::render::channels;
use crate::render::channels::Allocation;
use crate::render::envelope;
use crate::render::envelope::EnvelopePoint;
use crate::render::events;
use crate::render::events::{KindView, PRI_META, PRI_SETUP, RenderedEventView};
use crate::render::notes;
use crate::render::opll_pseudo_drum;
use crate::render::order;
use crate::render::pitch_glide;
use crate::render::pitch_glide::{BendTargetView, Curve, SegmentView};
use crate::render::requests;
use crate::render::score::{Place, ScoreView};
use crate::render::song;
use crate::render::stage;
use crate::render::stage::{Moment, StageView};
use crate::render::tempo;
use crate::render::tracks;
use crate::render::tracks::{PlayedNote, TrackState};
use crate::smfmap;
use crate::smfmap::{DrumContextView, OpllPseudoDrumMapView, RuleEventsView, SmfMapConfigView};
use crate::text;

verus! {

// ---------------------------------------------------------------------------
// Sounding notes
// ---------------------------------------------------------------------------
/// A key of a channel, on a track of the output.
pub struct Voice {
    pub midi_track: usize,
    pub channel: u8,
    pub note: u8,
}

/// By how much an event changes the number of sounding notes of a voice.
pub open spec fn change(e: RenderedEventView, v: Voice) -> int {
    match e.kind {
        KindView::NoteOn { channel, note, .. } => if e.track_index == v.midi_track && channel
            == v.channel && note == v.note {
            1
        } else {
            0
        },
        KindView::NoteOff { channel, note, .. } => if e.track_index == v.midi_track && channel
            == v.channel && note == v.note {
            -1
        } else {
            0
        },
        _ => 0,
    }
}

/// How many more notes of a voice begin than end.
pub open spec fn sounding(events: Seq<RenderedEventView>, v: Voice) -> int
    decreases events.len(),
{
    if events.len() == 0 {
        0
    } else {
        sounding(events.drop_last(), v) + change(events.last(), v)
    }
}

/// As many notes end as begin, on every key of every channel of every track.
pub open spec fn balanced(events: Seq<RenderedEventView>) -> bool {
    forall|v: Voice| #[trigger] sounding(events, v) == 0
}

/// An event that begins no note and ends none.
pub open spec fn is_silent(kind: KindView) -> bool {
    !(kind is NoteOn) && !(kind is NoteOff)
}

proof fn sounding_pushed(events: Seq<RenderedEventView>, e: RenderedEventView, v: Voice)
    ensures
        sounding(events.push(e), v) == sounding(events, v) + change(e, v),
{
    assert(events.push(e).drop_last() =~= events);
}

proof fn sounding_joined(a: Seq<RenderedEventView>, b: Seq<RenderedEventView>, v: Voice)
    ensures
        sounding(a + b, v) == sounding(a, v) + sounding(b, v),
    decreases b.len(),
{
    if b.len() == 0 {
        assert(a + b =~= a);
    } else {
        assert((a + b).drop_last() =~= a + b.drop_last());
        sounding_joined(a, b.drop_last(), v);
    }
}

proof fn silent_event_keeps(events: Seq<RenderedEventView>, e: RenderedEventView)
    requires
        balanced(events),
        is_silent(e.kind),
    ensures
        balanced(events.push(e)),
{
    assert forall|v: Voice| #[trigger] sounding(events.push(e), v) == 0 by {
        sounding_pushed(events, e, v);
        assert(sounding(events, v) == 0);
    }
}

proof fn joined_keeps(a: Seq<RenderedEventView>, b: Seq<RenderedEventView>)
    requires
        balanced(a),
        balanced(b),
    ensures
        balanced(a + b),
{
    assert forall|v: Voice| #[trigger] sounding(a + b, v) == 0 by {
        sounding_joined(a, b, v);
        assert(sounding(a, v) == 0 && sounding(b, v) == 0);
    }
}

/// Events of which none begins a note or ends one.
pub open spec fn all_silent(events: Seq<RenderedEventView>) -> bool {
    forall|i: int| 0 <= i < events.len() ==> is_silent((#[trigger] events[i]).kind)
}

proof fn silence_is_balanced(events: Seq<RenderedEventView>)
    requires
        all_silent(events),
    ensures
        balanced(events),
    decreases events.len(),
{
    if events.len() > 0 {
        let before = events.drop_last();
        assert forall|i: int| 0 <= i < before.len() implies is_silent(
            (#[trigger] before[i]).kind,
        ) by {
            assert(before[i] == events[i]);
        }
        silence_is_balanced(before);
        silent_event_keeps(before, events.last());
        assert(before.push(events.last()) =~= events);
    } else {
        assert forall|v: Voice| #[trigger] sounding(events, v) == 0 by {}
    }
}

proof fn note_is_balanced(
    midi_track: usize,
    start: u64,
    end: u64,
    channel: u8,
    note: u8,
    velocity: u8,
)
    ensures
        balanced(opll_pseudo_drum::drum_events(midi_track, start, end, channel, note, velocity)),
{
    let events = opll_pseudo_drum::drum_events(midi_track, start, end, channel, note, velocity);
    assert forall|v: Voice| #[trigger] sounding(events, v) == 0 by {
        let first = events.drop_last();
        assert(first.drop_last() =~= Seq::empty());
        assert(sounding(first.drop_last(), v) == 0);
        assert(sounding(first, v) == change(first.last(), v));
    }
}

// ---------------------------------------------------------------------------
// Requests
// ---------------------------------------------------------------------------
proof fn plain_request_keeps(s: ScoreView, p: Place, r: SmfRequestView, programs: bool)
    requires
        balanced(s.events),
    ensures
        balanced(requests::plain_request(s, p, r, programs).events),
{
    let t = requests::plain_request(s, p, r, programs);
    let added = t.events.skip(s.events.len() as int);
    assert(t.events =~= s.events + added);
    assert(all_silent(added));
    silence_is_balanced(added);
    joined_keeps(s.events, added);
}

proof fn request_keeps(
    s: ScoreView,
    p: Place,
    r: SmfRequestView,
    programs: bool,
    macros: Map<Seq<char>, Seq<SmfRequestView>>,
    depth: nat,
)
    requires
        balanced(s.events),
    ensures
        requests::with_request(s, p, r, programs, macros, depth) matches Ok(t) ==> balanced(t.events),
    decreases depth, 0int,
{
    match requests::called_macro(r) {
        None => {
            plain_request_keeps(s, p, r, programs);
        },
        Some(name) => {
            if macros.contains_key(name) && depth > 0 {
                requests_keep(
                    s,
                    p,
                    macros[name],
                    macros[name].len() as int,
                    programs,
                    macros,
                    (depth - 1) as nat,
                );
            }
        },
    }
}

proof fn requests_keep(
    s: ScoreView,
    p: Place,
    requests: Seq<SmfRequestView>,
    n: int,
    programs: bool,
    macros: Map<Seq<char>, Seq<SmfRequestView>>,
    depth: nat,
)
    requires
        balanced(s.events),
    ensures
        requests::with_requests(s, p, requests, n, programs, macros, depth) matches Ok(t) ==> balanced(
            t.events,
        ),
    decreases depth, n,
{
    if 0 < n <= requests.len() {
        requests_keep(s, p, requests, n - 1, programs, macros, depth);
        if let Ok(t) = requests::with_requests(s, p, requests, n - 1, programs, macros, depth) {
            request_keeps(t, p, requests[n - 1], programs, macros, depth);
        }
    }
}

proof fn tone_policy_keeps(
    s: ScoreView,
    p: Place,
    policy: TonePolicy,
    tone: u8,
    number: u8,
    mapped: bool,
    programs: bool,
)
    requires
        balanced(s.events),
    ensures
        balanced(stage::with_tone_policy(s, p, policy, tone, number, mapped, programs).events),
{
    let t = stage::with_tone_policy(s, p, policy, tone, number, mapped, programs);
    if t.events.len() > s.events.len() {
        silent_event_keeps(s.events, t.events.last());
        assert(t.events =~= s.events.push(t.events.last()));
    }
}

proof fn tone_extras_keep(
    s: ScoreView,
    p: Place,
    o: OptionsView,
    tone: u8,
    number: u8,
    mapped: bool,
    programs: bool,
)
    requires
        balanced(s.events),
    ensures
        balanced(stage::with_tone_extras(s, p, o, tone, number, mapped, programs).events),
{
    tone_policy_keeps(s, p, o.tone_policy, tone, number, mapped, programs);
    let t = stage::with_tone_policy(s, p, o.tone_policy, tone, number, mapped, programs);
    silent_event_keeps(
        t.events,
        events::event(
            p.midi_track,
            p.tick,
            PRI_META,
            KindView::Text("tone @"@ + text::decimal(tone as nat)),
        ),
    );
}

proof fn tone_change_keeps(s: ScoreView, v: StageView, tick: u64, tone: u8)
    requires
        balanced(s.events),
    ensures
        stage::tone_changed(s, v, tick, tone) matches Ok(t) ==> balanced(t.events),
{
    let m = v.options.smfmap;
    let p = v.place(tick);
    let number = stage::mapped_number(v, tone);
    let programs = stage::drums_leave_programs(v.drums);
    let used = s.with_diagnostics(
        s.diagnostics.with_tone_usage(v.id, v.family.name(), tone),
    );
    match m.tone(v.family, number) {
        Some(requests) => {
            let n = requests.len() as int;
            let depth = m.macro_max_depth as nat;
            requests_keep(used, p, requests, n, programs, m.macros, depth);
            if let Ok(t) = requests::with_requests(used, p, requests, n, programs, m.macros, depth) {
                tone_extras_keep(t, p, v.options, tone, number, n > 0, programs);
            }
        },
        None => {
            let t = used.with_diagnostics(
                used.diagnostics.with_unmapped_tone(v.id, v.family.name(), tone),
            );
            tone_extras_keep(t, p, v.options, tone, number, false, programs);
        },
    }
}

proof fn rules_keep(
    s: ScoreView,
    p: Place,
    rules: Seq<RuleEventsView>,
    n: int,
    m: SmfMapConfigView,
)
    requires
        balanced(s.events),
    ensures
        stage::with_rules(s, p, rules, n, m) matches Ok(t) ==> balanced(t.events),
    decreases n,
{
    if 0 < n <= rules.len() {
        rules_keep(s, p, rules, n - 1, m);
        if let Ok(t) = stage::with_rules(s, p, rules, n - 1, m) {
            let events = rules[n - 1].events;
            let depth = m.macro_max_depth as nat;
            requests_keep(t, p, events, events.len() as int, true, m.macros, depth);
        }
    }
}

proof fn register_keeps(
    s: ScoreView,
    v: StageView,
    tick: u64,
    register: u8,
    data: u8,
    context: RegisterContext,
    line: Option<usize>,
    at: Moment,
)
    requires
        balanced(s.events),
    ensures
        stage::register_written(s, v, tick, register, data, context, line, at) matches Ok(t) ==> balanced(
            t.events,
        ),
{
    let m = v.options.smfmap;
    let p = v.place(tick);
    let used = s.with_diagnostics(
        s.diagnostics.with_register_write(
            v.id,
            v.family.name(),
            register,
            data,
            context.name(),
        ),
    );
    let text = events::event(
        p.midi_track,
        p.tick,
        PRI_META,
        KindView::Text(stage::write_command(register, data)),
    );
    silent_event_keeps(s.events, text);
    let rules = smfmap::rule_events(
        m.register_rules,
        m.register_rules.len() as int,
        v.family,
        v.id,
        context,
        stage::write_vars(v, tick, register, data, at),
    );
    rules_keep(used, p, rules, rules.len() as int, m);
}

proof fn manual_keeps(
    s: ScoreView,
    p: Place,
    track: Option<Seq<char>>,
    request: SmfRequestView,
    line: Option<usize>,
    m: SmfMapConfigView,
)
    requires
        balanced(s.events),
    ensures
        stage::manual_played(s, p, track, request, line, m) matches Ok(t) ==> balanced(t.events),
{
    let used = s.with_diagnostics(
        s.diagnostics.with_manual_smf(line, track, stage::manual_text(request)),
    );
    request_keeps(used, p, request, true, m.macros, m.macro_max_depth as nat);
}

// ---------------------------------------------------------------------------
// Notes
// ---------------------------------------------------------------------------
proof fn note_pair_keeps(s: ScoreView, p: Place, end: u64, note: u8, velocity: u8)
    requires
        balanced(s.events),
    ensures
        balanced(notes::with_note(s, p, end, note, velocity).events),
{
    note_is_balanced(p.midi_track, p.tick, end, p.channel, note, velocity);
    joined_keeps(
        s.events,
        opll_pseudo_drum::drum_events(p.midi_track, p.tick, end, p.channel, note, velocity),
    );
}

proof fn pieces_keep(
    s: ScoreView,
    v: StageView,
    end: u64,
    note: u8,
    velocity: u8,
    values: Seq<(u64, u8)>,
    k: int,
)
    requires
        balanced(s.events),
    ensures
        balanced(notes::with_pieces(s, v, end, note, velocity, values, k).events),
    decreases values.len() - k,
{
    if 0 <= k < values.len() {
        let loudness = notes::scaled(velocity, values[k].1 as int);
        let until = if k + 1 < values.len() {
            values[k + 1].0
        } else {
            end
        };
        note_pair_keeps(s, v.place(values[k].0), until, note, loudness);
        let t = if loudness == 0 {
            s
        } else {
            notes::with_note(s, v.place(values[k].0), until, note, loudness)
        };
        pieces_keep(t, v, end, note, velocity, values, k + 1);
    }
}

proof fn point_keeps(
    s: ScoreView,
    v: StageView,
    start: u64,
    point: EnvelopePoint,
    controller: Option<u8>,
    at: Moment,
)
    requires
        balanced(s.events),
    ensures
        notes::with_point(s, v, start, point, controller, at) matches Ok(t) ==> balanced(t.events),
{
    match point {
        EnvelopePoint::Value { tick, value } => {
            if let Some(c) = controller {
                let p = v.place(tick);
                let priority = notes::value_priority(v, start, tick);
                silent_event_keeps(
                    s.events,
                    events::event(
                        p.midi_track,
                        p.tick,
                        priority,
                        KindView::ControlChange { channel: p.channel, controller: c, value },
                    ),
                );
            }
        },
        EnvelopePoint::Tone { tick, tone } => {
            tone_change_keeps(s, v, tick, tone);
        },
        EnvelopePoint::Register { tick, register, data } => {
            let context = RegisterContext::EnvelopeData;
            let moment = Moment { step: stage::step_at(tick, v.options.ppq), ..at };
            register_keeps(s, v, tick, register, data, context, None, moment);
        },
    }
}

proof fn points_keep(
    s: ScoreView,
    v: StageView,
    start: u64,
    points: Seq<EnvelopePoint>,
    n: int,
    controller: Option<u8>,
    at: Moment,
)
    requires
        balanced(s.events),
    ensures
        notes::with_points(s, v, start, points, n, controller, at) matches Ok(t) ==> balanced(t.events),
    decreases n,
{
    if 0 < n <= points.len() {
        points_keep(s, v, start, points, n - 1, controller, at);
        if let Ok(t) = notes::with_points(s, v, start, points, n - 1, controller, at) {
            point_keeps(t, v, start, points[n - 1], controller, at);
        }
    }
}

proof fn sound_keeps(
    s: ScoreView,
    v: StageView,
    start: u64,
    end: u64,
    note: u8,
    velocity: u8,
    mode: EnvelopeMode,
    values: Seq<(u64, u8)>,
)
    requires
        balanced(s.events),
    ensures
        balanced(notes::with_sound(s, v, start, end, note, velocity, mode, values).events),
{
    pieces_keep(s, v, end, note, velocity, values, 0);
    note_pair_keeps(s, v.place(start), end, note, notes::scaled(velocity, values[0].1 as int));
    note_pair_keeps(s, v.place(start), end, note, velocity);
}

proof fn envelope_keeps(
    s: ScoreView,
    v: StageView,
    start: u64,
    end: u64,
    note: u8,
    velocity: u8,
    reference: EnvelopeRef,
    points: Seq<EnvelopePoint>,
    reported: bool,
    tone: Option<u8>,
)
    requires
        balanced(s.events),
    ensures
        notes::enveloped(s, v, start, end, note, velocity, reference, points, reported, tone) matches Ok(r)
            ==> balanced(r.0.events),
{
    reveal(notes::enveloped);
    let m = v.options.smfmap;
    let asked = m.envelope_mode_of(v.family, v.options.envelope_mode);
    let mode = m.details.settled_mode(v.family, asked);
    let least = m.details.shortest_piece(v.family, asked);
    let all = notes::values_of(points, points.len() as int);
    let values = if least == 0 {
        all
    } else {
        notes::thinned(all, all.len() as int, least)
    };
    let at = Moment { step: None, tone, envelope: Some(smfmap::envelope_id(reference)) };
    let hidden = v.shared && notes::is_controller(mode) && values.len() > 0;
    let controller = if notes::is_controller(mode) && !v.shared {
        Some(v.options.smfmap.envelope_controller(v.family, mode))
    } else {
        None
    };
    let a = if hidden && !reported {
        s.reported(
            None,
            v.id,
            "envelope CC on shared MIDI channel"@,
            "envelope CC suppressed on a shared MIDI channel"@,
        )
    } else {
        s
    };
    points_keep(a, v, start, points, points.len() as int, controller, at);
    if let Ok(b) = notes::with_points(a, v, start, points, points.len() as int, controller, at) {
        sound_keeps(b, v, start, end, note, velocity, mode, values);
    }
}

proof fn sounded_keeps(
    s: ScoreView,
    v: StageView,
    start: u64,
    end: u64,
    note: u8,
    velocity: u8,
    envelope: Option<EnvelopeRef>,
    reported: bool,
    tone: Option<u8>,
)
    requires
        balanced(s.events),
    ensures
        notes::sounded(s, v, start, end, note, velocity, envelope, reported, tone) matches Ok(r)
            ==> balanced(r.0.events),
{
    note_pair_keeps(s, v.place(start), end, note, velocity);
    if let Some(reference) = envelope {
        if let Some(shape) = envelope::shape_of(v.envelopes, reference) {
            let loudness = v.options.smfmap.details.loudness(v.family, reference);
            let points = envelope::envelope_points(shape, loudness, start, end, v.tempo, v.options.ppq);
            let louder = loudness.change.velocity(velocity);
            envelope_keeps(s, v, start, end, note, louder, reference, points, reported, tone);
        }
    }
}

// ---------------------------------------------------------------------------
// Glides
// ---------------------------------------------------------------------------
proof fn curve_is_silent(
    c: Curve,
    index: int,
    end: int,
    last_cents: Option<int>,
    last_point: Option<(u64, u16)>,
)
    ensures
        all_silent(pitch_glide::curve_points(c, index, end, last_cents, last_point)),
    decreases end - index + 1,
{
    if index <= end {
        let cents = c.cents(index);
        let point = (c.tick(index), pitch_glide::bend_value(cents, c.range));
        curve_is_silent(c, index + 1, end, last_cents, last_point);
        curve_is_silent(c, index + 1, end, Some(cents), Some(point));
    }
}

proof fn segment_is_silent(
    g: BendTargetView,
    start: u64,
    end: u64,
    from: int,
    to: int,
    source: Seq<char>,
    d: DiagnosticsView,
)
    ensures
        all_silent(pitch_glide::bent_segment(g, start, end, from, to, source, d).events),
{
    let curve = pitch_glide::segment_curve(g, start, end, from, to);
    let first = if g.config.curve.include_start_point {
        0
    } else {
        1int
    };
    let last = if g.config.curve.include_end_point {
        curve.steps
    } else {
        curve.steps - 1
    };
    curve_is_silent(curve, first, last, None, None);
}

proof fn segments_are_silent(
    g: BendTargetView,
    group: Seq<SegmentView>,
    n: int,
    d: DiagnosticsView,
)
    ensures
        all_silent(pitch_glide::bent_segments(g, group, n, d).events),
    decreases n,
{
    if 0 < n <= group.len() {
        segments_are_silent(g, group, n - 1, d);
        let before = pitch_glide::bent_segments(g, group, n - 1, d);
        let s = group[n - 1];
        let (to, source) = pitch_glide::segment_target(s);
        segment_is_silent(
            g,
            s.start_tick,
            s.end_tick,
            (s.note - group[0].note) * 100,
            (to - group[0].note) * 100,
            source,
            before.diagnostics,
        );
    }
}

proof fn glide_is_silent(
    v: StageView,
    n: PlayedNote,
    group: Option<Seq<SegmentView>>,
    d: DiagnosticsView,
)
    ensures
        all_silent(tracks::bent(v, n, group, d).events),
{
    if let Some(range) = v.glide {
        let g = tracks::bend_target(v, range);
        match group {
            Some(segments) => {
                segments_are_silent(g, segments, segments.len() as int, d);
            },
            None => {
                if let Some(glide) = n.meta.pitch_glide {
                    let to = (glide.target_midi_note - n.note) * 100;
                    segment_is_silent(g, n.start, n.end, 0, to, glide.source, d);
                }
            },
        }
    }
}

// ---------------------------------------------------------------------------
// Tracks
// ---------------------------------------------------------------------------
proof fn melody_keeps(
    s: ScoreView,
    v: StageView,
    events: Seq<IrEventView>,
    n: PlayedNote,
    st: TrackState,
)
    requires
        balanced(s.events),
    ensures
        tracks::melodic(s, v, events, n, st) matches Ok(r) ==> balanced(r.0.events),
{
    reveal(tracks::melodic);
    let group = tracks::group_at(v, events, n.index);
    let end = match group {
        Some(g) => g.last().end_tick,
        None => n.end,
    };
    sounded_keeps(s, v, n.start, end, n.note, n.velocity, n.envelope, st.reported, n.tone);
    if let Ok((b, reported)) = notes::sounded(
        s,
        v,
        n.start,
        end,
        n.note,
        n.velocity,
        n.envelope,
        st.reported,
        n.tone,
    ) {
        let c = tracks::bent(v, n, group, b.diagnostics);
        glide_is_silent(v, n, group, b.diagnostics);
        silence_is_balanced(c.events);
        joined_keeps(b.events, c.events);
    }
}

proof fn drums_are_balanced(
    midi_track: usize,
    start: u64,
    end: u64,
    context: DrumContextView,
    velocity: u8,
    meta: NoteMetaView,
    active: bool,
    map: OpllPseudoDrumMapView,
    rhythm_channel: u8,
    d: DiagnosticsView,
)
    ensures
        balanced(
            opll_pseudo_drum::drum_rendered(
                midi_track,
                start,
                end,
                context,
                velocity,
                meta,
                active,
                map,
                rhythm_channel,
                d,
            ).events,
        ),
{
    silence_is_balanced(Seq::empty());
    if let Some(rule) = smfmap::drum_rule_from(map.rules, 0, context) {
        note_is_balanced(
            midi_track,
            start,
            end,
            opll_pseudo_drum::drum_channel(map.output, rhythm_channel),
            rule.drum.note,
            opll_pseudo_drum::drum_loudness(rule.drum.velocity, velocity),
        );
    }
}

proof fn played_keeps(
    s: ScoreView,
    v: StageView,
    events: Seq<IrEventView>,
    n: PlayedNote,
    st: TrackState,
)
    requires
        balanced(s.events),
    ensures
        tracks::played(s, v, events, n, st) matches Ok(r) ==> balanced(r.0.events),
{
    match v.drums {
        Some(map) => {
            let m = v.options.smfmap;
            let context = opll_pseudo_drum::drum_context(
                v.id,
                n.tone,
                n.envelope,
                n.note,
                n.meta,
                m.opll_respect_at_hash_rom_assign,
                v.assignments,
            );
            let d = opll_pseudo_drum::drum_rendered(
                v.midi_track,
                n.start,
                n.end,
                context,
                n.velocity,
                n.meta,
                st.active,
                map,
                m.rhythm_channel,
                s.diagnostics,
            );
            drums_are_balanced(
                v.midi_track,
                n.start,
                n.end,
                context,
                n.velocity,
                n.meta,
                st.active,
                map,
                m.rhythm_channel,
                s.diagnostics,
            );
            joined_keeps(s.events, d.events);
            let t = ScoreView { events: s.events + d.events, diagnostics: d.diagnostics };
            melody_keeps(t, v, events, n, TrackState { active: d.active, ..st });
        },
        None => {
            melody_keeps(s, v, events, n, st);
            if let Some(entry) = v.options.smfmap.noise_drum(n.envelope) {
                let channel = text::min_int(v.options.smfmap.psg_noise_drum_channel as int, 15) as u8;
                note_pair_keeps(
                    s,
                    Place { midi_track: v.midi_track, tick: n.start, channel },
                    n.end,
                    entry.note,
                    tracks::noise_loudness(v, entry, n),
                );
            }
        },
    }
}

proof fn other_event_keeps(s: ScoreView, v: StageView, e: IrEventView, st: TrackState)
    requires
        balanced(s.events),
    ensures
        tracks::other_event(s, v, e, st) matches Ok(t) ==> balanced(t.events),
{
    let ppq = v.options.ppq;
    match e {
        IrEventView::Control { at, kind: ControlKind::Text(id) } => {
            let p = v.place(events::tick_at(at, ppq));
            let text = events::event(p.midi_track, p.tick, PRI_META, KindView::Text(v.texts[id]));
            silent_event_keeps(s.events, text);
        },
        IrEventView::LoopMarker { at, kind } => {
            let t = tracks::loop_marked(s, v.options, events::tick_at(at, ppq), kind);
            silent_event_keeps(s.events, t.events.last());
            assert(t.events =~= s.events.push(t.events.last()));
        },
        IrEventView::ToneChange { at, tone, .. } => {
            tone_change_keeps(s, v, events::tick_at(at, ppq), tone);
        },
        IrEventView::RegisterWrite { at, register, data, context, span, .. } => {
            let moment = tracks::written_at(st, at);
            register_keeps(s, v, events::tick_at(at, ppq), register, data, context, span.line, moment);
        },
        IrEventView::ManualSmf { track, channel, at, request, span } => {
            let p = Place {
                midi_track: v.midi_track,
                tick: events::tick_at(at, ppq),
                channel: match channel {
                    Some(c) => c,
                    None => v.channel,
                },
            };
            manual_keeps(s, p, track, request, span.line, v.options.smfmap);
        },
        _ => {},
    }
}

proof fn event_keeps(
    s: ScoreView,
    v: StageView,
    events: Seq<IrEventView>,
    i: int,
    st: TrackState,
)
    requires
        balanced(s.events),
    ensures
        tracks::event_played(s, v, events, i, st) matches Ok(r) ==> balanced(r.0.events),
{
    match events[i] {
        IrEventView::Note { start, duration, note, velocity, tone, envelope, meta } => {
            let n = PlayedNote {
                index: i,
                start: events::tick_at(start, v.options.ppq),
                end: events::end_tick_of(start, duration, v.options.ppq),
                note,
                velocity,
                tone,
                envelope: tracks::note_envelope(v, st, envelope),
                meta,
            };
            played_keeps(s, v, events, n, st);
        },
        _ => {
            other_event_keeps(s, v, events[i], st);
        },
    }
}

proof fn events_keep(
    s: ScoreView,
    v: StageView,
    events: Seq<IrEventView>,
    i: int,
    st: TrackState,
)
    requires
        balanced(s.events),
    ensures
        tracks::events_played(s, v, events, i, st) matches Ok(t) ==> balanced(t.events),
    decreases events.len() - i,
{
    if 0 <= i < events.len() {
        if i < st.next {
            events_keep(s, v, events, i + 1, st);
        } else {
            event_keeps(s, v, events, i, st);
            if let Ok((t, next)) = tracks::event_played(s, v, events, i, st) {
                events_keep(t, v, events, i + 1, next);
            }
        }
    }
}

// ---------------------------------------------------------------------------
// The song
// ---------------------------------------------------------------------------
proof fn heading_keeps(s: ScoreView, title: Option<Seq<char>>)
    requires
        balanced(s.events),
    ensures
        balanced(song::with_heading(s, title).events),
{
    let t = song::with_heading(s, title);
    let added = t.events.skip(s.events.len() as int);
    assert(t.events =~= s.events + added);
    assert(all_silent(added));
    silence_is_balanced(added);
    joined_keeps(s.events, added);
}

proof fn tempos_keep(s: ScoreView, tempo: Seq<(u64, u32)>, n: int)
    requires
        balanced(s.events),
    ensures
        balanced(song::with_tempos(s, tempo, n).events),
    decreases n,
{
    if 0 < n <= tempo.len() {
        tempos_keep(s, tempo, n - 1);
        let t = song::with_tempos(s, tempo, n - 1);
        let p = song::conductor_place(tempo[n - 1].0);
        silent_event_keeps(
            t.events,
            events::event(p.midi_track, p.tick, PRI_SETUP, KindView::Tempo { bpm: tempo[n - 1].1 }),
        );
    }
}

proof fn definitions_keep(s: ScoreView, definitions: Seq<IgnoredToneDefinitionView>, n: int)
    requires
        balanced(s.events),
    ensures
        balanced(song::with_definitions(s, definitions, n).events),
    decreases n,
{
    if 0 < n <= definitions.len() {
        definitions_keep(s, definitions, n - 1);
        let t = song::with_definitions(s, definitions, n - 1);
        let p = song::conductor_place(0);
        silent_event_keeps(
            t.events,
            events::event(p.midi_track, p.tick, PRI_META, KindView::Text(definitions[n - 1].text)),
        );
    }
}

proof fn conducted_keep(s: ScoreView, o: OptionsView, events: Seq<IrEventView>, n: int)
    requires
        balanced(s.events),
    ensures
        song::all_conducted(s, o, events, n) matches Ok(t) ==> balanced(t.events),
    decreases n,
{
    if 0 < n <= events.len() {
        conducted_keep(s, o, events, n - 1);
        if let Ok(t) = song::all_conducted(s, o, events, n - 1) {
            if let IrEventView::ManualSmf { track, channel, at, request, span } = events[n - 1] {
                let p = Place {
                    midi_track: 0,
                    tick: events::tick_at(at, o.ppq),
                    channel: match channel {
                        Some(c) => c,
                        None => 0,
                    },
                };
                manual_keeps(t, p, track, request, span.line, o.smfmap);
            }
        }
    }
}

proof fn conductor_keeps(
    s: ScoreView,
    o: OptionsView,
    title: Option<Seq<char>>,
    tempo: Seq<(u64, u32)>,
    events: Seq<IrEventView>,
)
    requires
        balanced(s.events),
    ensures
        song::with_conductor(s, o, title, tempo, events) matches Ok(t) ==> balanced(t.events),
{
    heading_keeps(s, title);
    let h = song::with_heading(s, title);
    tempos_keep(h, tempo, tempo.len() as int);
    let a = song::with_tempos(h, tempo, tempo.len() as int);
    let definitions = a.diagnostics.ignored_tone_definitions;
    definitions_keep(a, definitions, definitions.len() as int);
    let b = if o.tone_policy == TonePolicy::TextMeta {
        song::with_definitions(a, definitions, definitions.len() as int)
    } else {
        a
    };
    conducted_keep(b, o, events, events.len() as int);
}

proof fn beginning_keeps(s: ScoreView, v: StageView, port: u8)
    requires
        balanced(s.events),
    ensures
        song::track_begun(s, v, port) matches Ok(t) ==> balanced(t.events),
{
    let p = v.place(0);
    let m = v.options.smfmap;
    let a = s.with(p, PRI_SETUP, KindView::TrackName("Track "@ + v.id));
    silent_event_keeps(s.events, a.events.last());
    assert(a.events =~= s.events.push(a.events.last()));
    let b = if port > 0 {
        a.with(p, PRI_SETUP, KindView::MidiPort { port })
    } else {
        a
    };
    if port > 0 {
        silent_event_keeps(a.events, b.events.last());
        assert(b.events =~= a.events.push(b.events.last()));
    }
    let c = match v.glide {
        Some(range) => if m.pitch_glide.emit_rpn_pitch_bend_range {
            b.plus_events(
                pitch_glide::range_setup(
                    v.midi_track,
                    v.channel,
                    range.0,
                    range.1,
                    m.pitch_glide.emit_rpn_null_after_setting,
                ),
            )
        } else {
            b
        },
        None => b,
    };
    if let Some(range) = v.glide {
        let setup = pitch_glide::range_setup(
            v.midi_track,
            v.channel,
            range.0,
            range.1,
            m.pitch_glide.emit_rpn_null_after_setting,
        );
        assert(all_silent(setup));
        silence_is_balanced(setup);
        joined_keeps(b.events, setup);
    }
    if m.tracks.contains_key(v.id) {
        let requests = m.tracks[v.id].events;
        let depth = m.macro_max_depth as nat;
        requests_keep(c, p, requests, requests.len() as int, true, m.macros, depth);
    }
}

proof fn ending_keeps(s: ScoreView, v: StageView, t: TrackIrView, port: u8)
    requires
        balanced(s.events),
    ensures
        balanced(song::track_ended(s, v, t, port).events),
{
    let last = seq![events::centre(v.midi_track, events::tick_at(t.length, v.options.ppq), v.channel)];
    assert(all_silent(last));
    silence_is_balanced(last);
    joined_keeps(s.events, last);
}

proof fn track_keeps(
    s: ScoreView,
    song: SongIrView,
    o: OptionsView,
    allocations: Seq<Allocation>,
    tempo: Seq<(u64, u32)>,
    i: int,
)
    requires
        balanced(s.events),
    ensures
        song::track_rendered(s, song, o, allocations, tempo, i) matches Ok(t) ==> balanced(t.events),
{
    let t = song.tracks[i];
    let a = allocations[i];
    let shared = channels::is_shared(allocations, i);
    if let Ok((b, glide)) = song::glide_choice(s, o, t, shared) {
        let v = song::stage_of(song, o, t, (i + 1) as usize, a, shared, tempo, glide);
        beginning_keeps(b, v, a.port);
        if let Ok(c) = song::track_begun(b, v, a.port) {
            events_keep(c, v, t.events, 0, tracks::first_state());
            if let Ok(d) = tracks::events_played(c, v, t.events, 0, tracks::first_state()) {
                ending_keeps(d, v, t, a.port);
            }
        }
    }
}

proof fn tracks_keep(
    s: ScoreView,
    song: SongIrView,
    o: OptionsView,
    allocations: Seq<Allocation>,
    tempo: Seq<(u64, u32)>,
    n: int,
)
    requires
        balanced(s.events),
    ensures
        song::tracks_rendered(s, song, o, allocations, tempo, n) matches Ok(t) ==> balanced(t.events),
    decreases n,
{
    if 0 < n <= song.tracks.len() {
        tracks_keep(s, song, o, allocations, tempo, n - 1);
        if let Ok(t) = song::tracks_rendered(s, song, o, allocations, tempo, n - 1) {
            track_keeps(t, song, o, allocations, tempo, n - 1);
        }
    }
}

proof fn channels_play_nothing(s: ScoreView, o: OptionsView, tracks: Seq<TrackIrView>, n: int)
    ensures
        channels::given_channels(s, o, tracks, n) matches Ok(g) ==> g.score.events == s.events,
    decreases n,
{
    if 0 < n <= tracks.len() {
        channels_play_nothing(s, o, tracks, n - 1);
    }
}

proof fn tempo_map_plays_nothing(s: ScoreView, events: Seq<TempoEventView>, n: int, ppq: u16)
    ensures
        tempo::tempo_map(s, events, n, ppq).1.events == s.events,
    decreases n,
{
    if 0 < n <= events.len() {
        tempo_map_plays_nothing(s, events, n - 1, ppq);
    }
}

proof fn warnings_play_nothing(s: ScoreView, settings: Seq<Seq<char>>, n: int)
    ensures
        render::with_unheeded(s, settings, n).events == s.events,
    decreases n,
{
    if 0 < n <= settings.len() {
        warnings_play_nothing(s, settings, n - 1);
    }
}

proof fn score_is_balanced(song: SongIrView, o: OptionsView)
    ensures
        render::scored(song, o) matches Ok(s) ==> balanced(s.events),
{
    let start = render::empty_score(song, o);
    let settings = o.smfmap.details.passed_over;
    warnings_play_nothing(
        ScoreView { events: Seq::empty(), diagnostics: song.diagnostics },
        settings,
        settings.len() as int,
    );
    silence_is_balanced(start.events);
    let n = song.tracks.len() as int;
    channels_play_nothing(start, o, song.tracks, n);
    if let Ok(g) = channels::given_channels(start, o, song.tracks, n) {
        let k = song.tempo_events.len() as int;
        tempo_map_plays_nothing(g.score, song.tempo_events, k, o.ppq);
        let (tempo, s) = tempo::tempo_map(g.score, song.tempo_events, k, o.ppq);
        conductor_keeps(s, o, song.title, tempo, song.conductor_events);
        if let Ok(t) = song::with_conductor(s, o, song.title, tempo, song.conductor_events) {
            tracks_keep(t, song, o, g.allocations, tempo, n);
        }
    }
}

// ---------------------------------------------------------------------------
// Play order
// ---------------------------------------------------------------------------
proof fn sounding_without(events: Seq<RenderedEventView>, k: int, v: Voice)
    requires
        0 <= k < events.len(),
    ensures
        sounding(events, v) == sounding(events.remove(k), v) + change(events[k], v),
    decreases events.len(),
{
    if k == events.len() - 1 {
        assert(events.remove(k) =~= events.drop_last());
    } else {
        sounding_without(events.drop_last(), k, v);
        assert(events.remove(k).drop_last() =~= events.drop_last().remove(k));
        assert(events.remove(k).last() == events.last());
    }
}

proof fn order_does_not_matter(
    a: Seq<RenderedEventView>,
    b: Seq<RenderedEventView>,
    v: Voice,
)
    requires
        a.to_multiset() == b.to_multiset(),
    ensures
        sounding(a, v) == sounding(b, v),
    decreases a.len(),
{
    broadcast use vstd::seq_lib::group_to_multiset_ensures;

    assert(a.len() == a.to_multiset().len());
    assert(b.len() == b.to_multiset().len());
    if a.len() > 0 {
        let x = a.last();
        assert(a[a.len() - 1] == x);
        assert(a.contains(x));
        assert(a.to_multiset().count(x) > 0);
        assert(b.contains(x));
        let k = choose|k: int| 0 <= k < b.len() && b[k] == x;
        let n = a.len() - 1;
        assert(a.remove(n) =~= a.drop_last());
        assert(a.remove(n).to_multiset() =~= a.to_multiset().remove(x));
        assert(b.remove(k).to_multiset() =~= b.to_multiset().remove(x));
        order_does_not_matter(a.drop_last(), b.remove(k), v);
        sounding_without(b, k, v);
    }
}

proof fn ranks_do_not_matter(events: Seq<RenderedEventView>, order: Seq<u8>, v: Voice)
    ensures
        sounding(order::ranked(events, order), v) == sounding(events, v),
    decreases events.len(),
{
    if events.len() > 0 {
        ranks_do_not_matter(events.drop_last(), order, v);
        assert(order::ranked(events, order).drop_last() =~= order::ranked(events.drop_last(), order));
    }
}

/// Every note that begins also ends: in a rendered song, on every key of every
/// channel of every track, as many notes end as begin.
pub proof fn notes_that_begin_end(song: SongIrView, o: OptionsView)
    requires
        render::scored(song, o) matches Ok(s) ==> s.events.len() <= usize::MAX,
    ensures
        render::rendered(song, o) matches Ok(r) ==> balanced(r.events),
{
    score_is_balanced(song, o);
    if let Ok(s) = render::scored(song, o) {
        let order = o.smfmap.details.event_order;
        let placed = order::ranked(s.events, order);
        order::play_order_keeps_events(placed);
        let played = order::play_order(placed);
        assert forall|v: Voice| #[trigger] sounding(played, v) == 0 by {
            order_does_not_matter(played, placed, v);
            ranks_do_not_matter(s.events, order, v);
            assert(sounding(s.events, v) == 0);
        }
    }
}

} // verus!
