//! What was reported stays, whether a rendering succeeds or fails.

use vstd::prelude::*;

use crate::diagnostics::{
    DiagnosticsView, IgnoredToneDefinitionView, ParseWarningView, UnsupportedCommandView,
};
use crate::ir::{
    EnvelopeRef, IrEventView, OptionsView, RegisterContext, SmfRequestView, SongIrView,
    TempoEventView, TonePolicy, TrackIrView,
};
use crate::render;
use crate::render::channels;
use crate::render::channels::Allocation;
use crate::render::envelope;
use crate::render::envelope::EnvelopePoint;
use crate::render::events;
use crate::render::events::{KindView, PRI_SETUP};
use crate::render::notes;
use crate::render::opll_pseudo_drum;
use crate::render::pitch_glide;
use crate::render::pitch_glide::{BendTargetView, SegmentView};
use crate::render::requests;
use crate::render::score::{Failure, Place, ScoreView};
use crate::render::song;
use crate::render::stage;
use crate::render::stage::{Moment, StageView};
use crate::render::tempo;
use crate::render::tracks;
use crate::render::tracks::{PlayedNote, TrackState};
use crate::smfmap;
use crate::smfmap::{RuleEventsView, SmfMapConfigView};

verus! {

/// Whether lists of warnings and of unsupported commands begin with those of
/// earlier diagnostics.
#[verifier::opaque]
pub open spec fn reports_begin(
    d: DiagnosticsView,
    warnings: Seq<ParseWarningView>,
    unsupported: Seq<UnsupportedCommandView>,
) -> bool {
    &&& d.parse_warnings.len() <= warnings.len()
    &&& forall|i: int|
        0 <= i < d.parse_warnings.len() ==> #[trigger] warnings[i] == d.parse_warnings[i]
    &&& d.unsupported_commands.len() <= unsupported.len()
    &&& forall|i: int|
        0 <= i < d.unsupported_commands.len() ==> #[trigger] unsupported[i]
            == d.unsupported_commands[i]
}

/// Whether diagnostics hold what earlier ones reported.
pub open spec fn holds_reports(d: DiagnosticsView, later: DiagnosticsView) -> bool {
    reports_begin(d, later.parse_warnings, later.unsupported_commands)
}

/// Whether a rendering holds what was reported before, also where it failed.
pub open spec fn recorded_by(d: DiagnosticsView, r: Result<ScoreView, Failure>) -> bool {
    match r {
        Ok(s) => holds_reports(d, s.diagnostics),
        Err(f) => holds_reports(d, f.diagnostics),
    }
}

proof fn more_reports_keep(
    d: DiagnosticsView,
    warnings: Seq<ParseWarningView>,
    unsupported: Seq<UnsupportedCommandView>,
)
    requires
        reports_begin(d, warnings, unsupported),
    ensures
        forall|x: ParseWarningView| reports_begin(d, #[trigger] warnings.push(x), unsupported),
        forall|x: UnsupportedCommandView|
            reports_begin(d, warnings, #[trigger] unsupported.push(x)),
{
    reveal(reports_begin);
}

proof fn reporting_keeps(d: DiagnosticsView, s: ScoreView)
    requires
        holds_reports(d, s.diagnostics),
    ensures
        forall|track: Option<Seq<char>>, message: Seq<char>|
            holds_reports(d, (#[trigger] s.warned(track, message)).diagnostics),
        forall|line: Option<usize>, track: Seq<char>, command: Seq<char>, policy: Seq<char>|
            holds_reports(d, (#[trigger] s.reported(line, track, command, policy)).diagnostics),
{
    more_reports_keep(d, s.diagnostics.parse_warnings, s.diagnostics.unsupported_commands);
}

// ---------------------------------------------------------------------------
// Requests, tones and registers
// ---------------------------------------------------------------------------
proof fn request_is_recorded(
    d: DiagnosticsView,
    s: ScoreView,
    p: Place,
    r: SmfRequestView,
    programs: bool,
    macros: Map<Seq<char>, Seq<SmfRequestView>>,
    depth: nat,
)
    requires
        holds_reports(d, s.diagnostics),
    ensures
        recorded_by(d, requests::with_request(s, p, r, programs, macros, depth)),
    decreases depth, 0int,
{
    reporting_keeps(d, s);
    if let Some(name) = requests::called_macro(r) {
        if macros.contains_key(name) && depth > 0 {
            let n = macros[name].len() as int;
            requests_are_recorded(d, s, p, macros[name], n, programs, macros, (depth - 1) as nat);
        }
    }
}

proof fn requests_are_recorded(
    d: DiagnosticsView,
    s: ScoreView,
    p: Place,
    requests: Seq<SmfRequestView>,
    n: int,
    programs: bool,
    macros: Map<Seq<char>, Seq<SmfRequestView>>,
    depth: nat,
)
    requires
        holds_reports(d, s.diagnostics),
    ensures
        recorded_by(d, requests::with_requests(s, p, requests, n, programs, macros, depth)),
    decreases depth, n,
{
    if 0 < n <= requests.len() {
        requests_are_recorded(d, s, p, requests, n - 1, programs, macros, depth);
        if let Ok(t) = requests::with_requests(s, p, requests, n - 1, programs, macros, depth) {
            request_is_recorded(d, t, p, requests[n - 1], programs, macros, depth);
        }
    }
}

proof fn tone_is_recorded(d: DiagnosticsView, s: ScoreView, v: StageView, tick: u64, tone: u8)
    requires
        holds_reports(d, s.diagnostics),
    ensures
        recorded_by(d, stage::tone_changed(s, v, tick, tone)),
{
    let m = v.options.smfmap;
    let number = stage::mapped_number(v, tone);
    let programs = stage::drums_leave_programs(v.drums);
    let used = s.with_diagnostics(
        s.diagnostics.with_tone_usage(v.id, v.family.name(), tone),
    );
    if let Some(requests) = m.tone(v.family, number) {
        let n = requests.len() as int;
        let depth = m.macro_max_depth as nat;
        requests_are_recorded(d, used, v.place(tick), requests, n, programs, m.macros, depth);
    }
}

proof fn rules_are_recorded(
    d: DiagnosticsView,
    s: ScoreView,
    p: Place,
    rules: Seq<RuleEventsView>,
    n: int,
    m: SmfMapConfigView,
)
    requires
        holds_reports(d, s.diagnostics),
    ensures
        recorded_by(d, stage::with_rules(s, p, rules, n, m)),
    decreases n,
{
    if 0 < n <= rules.len() {
        rules_are_recorded(d, s, p, rules, n - 1, m);
        if let Ok(t) = stage::with_rules(s, p, rules, n - 1, m) {
            let events = rules[n - 1].events;
            let depth = m.macro_max_depth as nat;
            requests_are_recorded(d, t, p, events, events.len() as int, true, m.macros, depth);
        }
    }
}

proof fn register_is_recorded(
    d: DiagnosticsView,
    s: ScoreView,
    v: StageView,
    tick: u64,
    register: u8,
    data: u8,
    context: RegisterContext,
    line: Option<usize>,
    at: Moment,
)
    requires
        holds_reports(d, s.diagnostics),
    ensures
        recorded_by(d, stage::register_written(s, v, tick, register, data, context, line, at)),
{
    let m = v.options.smfmap;
    let used = s.with_diagnostics(
        s.diagnostics.with_register_write(
            v.id,
            v.family.name(),
            register,
            data,
            context.name(),
        ),
    );
    reporting_keeps(d, used);
    let rules = smfmap::rule_events(
        m.register_rules,
        m.register_rules.len() as int,
        v.family,
        v.id,
        context,
        stage::write_vars(v, tick, register, data, at),
    );
    rules_are_recorded(d, used, v.place(tick), rules, rules.len() as int, m);
}

proof fn manual_is_recorded(
    d: DiagnosticsView,
    s: ScoreView,
    p: Place,
    track: Option<Seq<char>>,
    request: SmfRequestView,
    line: Option<usize>,
    m: SmfMapConfigView,
)
    requires
        holds_reports(d, s.diagnostics),
    ensures
        recorded_by(d, stage::manual_played(s, p, track, request, line, m)),
{
    let used = s.with_diagnostics(
        s.diagnostics.with_manual_smf(line, track, stage::manual_text(request)),
    );
    request_is_recorded(d, used, p, request, true, m.macros, m.macro_max_depth as nat);
}

// ---------------------------------------------------------------------------
// Notes
// ---------------------------------------------------------------------------
proof fn pieces_report_nothing(
    s: ScoreView,
    v: StageView,
    end: u64,
    note: u8,
    velocity: u8,
    values: Seq<(u64, u8)>,
    k: int,
)
    ensures
        notes::with_pieces(s, v, end, note, velocity, values, k).diagnostics == s.diagnostics,
    decreases values.len() - k,
{
    if 0 <= k < values.len() {
        let loudness = notes::scaled(velocity, values[k].1 as int);
        let until = if k + 1 < values.len() {
            values[k + 1].0
        } else {
            end
        };
        let t = if loudness == 0 {
            s
        } else {
            notes::with_note(s, v.place(values[k].0), until, note, loudness)
        };
        pieces_report_nothing(t, v, end, note, velocity, values, k + 1);
    }
}

proof fn points_are_recorded(
    d: DiagnosticsView,
    s: ScoreView,
    v: StageView,
    start: u64,
    points: Seq<EnvelopePoint>,
    n: int,
    controller: Option<u8>,
    at: Moment,
)
    requires
        holds_reports(d, s.diagnostics),
    ensures
        recorded_by(d, notes::with_points(s, v, start, points, n, controller, at)),
    decreases n,
{
    if 0 < n <= points.len() {
        points_are_recorded(d, s, v, start, points, n - 1, controller, at);
        if let Ok(t) = notes::with_points(s, v, start, points, n - 1, controller, at) {
            match points[n - 1] {
                EnvelopePoint::Value { .. } => {},
                EnvelopePoint::Tone { tick, tone } => {
                    tone_is_recorded(d, t, v, tick, tone);
                },
                EnvelopePoint::Register { tick, register, data } => {
                    let context = RegisterContext::EnvelopeData;
                    let moment = Moment { step: stage::step_at(tick, v.options.ppq), ..at };
                    register_is_recorded(d, t, v, tick, register, data, context, None, moment);
                },
            }
        }
    }
}

/// Whether a note holds what was reported before, also where it failed.
spec fn flag_recorded(d: DiagnosticsView, r: Result<(ScoreView, bool), Failure>) -> bool {
    match r {
        Ok(x) => holds_reports(d, x.0.diagnostics),
        Err(f) => holds_reports(d, f.diagnostics),
    }
}

proof fn envelope_is_recorded(
    d: DiagnosticsView,
    s: ScoreView,
    v: StageView,
    start: u64,
    end: u64,
    note: u8,
    velocity: u8,
    reference: EnvelopeRef,
    points: Seq<EnvelopePoint>,
    told: bool,
    tone: Option<u8>,
)
    requires
        holds_reports(d, s.diagnostics),
    ensures
        flag_recorded(
            d,
            notes::enveloped(s, v, start, end, note, velocity, reference, points, told, tone),
        ),
{
    reveal(notes::enveloped);
    reporting_keeps(d, s);
    let m = v.options.smfmap;
    let asked = m.envelope_mode_of(v.family, v.options.envelope_mode);
    let mode = m.details.settled_mode(v.family, asked);
    let least = m.details.shortest_piece(v.family, asked);
    let all = notes::values_of(points, points.len() as int);
    let values = if least == 0 {
        all
    } else {
        notes::thinned(all, all.len() as int, least)
    };
    let at = Moment { step: None, tone, envelope: Some(smfmap::envelope_id(reference)) };
    let hidden = v.shared && notes::is_controller(mode) && values.len() > 0;
    let controller = if notes::is_controller(mode) && !v.shared {
        Some(m.envelope_controller(v.family, mode))
    } else {
        None
    };
    let a = if hidden && !told {
        s.reported(
            None,
            v.id,
            "envelope CC on shared MIDI channel"@,
            "envelope CC suppressed on a shared MIDI channel"@,
        )
    } else {
        s
    };
    points_are_recorded(d, a, v, start, points, points.len() as int, controller, at);
    if let Ok(b) = notes::with_points(a, v, start, points, points.len() as int, controller, at) {
        pieces_report_nothing(b, v, end, note, velocity, values, 0);
    }
}

proof fn sound_is_recorded(
    d: DiagnosticsView,
    s: ScoreView,
    v: StageView,
    start: u64,
    end: u64,
    note: u8,
    velocity: u8,
    envelope: Option<EnvelopeRef>,
    told: bool,
    tone: Option<u8>,
)
    requires
        holds_reports(d, s.diagnostics),
    ensures
        flag_recorded(d, notes::sounded(s, v, start, end, note, velocity, envelope, told, tone)),
{
    if let Some(reference) = envelope {
        if let Some(shape) = envelope::shape_of(v.envelopes, reference) {
            let loudness = v.options.smfmap.details.loudness(v.family, reference);
            let points = envelope::envelope_points(shape, loudness, start, end, v.tempo, v.options.ppq);
            let louder = loudness.change.velocity(velocity);
            envelope_is_recorded(
                d,
                s,
                v,
                start,
                end,
                note,
                louder,
                reference,
                points,
                told,
                tone,
            );
        }
    }
}

proof fn segments_are_recorded(
    d: DiagnosticsView,
    g: BendTargetView,
    group: Seq<SegmentView>,
    n: int,
    before: DiagnosticsView,
)
    requires
        holds_reports(d, before),
    ensures
        holds_reports(d, pitch_glide::bent_segments(g, group, n, before).diagnostics),
    decreases n,
{
    if 0 < n <= group.len() {
        segments_are_recorded(d, g, group, n - 1, before);
        let b = pitch_glide::bent_segments(g, group, n - 1, before).diagnostics;
        more_reports_keep(d, b.parse_warnings, b.unsupported_commands);
    }
}

proof fn glide_is_recorded(
    d: DiagnosticsView,
    v: StageView,
    n: PlayedNote,
    group: Option<Seq<SegmentView>>,
    before: DiagnosticsView,
)
    requires
        holds_reports(d, before),
    ensures
        holds_reports(d, tracks::bent(v, n, group, before).diagnostics),
{
    more_reports_keep(d, before.parse_warnings, before.unsupported_commands);
    if let Some(range) = v.glide {
        if let Some(segments) = group {
            let g = tracks::bend_target(v, range);
            segments_are_recorded(d, g, segments, segments.len() as int, before);
        }
    }
}

// ---------------------------------------------------------------------------
// Tracks
// ---------------------------------------------------------------------------
/// Whether an event of a track holds what was reported before, also where it
/// failed.
spec fn step_recorded(d: DiagnosticsView, r: Result<(ScoreView, TrackState), Failure>) -> bool {
    match r {
        Ok(x) => holds_reports(d, x.0.diagnostics),
        Err(f) => holds_reports(d, f.diagnostics),
    }
}

proof fn melody_is_recorded(
    d: DiagnosticsView,
    s: ScoreView,
    v: StageView,
    events: Seq<IrEventView>,
    n: PlayedNote,
    st: TrackState,
)
    requires
        holds_reports(d, s.diagnostics),
    ensures
        step_recorded(d, tracks::melodic(s, v, events, n, st)),
{
    reveal(tracks::melodic);
    let group = tracks::group_at(v, events, n.index);
    let end = match group {
        Some(g) => g.last().end_tick,
        None => n.end,
    };
    let (start, note, velocity) = (n.start, n.note, n.velocity);
    sound_is_recorded(d, s, v, start, end, note, velocity, n.envelope, st.reported, n.tone);
    if let Ok((b, told)) = notes::sounded(
        s,
        v,
        start,
        end,
        note,
        velocity,
        n.envelope,
        st.reported,
        n.tone,
    ) {
        glide_is_recorded(d, v, n, group, b.diagnostics);
    }
}

proof fn note_is_recorded(
    d: DiagnosticsView,
    s: ScoreView,
    v: StageView,
    events: Seq<IrEventView>,
    n: PlayedNote,
    st: TrackState,
)
    requires
        holds_reports(d, s.diagnostics),
    ensures
        step_recorded(d, tracks::played(s, v, events, n, st)),
{
    match v.drums {
        Some(map) => {
            more_reports_keep(d, s.diagnostics.parse_warnings, s.diagnostics.unsupported_commands);
            let m = v.options.smfmap;
            let drum = opll_pseudo_drum::drum_rendered(
                v.midi_track,
                n.start,
                n.end,
                opll_pseudo_drum::drum_context(
                    v.id,
                    n.tone,
                    n.envelope,
                    n.note,
                    n.meta,
                    m.opll_respect_at_hash_rom_assign,
                    v.assignments,
                ),
                n.velocity,
                n.meta,
                st.active,
                map,
                m.rhythm_channel,
                s.diagnostics,
            );
            assert(holds_reports(d, drum.diagnostics));
            let t = ScoreView { events: s.events + drum.events, diagnostics: drum.diagnostics };
            melody_is_recorded(d, t, v, events, n, TrackState { active: drum.active, ..st });
        },
        None => {
            melody_is_recorded(d, s, v, events, n, st);
        },
    }
}

proof fn other_event_is_recorded(
    d: DiagnosticsView,
    s: ScoreView,
    v: StageView,
    e: IrEventView,
    st: TrackState,
)
    requires
        holds_reports(d, s.diagnostics),
    ensures
        recorded_by(d, tracks::other_event(s, v, e, st)),
{
    let ppq = v.options.ppq;
    reporting_keeps(d, s);
    match e {
        IrEventView::PsgEnvelopeSelect { number, kind, .. } => {
            let used = s.with_diagnostics(
                s.diagnostics.with_psg_envelope(v.id, number, tracks::kind_spelling(kind).name()),
            );
            reporting_keeps(d, used);
        },
        IrEventView::ToneChange { at, tone, .. } => {
            tone_is_recorded(d, s, v, events::tick_at(at, ppq), tone);
        },
        IrEventView::RegisterWrite { at, register, data, context, span, .. } => {
            let moment = tracks::written_at(st, at);
            let tick = events::tick_at(at, ppq);
            register_is_recorded(d, s, v, tick, register, data, context, span.line, moment);
        },
        IrEventView::ManualSmf { track, channel, at, request, span } => {
            let p = Place {
                midi_track: v.midi_track,
                tick: events::tick_at(at, ppq),
                channel: match channel {
                    Some(c) => c,
                    None => v.channel,
                },
            };
            manual_is_recorded(d, s, p, track, request, span.line, v.options.smfmap);
        },
        _ => {},
    }
}

proof fn events_are_recorded(
    d: DiagnosticsView,
    s: ScoreView,
    v: StageView,
    events: Seq<IrEventView>,
    i: int,
    st: TrackState,
)
    requires
        holds_reports(d, s.diagnostics),
    ensures
        recorded_by(d, tracks::events_played(s, v, events, i, st)),
    decreases events.len() - i,
{
    if 0 <= i < events.len() {
        if i < st.next {
            events_are_recorded(d, s, v, events, i + 1, st);
        } else {
            match events[i] {
                IrEventView::Note { start, duration, note, velocity, tone, envelope, meta } => {
                    let n = PlayedNote {
                        index: i,
                        start: events::tick_at(start, v.options.ppq),
                        end: events::end_tick_of(start, duration, v.options.ppq),
                        note,
                        velocity,
                        tone,
                        envelope: tracks::note_envelope(v, st, envelope),
                        meta,
                    };
                    note_is_recorded(d, s, v, events, n, st);
                },
                _ => {
                    other_event_is_recorded(d, s, v, events[i], st);
                },
            }
            if let Ok((t, next)) = tracks::event_played(s, v, events, i, st) {
                events_are_recorded(d, t, v, events, i + 1, next);
            }
        }
    }
}

proof fn beginning_is_recorded(d: DiagnosticsView, s: ScoreView, v: StageView, port: u8)
    requires
        holds_reports(d, s.diagnostics),
    ensures
        recorded_by(d, song::track_begun(s, v, port)),
{
    let p = v.place(0);
    let m = v.options.smfmap;
    let a = s.with(p, PRI_SETUP, KindView::TrackName("Track "@ + v.id));
    let b = if port > 0 {
        a.with(p, PRI_SETUP, KindView::MidiPort { port })
    } else {
        a
    };
    let c = match v.glide {
        Some(range) => if m.pitch_glide.emit_rpn_pitch_bend_range {
            b.plus_events(
                pitch_glide::range_setup(
                    v.midi_track,
                    v.channel,
                    range.0,
                    range.1,
                    m.pitch_glide.emit_rpn_null_after_setting,
                ),
            )
        } else {
            b
        },
        None => b,
    };
    if m.tracks.contains_key(v.id) {
        let requests = m.tracks[v.id].events;
        let depth = m.macro_max_depth as nat;
        requests_are_recorded(d, c, p, requests, requests.len() as int, true, m.macros, depth);
    }
}

proof fn tracks_are_recorded(
    d: DiagnosticsView,
    s: ScoreView,
    song: SongIrView,
    o: OptionsView,
    allocations: Seq<Allocation>,
    tempo: Seq<(u64, u32)>,
    n: int,
)
    requires
        holds_reports(d, s.diagnostics),
    ensures
        recorded_by(d, song::tracks_rendered(s, song, o, allocations, tempo, n)),
    decreases n,
{
    if 0 < n <= song.tracks.len() {
        tracks_are_recorded(d, s, song, o, allocations, tempo, n - 1);
        if let Ok(before) = song::tracks_rendered(s, song, o, allocations, tempo, n - 1) {
            reporting_keeps(d, before);
            let i = n - 1;
            let t = song.tracks[i];
            let a = allocations[i];
            let shared = channels::is_shared(allocations, i);
            if let Ok((b, glide)) = song::glide_choice(before, o, t, shared) {
                let v = song::stage_of(song, o, t, (i + 1) as usize, a, shared, tempo, glide);
                beginning_is_recorded(d, b, v, a.port);
                if let Ok(c) = song::track_begun(b, v, a.port) {
                    events_are_recorded(d, c, v, t.events, 0, tracks::first_state());
                }
            }
        }
    }
}

// ---------------------------------------------------------------------------
// The song
// ---------------------------------------------------------------------------
proof fn tempos_report_nothing(s: ScoreView, tempo: Seq<(u64, u32)>, n: int)
    ensures
        song::with_tempos(s, tempo, n).diagnostics == s.diagnostics,
    decreases n,
{
    if 0 < n <= tempo.len() {
        tempos_report_nothing(s, tempo, n - 1);
    }
}

proof fn definitions_report_nothing(
    s: ScoreView,
    definitions: Seq<IgnoredToneDefinitionView>,
    n: int,
)
    ensures
        song::with_definitions(s, definitions, n).diagnostics == s.diagnostics,
    decreases n,
{
    if 0 < n <= definitions.len() {
        definitions_report_nothing(s, definitions, n - 1);
    }
}

proof fn conducted_is_recorded(
    d: DiagnosticsView,
    s: ScoreView,
    o: OptionsView,
    events: Seq<IrEventView>,
    n: int,
)
    requires
        holds_reports(d, s.diagnostics),
    ensures
        recorded_by(d, song::all_conducted(s, o, events, n)),
    decreases n,
{
    if 0 < n <= events.len() {
        conducted_is_recorded(d, s, o, events, n - 1);
        if let Ok(t) = song::all_conducted(s, o, events, n - 1) {
            if let IrEventView::ManualSmf { track, channel, at, request, span } = events[n - 1] {
                let p = Place {
                    midi_track: 0,
                    tick: events::tick_at(at, o.ppq),
                    channel: match channel {
                        Some(c) => c,
                        None => 0,
                    },
                };
                manual_is_recorded(d, t, p, track, request, span.line, o.smfmap);
            }
        }
    }
}

proof fn conductor_is_recorded(
    d: DiagnosticsView,
    s: ScoreView,
    o: OptionsView,
    title: Option<Seq<char>>,
    tempo: Seq<(u64, u32)>,
    events: Seq<IrEventView>,
)
    requires
        holds_reports(d, s.diagnostics),
    ensures
        recorded_by(d, song::with_conductor(s, o, title, tempo, events)),
{
    let h = song::with_heading(s, title);
    tempos_report_nothing(h, tempo, tempo.len() as int);
    let a = song::with_tempos(h, tempo, tempo.len() as int);
    let definitions = a.diagnostics.ignored_tone_definitions;
    definitions_report_nothing(a, definitions, definitions.len() as int);
    let b = if o.tone_policy == TonePolicy::TextMeta {
        song::with_definitions(a, definitions, definitions.len() as int)
    } else {
        a
    };
    conducted_is_recorded(d, b, o, events, events.len() as int);
}

proof fn channels_are_recorded(
    d: DiagnosticsView,
    s: ScoreView,
    o: OptionsView,
    tracks: Seq<TrackIrView>,
    n: int,
)
    requires
        holds_reports(d, s.diagnostics),
    ensures
        match channels::given_channels(s, o, tracks, n) {
            Ok(g) => holds_reports(d, g.score.diagnostics),
            Err(f) => holds_reports(d, f.diagnostics),
        },
    decreases n,
{
    if 0 < n <= tracks.len() {
        channels_are_recorded(d, s, o, tracks, n - 1);
        if let Ok(g) = channels::given_channels(s, o, tracks, n - 1) {
            reporting_keeps(d, g.score);
        }
    }
}

proof fn tempo_map_is_recorded(
    d: DiagnosticsView,
    s: ScoreView,
    events: Seq<TempoEventView>,
    n: int,
    ppq: u16,
)
    requires
        holds_reports(d, s.diagnostics),
    ensures
        holds_reports(d, tempo::tempo_map(s, events, n, ppq).1.diagnostics),
    decreases n,
{
    if 0 < n <= events.len() {
        tempo_map_is_recorded(d, s, events, n - 1, ppq);
        reporting_keeps(d, tempo::tempo_map(s, events, n - 1, ppq).1);
    }
}

proof fn unheeded_is_recorded(
    d: DiagnosticsView,
    s: ScoreView,
    settings: Seq<Seq<char>>,
    n: int,
)
    requires
        holds_reports(d, s.diagnostics),
    ensures
        holds_reports(d, render::with_unheeded(s, settings, n).diagnostics),
    decreases n,
{
    if 0 < n <= settings.len() {
        unheeded_is_recorded(d, s, settings, n - 1);
        reporting_keeps(d, render::with_unheeded(s, settings, n - 1));
    }
}

/// A rendering only adds to what was reported: the warnings and the unsupported
/// commands of a song stay at the head of their lists, whether its rendering
/// succeeds or fails.
pub proof fn reports_stay(song: SongIrView, o: OptionsView)
    ensures
        recorded_by(song.diagnostics, render::rendered(song, o)),
        match render::rendered_file(song, o) {
            Ok((_, diagnostics)) => holds_reports(song.diagnostics, diagnostics),
            Err(f) => holds_reports(song.diagnostics, f.diagnostics),
        },
{
    let d = song.diagnostics;
    assert(holds_reports(d, d)) by {
        reveal(reports_begin);
    }
    let settings = o.smfmap.details.passed_over;
    let empty = ScoreView { events: Seq::empty(), diagnostics: d };
    unheeded_is_recorded(d, empty, settings, settings.len() as int);
    let start = render::empty_score(song, o);
    let n = song.tracks.len() as int;
    channels_are_recorded(d, start, o, song.tracks, n);
    if let Ok(g) = channels::given_channels(start, o, song.tracks, n) {
        let k = song.tempo_events.len() as int;
        tempo_map_is_recorded(d, g.score, song.tempo_events, k, o.ppq);
        let (tempo, s) = tempo::tempo_map(g.score, song.tempo_events, k, o.ppq);
        conductor_is_recorded(d, s, o, song.title, tempo, song.conductor_events);
        if let Ok(t) = song::with_conductor(s, o, song.title, tempo, song.conductor_events) {
            tracks_are_recorded(d, t, song, o, g.allocations, tempo, n);
        }
    }
}

} // verus!
