//! A whole song.

use vstd::prelude::*;

use crate::diagnostics::{
    DiagnosticsView, IgnoredToneDefinitionView, TrackSummary, TrackSummaryView,
};
use crate::ir;
use crate::ir::{
    ConversionOptions, IrEvent, IrEventView, OptionsView, SongIr, SongIrView, TonePolicy, TrackIr,
    TrackIrView,
};
use crate::render::channels;
use crate::render::channels::{Allocation, find_shared};
use crate::render::events;
use crate::render::events::{
    KindView, PRI_SETUP, RenderedEvent, RenderedEventKind, RenderedEventView, find_tick,
};
use crate::render::pitch_glide;
use crate::render::pitch_glide::{
    effective_pitch_glide_range, emit_pitch_bend_range_setup, push_centre,
};
use crate::render::requests;
use crate::render::score;
use crate::render::score::{Failure, Place, Score, ScoreView};
use crate::render::stage;
use crate::render::stage::{Stage, StageView};
use crate::render::tracks;
use crate::smfmap::PitchGlideSharedChannelPolicy;
use crate::text::{copy_text, join2};
use crate::views;
use crate::views::push_viewed;

verus! {

// ---------------------------------------------------------------------------
// The conductor's track
// ---------------------------------------------------------------------------
pub open spec fn conductor_place(tick: u64) -> Place {
    Place { midi_track: 0, tick, channel: 0 }
}

fn conductor_at(tick: u64) -> (r: Place)
    ensures
        r == conductor_place(tick),
{
    Place { midi_track: 0, tick, channel: 0 }
}

/// The title, the time and key signature, and where the song comes from.
pub open spec fn with_heading(s: ScoreView, title: Option<Seq<char>>) -> ScoreView {
    let p = conductor_place(0);
    let a = match title {
        Some(t) => s.with(p, PRI_SETUP, KindView::TrackName(t)),
        None => s,
    };
    let b = a.with(
        p,
        PRI_SETUP,
        KindView::TimeSignature {
            numerator: 4,
            denominator_power: 2,
            clocks_per_metronome: 24,
            thirty_seconds_per_quarter: 8,
        },
    ).with(p, PRI_SETUP, KindView::KeySignature { sharps_flats: 0, minor: false }).with_text(
        p,
        "Generated by mgs2smf"@,
    );
    match b.diagnostics.input_file {
        Some(f) => b.with_text(p, "Source MUS: "@ + f),
        None => b,
    }
}

/// The first `n` tempo points.
pub open spec fn with_tempos(s: ScoreView, tempo: Seq<(u64, u32)>, n: int) -> ScoreView
    decreases n,
{
    if n <= 0 || n > tempo.len() {
        s
    } else {
        with_tempos(s, tempo, n - 1).with(
            conductor_place(tempo[n - 1].0),
            PRI_SETUP,
            KindView::Tempo { bpm: tempo[n - 1].1 },
        )
    }
}

/// The first `n` ignored tone definitions as texts.
pub open spec fn with_definitions(
    s: ScoreView,
    definitions: Seq<IgnoredToneDefinitionView>,
    n: int,
) -> ScoreView
    decreases n,
{
    if n <= 0 || n > definitions.len() {
        s
    } else {
        with_definitions(s, definitions, n - 1).with_text(
            conductor_place(0),
            definitions[n - 1].text,
        )
    }
}

/// An event of the conductor.
pub open spec fn conducted(s: ScoreView, o: OptionsView, e: IrEventView) -> Result<
    ScoreView,
    Failure,
> {
    match e {
        IrEventView::ManualSmf { track, channel, at, request, span } => stage::manual_played(
            s,
            Place {
                midi_track: 0,
                tick: events::tick_at(at, o.ppq),
                channel: match channel {
                    Some(c) => c,
                    None => 0,
                },
            },
            track,
            request,
            span.line,
            o.smfmap,
        ),
        _ => Ok(s),
    }
}

/// The first `n` events of the conductor.
pub open spec fn all_conducted(s: ScoreView, o: OptionsView, events: Seq<IrEventView>, n: int) ->
    Result<ScoreView, Failure>
    decreases n,
{
    if n <= 0 || n > events.len() {
        Ok(s)
    } else {
        match all_conducted(s, o, events, n - 1) {
            Ok(t) => conducted(t, o, events[n - 1]),
            Err(e) => Err(e),
        }
    }
}

proof fn conducted_failed_stays(
    s: ScoreView,
    o: OptionsView,
    events: Seq<IrEventView>,
    n: int,
    m: int,
)
    requires
        0 <= n <= m <= events.len(),
        all_conducted(s, o, events, n) is Err,
    ensures
        all_conducted(s, o, events, m) == all_conducted(s, o, events, n),
    decreases m,
{
    if n < m {
        conducted_failed_stays(s, o, events, n, m - 1);
    }
}

/// The conductor's track.
pub open spec fn with_conductor(
    s: ScoreView,
    o: OptionsView,
    title: Option<Seq<char>>,
    tempo: Seq<(u64, u32)>,
    events: Seq<IrEventView>,
) -> Result<ScoreView, Failure> {
    let a = with_tempos(with_heading(s, title), tempo, tempo.len() as int);
    let definitions = a.diagnostics.ignored_tone_definitions;
    let b = if o.tone_policy == TonePolicy::TextMeta {
        with_definitions(a, definitions, definitions.len() as int)
    } else {
        a
    };
    all_conducted(b, o, events, events.len() as int)
}

impl Score {
    fn heading(&mut self, title: &Option<String>)
        ensures
            final(self).deep_view() == with_heading(old(self).deep_view(), title.deep_view()),
    {
        let p = conductor_at(0);
        if let Some(t) = title {
            self.push(p, PRI_SETUP, RenderedEventKind::TrackName(copy_text(t.as_str())));
        }
        self.push(
            p,
            PRI_SETUP,
            RenderedEventKind::TimeSignature {
                numerator: 4,
                denominator_power: 2,
                clocks_per_metronome: 24,
                thirty_seconds_per_quarter: 8,
            },
        );
        self.push(
            p,
            PRI_SETUP,
            RenderedEventKind::KeySignature { sharps_flats: 0, minor: false },
        );
        self.text(p, "Generated by mgs2smf");
        let source = match &self.diagnostics.input_file {
            Some(f) => Some(join2("Source MUS: ", f.as_str())),
            None => None,
        };
        if let Some(text) = source {
            self.text(p, text.as_str());
        }
    }

    fn tempos(&mut self, tempo: &[(u64, u32)])
        ensures
            final(self).deep_view() == with_tempos(
                old(self).deep_view(),
                tempo@,
                tempo@.len() as int,
            ),
    {
        let ghost start = self.deep_view();
        let mut i: usize = 0;
        while i < tempo.len()
            invariant
                i <= tempo@.len(),
                start == old(self).deep_view(),
                self.deep_view() == with_tempos(start, tempo@, i as int),
            decreases tempo@.len() - i,
        {
            self.push(
                conductor_at(tempo[i].0),
                PRI_SETUP,
                RenderedEventKind::Tempo { bpm: tempo[i].1 },
            );
            i += 1;
        }
    }

    fn definitions(&mut self)
        ensures
            ({
                let s = old(self).deep_view();
                let d = s.diagnostics.ignored_tone_definitions;
                final(self).deep_view() == with_definitions(s, d, d.len() as int)
            }),
    {
        let ghost s = self.deep_view();
        let ghost d = s.diagnostics.ignored_tone_definitions;
        let mut i: usize = 0;
        while i < self.diagnostics.ignored_tone_definitions.len()
            invariant
                s == old(self).deep_view(),
                d == s.diagnostics.ignored_tone_definitions,
                i <= d.len(),
                self.deep_view() == with_definitions(s, d, i as int),
                self.deep_view().diagnostics == s.diagnostics,
            decreases d.len() - i,
        {
            assert(d[i as int]
                == self.diagnostics.ignored_tone_definitions@[i as int].deep_view());
            let text = copy_text(self.diagnostics.ignored_tone_definitions[i].text.as_str());
            self.text(conductor_at(0), text.as_str());
            i += 1;
        }
    }

    fn conducted(&mut self, o: &ConversionOptions, e: &IrEvent) -> (r: Result<(), String>)
        ensures
            score::score_is(
                conducted(old(self).deep_view(), o.deep_view(), e.deep_view()),
                final(self).deep_view(),
                r,
            ),
    {
        match e {
            IrEvent::ManualSmf {
                source_track,
                target_channel,
                source_step,
                request,
                source_span,
            } => {
                let p = Place {
                    midi_track: 0,
                    tick: find_tick(*source_step, o.ppq),
                    channel: match target_channel {
                        Some(c) => *c,
                        None => 0,
                    },
                };
                self.manual(p, source_track, request, source_span.line, &o.smfmap)
            },
            _ => Ok(()),
        }
    }

    pub fn conductor(
        &mut self,
        o: &ConversionOptions,
        title: &Option<String>,
        tempo: &[(u64, u32)],
        events: &[IrEvent],
    ) -> (r: Result<(), String>)
        ensures
            score::score_is(
                with_conductor(
                    old(self).deep_view(),
                    o.deep_view(),
                    title.deep_view(),
                    tempo@,
                    views::all_views(events@),
                ),
                final(self).deep_view(),
                r,
            ),
    {
        self.heading(title);
        self.tempos(tempo);
        if o.tone_policy == TonePolicy::TextMeta {
            self.definitions();
        }
        let ghost all = views::all_views(events@);
        let ghost start = self.deep_view();
        let ghost expected = all_conducted(start, o.deep_view(), all, all.len() as int);
        let mut i: usize = 0;
        while i < events.len()
            invariant
                i <= events@.len(),
                all == views::all_views(events@),
                expected == all_conducted(start, o.deep_view(), all, all.len() as int),
                expected == with_conductor(
                    old(self).deep_view(),
                    o.deep_view(),
                    title.deep_view(),
                    tempo@,
                    all,
                ),
                all_conducted(start, o.deep_view(), all, i as int) == Ok::<ScoreView, Failure>(
                    self.deep_view(),
                ),
            decreases events@.len() - i,
        {
            assert(all[i as int] == events@[i as int].deep_view());
            match self.conducted(o, &events[i]) {
                Ok(_) => {},
                Err(e) => {
                    proof {
                        conducted_failed_stays(
                            start,
                            o.deep_view(),
                            all,
                            i + 1,
                            all.len() as int,
                        );
                    }
                    return Err(e);
                },
            }
            i += 1;
        }
        Ok(())
    }
}

// ---------------------------------------------------------------------------
// A source track
// ---------------------------------------------------------------------------
/// Whether a note of a track glides.
pub open spec fn has_glide(events: Seq<IrEventView>, n: int) -> bool
    decreases n,
{
    if n <= 0 || n > events.len() {
        false
    } else {
        has_glide(events, n - 1) || match events[n - 1] {
            IrEventView::Note { meta, .. } => meta.pitch_glide is Some,
            _ => false,
        }
    }
}

fn find_glide(events: &[IrEvent]) -> (r: bool)
    ensures
        r == has_glide(views::all_views(events@), events@.len() as int),
{
    let ghost all = views::all_views(events@);
    let mut found = false;
    let mut i: usize = 0;
    while i < events.len()
        invariant
            i <= events@.len(),
            all == views::all_views(events@),
            found == has_glide(all, i as int),
        decreases events@.len() - i,
    {
        assert(all[i as int] == events@[i as int].deep_view());
        if let IrEvent::Note { meta, .. } = &events[i] {
            if meta.pitch_glide.is_some() {
                found = true;
            }
        }
        i += 1;
    }
    found
}

/// Whether the glides of a track are rendered, and the bend range if they are. On
/// a shared channel they would bend the notes of another track.
pub open spec fn glide_choice(
    s: ScoreView,
    o: OptionsView,
    t: TrackIrView,
    shared: bool,
) -> Result<(ScoreView, Option<(u8, u8)>), Failure> {
    let c = o.smfmap.pitch_glide;
    let range = Some(pitch_glide::glide_range(t.events, c));
    if !c.enabled || !has_glide(t.events, t.events.len() as int) {
        Ok((s, None))
    } else if !shared {
        Ok((s, range))
    } else {
        match c.shared_channel_policy {
            PitchGlideSharedChannelPolicy::Error => Err(
                s.failed("pitch_glide rejected on shared MIDI channel: track "@ + t.source_id),
            ),
            PitchGlideSharedChannelPolicy::WarnAndSuppress => Ok(
                (
                    s.reported(
                        None,
                        t.source_id,
                        "pitch_glide on shared MIDI channel"@,
                        "pitch_glide: suppressed on a shared MIDI channel"@,
                    ),
                    None,
                ),
            ),
            PitchGlideSharedChannelPolicy::AllowUnsafe => Ok((s, range)),
        }
    }
}

pub open spec fn choice_is(
    expected: Result<(ScoreView, Option<(u8, u8)>), Failure>,
    score: ScoreView,
    r: Result<Option<(u8, u8)>, String>,
) -> bool {
    match expected {
        Ok((s, range)) => score == s && r == Ok::<Option<(u8, u8)>, String>(range),
        Err(f) => r matches Err(x) && x@ == f.message && score.diagnostics == f.diagnostics,
    }
}

/// The stage of a source track.
pub open spec fn stage_of(
    song: SongIrView,
    o: OptionsView,
    t: TrackIrView,
    midi_track: usize,
    a: Allocation,
    shared: bool,
    tempo: Seq<(u64, u32)>,
    glide: Option<(u8, u8)>,
) -> StageView {
    StageView {
        midi_track,
        channel: a.channel,
        shared,
        id: t.source_id,
        family: o.smfmap.family(t.source_id, 0, t.kind),
        options: o,
        envelopes: song.envelopes,
        assignments: song.opll_tone_assignments,
        texts: song.control_texts,
        tempo,
        drums: o.smfmap.drum_map(t.source_id, t.kind),
        glide,
    }
}

/// The name of a track, its port and the events that the configuration starts it
/// with.
pub open spec fn track_begun(s: ScoreView, v: StageView, port: u8) -> Result<
    ScoreView,
    Failure,
> {
    let p = v.place(0);
    let m = v.options.smfmap;
    let a = s.with(p, PRI_SETUP, KindView::TrackName("Track "@ + v.id));
    let b = if port > 0 {
        a.with(p, PRI_SETUP, KindView::MidiPort { port })
    } else {
        a
    };
    let c = match v.glide {
        Some(range) => if m.pitch_glide.emit_rpn_pitch_bend_range {
            b.plus_events(
                pitch_glide::range_setup(
                    v.midi_track,
                    v.channel,
                    range.0,
                    range.1,
                    m.pitch_glide.emit_rpn_null_after_setting,
                ),
            )
        } else {
            b
        },
        None => b,
    };
    if m.tracks.contains_key(v.id) {
        let requests = m.tracks[v.id].events;
        requests::with_requests(
            c,
            p,
            requests,
            requests.len() as int,
            true,
            m.macros,
            m.macro_max_depth as nat,
        )
    } else {
        Ok(c)
    }
}

/// The events of a track among the first `n`, counted by what they do.
pub open spec fn count_notes(events: Seq<RenderedEventView>, n: int, midi_track: usize) -> int
    decreases n,
{
    if n <= 0 || n > events.len() {
        0
    } else {
        count_notes(events, n - 1, midi_track) + if events[n - 1].track_index == midi_track
            && events[n - 1].kind is NoteOn {
            1int
        } else {
            0
        }
    }
}

pub open spec fn count_controls(events: Seq<RenderedEventView>, n: int, midi_track: usize) -> int
    decreases n,
{
    if n <= 0 || n > events.len() {
        0
    } else {
        count_controls(events, n - 1, midi_track) + if events[n - 1].track_index == midi_track
            && events[n - 1].kind is ControlChange {
            1int
        } else {
            0
        }
    }
}

/// The bend wheel is set back where a track ends, and the track is summed up.
pub open spec fn track_ended(s: ScoreView, v: StageView, t: TrackIrView, port: u8) -> ScoreView {
    let a = if v.glide is Some && v.options.smfmap.pitch_glide.reset.at_track_end {
        s.plus_events(
            seq![events::centre(v.midi_track, events::tick_at(t.length, v.options.ppq), v.channel)],
        )
    } else {
        s
    };
    let n = a.events.len() as int;
    a.with_diagnostics(
        DiagnosticsView {
            track_summaries: a.diagnostics.track_summaries.push(
                TrackSummaryView {
                    source_track: v.id,
                    midi_track: v.midi_track,
                    midi_channel: v.channel,
                    midi_port: port,
                    source_steps: ir::step_json(t.length),
                    note_count: count_notes(a.events, n, v.midi_track) as usize,
                    cc_count: count_controls(a.events, n, v.midi_track) as usize,
                },
            ),
            ..a.diagnostics
        },
    )
}

/// A source track from beginning to end.
pub open spec fn track_rendered(
    s: ScoreView,
    song: SongIrView,
    o: OptionsView,
    allocations: Seq<Allocation>,
    tempo: Seq<(u64, u32)>,
    i: int,
) -> Result<ScoreView, Failure> {
    let t = song.tracks[i];
    let a = allocations[i];
    let shared = channels::is_shared(allocations, i);
    match glide_choice(s, o, t, shared) {
        Err(e) => Err(e),
        Ok((b, glide)) => {
            let v = stage_of(song, o, t, (i + 1) as usize, a, shared, tempo, glide);
            match track_begun(b, v, a.port) {
                Err(e) => Err(e),
                Ok(c) => match tracks::events_played(c, v, t.events, 0, tracks::first_state()) {
                    Err(e) => Err(e),
                    Ok(d) => Ok(track_ended(d, v, t, a.port)),
                },
            }
        },
    }
}

/// The first `n` source tracks.
pub open spec fn tracks_rendered(
    s: ScoreView,
    song: SongIrView,
    o: OptionsView,
    allocations: Seq<Allocation>,
    tempo: Seq<(u64, u32)>,
    n: int,
) -> Result<ScoreView, Failure>
    decreases n,
{
    if n <= 0 || n > song.tracks.len() {
        Ok(s)
    } else {
        match tracks_rendered(s, song, o, allocations, tempo, n - 1) {
            Ok(t) => track_rendered(t, song, o, allocations, tempo, n - 1),
            Err(e) => Err(e),
        }
    }
}

proof fn tracks_failed_stay(
    s: ScoreView,
    song: SongIrView,
    o: OptionsView,
    allocations: Seq<Allocation>,
    tempo: Seq<(u64, u32)>,
    n: int,
    m: int,
)
    requires
        0 <= n <= m <= song.tracks.len(),
        tracks_rendered(s, song, o, allocations, tempo, n) is Err,
    ensures
        tracks_rendered(s, song, o, allocations, tempo, m) == tracks_rendered(
            s,
            song,
            o,
            allocations,
            tempo,
            n,
        ),
    decreases m,
{
    if n < m {
        tracks_failed_stay(s, song, o, allocations, tempo, n, m - 1);
    }
}

fn count_kinds(events: &[RenderedEvent], midi_track: usize) -> (r: (usize, usize))
    ensures
        r.0 == count_notes(views::all_views(events@), events@.len() as int, midi_track),
        r.1 == count_controls(views::all_views(events@), events@.len() as int, midi_track),
{
    let ghost all = views::all_views(events@);
    let mut notes: usize = 0;
    let mut controls: usize = 0;
    let mut i: usize = 0;
    while i < events.len()
        invariant
            i <= events@.len(),
            notes <= i,
            controls <= i,
            all == views::all_views(events@),
            notes == count_notes(all, i as int, midi_track),
            controls == count_controls(all, i as int, midi_track),
        decreases events@.len() - i,
    {
        assert(all[i as int] == events@[i as int].deep_view());
        if events[i].track_index == midi_track {
            match &events[i].kind {
                RenderedEventKind::NoteOn { .. } => {
                    notes += 1;
                },
                RenderedEventKind::ControlChange { .. } => {
                    controls += 1;
                },
                _ => {},
            }
        }
        i += 1;
    }
    (notes, controls)
}

impl Score {
    fn choose_glide(&mut self, o: &ConversionOptions, t: &TrackIr, shared: bool) -> (r: Result<
        Option<(u8, u8)>,
        String,
    >)
        ensures
            choice_is(
                glide_choice(old(self).deep_view(), o.deep_view(), t.deep_view(), shared),
                final(self).deep_view(),
                r,
            ),
    {
        let c = o.smfmap.pitch_glide;
        if !c.enabled || !find_glide(t.events.as_slice()) {
            return Ok(None);
        }
        if shared {
            match c.shared_channel_policy {
                PitchGlideSharedChannelPolicy::Error => {
                    return Err(
                        join2(
                            "pitch_glide rejected on shared MIDI channel: track ",
                            t.source_id.as_str(),
                        ),
                    );
                },
                PitchGlideSharedChannelPolicy::WarnAndSuppress => {
                    self.report(
                        None,
                        t.source_id.as_str(),
                        "pitch_glide on shared MIDI channel",
                        "pitch_glide: suppressed on a shared MIDI channel",
                    );
                    return Ok(None);
                },
                PitchGlideSharedChannelPolicy::AllowUnsafe => {},
            }
        }
        Ok(Some(effective_pitch_glide_range(t, o)))
    }

    fn begin_track(&mut self, v: &Stage, port: u8) -> (r: Result<(), String>)
        ensures
            score::score_is(
                track_begun(old(self).deep_view(), v.deep_view(), port),
                final(self).deep_view(),
                r,
            ),
    {
        let p = v.at(0);
        let m = &v.options.smfmap;
        self.push(p, PRI_SETUP, RenderedEventKind::TrackName(join2("Track ", v.id)));
        if port > 0 {
            self.push(p, PRI_SETUP, RenderedEventKind::MidiPort { port });
        }
        if let Some(range) = v.glide {
            if m.pitch_glide.emit_rpn_pitch_bend_range {
                emit_pitch_bend_range_setup(
                    &mut self.events,
                    v.midi_track,
                    v.channel,
                    range.0,
                    range.1,
                    m.pitch_glide.emit_rpn_null_after_setting,
                );
            }
        }
        match m.tracks.get(v.id) {
            Some(t) => self.requests(p, t.events.as_slice(), true, &m.macros, m.macro_max_depth),
            None => Ok(()),
        }
    }

    fn end_track(&mut self, v: &Stage, t: &TrackIr, port: u8)
        ensures
            final(self).deep_view() == track_ended(
                old(self).deep_view(),
                v.deep_view(),
                t.deep_view(),
                port,
            ),
    {
        if v.glide.is_some() && v.options.smfmap.pitch_glide.reset.at_track_end {
            let tick = find_tick(t.length_steps, v.options.ppq);
            let ghost before = self.deep_view().events;
            push_centre(&mut self.events, v.midi_track, tick, v.channel);
            assert(self.deep_view().events =~= before + seq![
                events::centre(v.midi_track, tick, v.channel),
            ]);
        }
        let (note_count, cc_count) = count_kinds(self.events.as_slice(), v.midi_track);
        push_viewed(
            &mut self.diagnostics.track_summaries,
            TrackSummary {
                source_track: copy_text(v.id),
                midi_track: v.midi_track,
                midi_channel: v.channel,
                midi_port: port,
                source_steps: t.length_steps.to_source_step_json(),
                note_count,
                cc_count,
            },
        );
    }

    fn render_track(
        &mut self,
        song: &SongIr,
        o: &ConversionOptions,
        allocations: &[Allocation],
        tempo: &[(u64, u32)],
        i: usize,
    ) -> (r: Result<(), String>)
        requires
            i < song.tracks@.len(),
            allocations@.len() == song.tracks@.len(),
            o.ppq > 0,
        ensures
            score::score_is(
                track_rendered(
                    old(self).deep_view(),
                    song.deep_view(),
                    o.deep_view(),
                    allocations@,
                    tempo@,
                    i as int,
                ),
                final(self).deep_view(),
                r,
            ),
    {
        let total: usize = song.tracks.len();
        assert(i < total);
        let t = &song.tracks[i];
        assert(song.deep_view().tracks[i as int] == t.deep_view());
        let a = allocations[i];
        let shared = find_shared(allocations, i);
        let glide = match self.choose_glide(o, t, shared) {
            Ok(glide) => glide,
            Err(e) => {
                return Err(e);
            },
        };
        let id = t.source_id.as_str();
        let v = Stage {
            midi_track: i + 1,
            channel: a.channel,
            shared,
            id,
            family: o.smfmap.family_for_track(id, 0, t.kind),
            options: o,
            envelopes: &song.envelopes,
            assignments: &song.opll_tone_assignments,
            texts: &song.control_texts,
            tempo,
            drums: o.smfmap.opll_pseudo_drum_map_for_track(id, t.kind),
            glide,
        };
        assert(v.deep_view() =~= stage_of(
            song.deep_view(),
            o.deep_view(),
            t.deep_view(),
            (i + 1) as usize,
            a,
            shared,
            tempo@,
            glide,
        ));
        match self.begin_track(&v, a.port) {
            Ok(_) => {},
            Err(e) => {
                return Err(e);
            },
        }
        match self.events_of_track(&v, t.events.as_slice()) {
            Ok(_) => {},
            Err(e) => {
                return Err(e);
            },
        }
        self.end_track(&v, t, a.port);
        Ok(())
    }

    pub fn render_tracks(
        &mut self,
        song: &SongIr,
        o: &ConversionOptions,
        allocations: &[Allocation],
        tempo: &[(u64, u32)],
    ) -> (r: Result<(), String>)
        requires
            allocations@.len() == song.tracks@.len(),
            o.ppq > 0,
        ensures
            score::score_is(
                tracks_rendered(
                    old(self).deep_view(),
                    song.deep_view(),
                    o.deep_view(),
                    allocations@,
                    tempo@,
                    song.tracks@.len() as int,
                ),
                final(self).deep_view(),
                r,
            ),
    {
        let ghost start = self.deep_view();
        let ghost view = song.deep_view();
        let mut i: usize = 0;
        while i < song.tracks.len()
            invariant
                i <= song.tracks@.len(),
                allocations@.len() == song.tracks@.len(),
                o.ppq > 0,
                view == song.deep_view(),
                start == old(self).deep_view(),
                tracks_rendered(
                    start,
                    view,
                    o.deep_view(),
                    allocations@,
                    tempo@,
                    i as int,
                ) == Ok::<ScoreView, Failure>(self.deep_view()),
            decreases song.tracks@.len() - i,
        {
            match self.render_track(song, o, allocations, tempo, i) {
                Ok(_) => {},
                Err(e) => {
                    proof {
                        tracks_failed_stay(
                            start,
                            view,
                            o.deep_view(),
                            allocations@,
                            tempo@,
                            i + 1,
                            view.tracks.len() as int,
                        );
                    }
                    return Err(e);
                },
            }
            i += 1;
        }
        Ok(())
    }
}

} // verus!
