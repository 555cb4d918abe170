//! Source tracks, event by event.

use vstd::prelude::*;

use crate::diagnostics::DiagnosticsView;
use crate::fraction::Frac;
use crate::ir::{
    AtSpelling, ControlKind, ConversionOptions, EnvelopeKind, EnvelopeRef, IrEvent, IrEventView,
    LoopMarkerKind, NoteMeta, NoteMetaView, OptionsView, Rational, SourceFamily,
};
use crate::parser::mml;
use crate::parser::mml::{EnvView, MachineView};
use crate::render::envelope;
use crate::render::envelope::find_envelope_points;
use crate::render::events;
use crate::render::events::{
    KindView, PRI_META, RenderedEventKind, RenderedEventView, find_end_tick, find_tick,
};
use crate::render::notes;
use crate::render::notes::{collect_values, find_peak, name_envelope, scale_velocity};
use crate::render::opll_pseudo_drum;
use crate::render::opll_pseudo_drum::{
    OpllPseudoDrumRenderResult, OpllPseudoDrumRenderState, render_opll_pseudo_drum_note,
};
use crate::render::pitch_glide;
use crate::render::pitch_glide::{
    BendTargetView, Bent, GlideTarget, PitchGlideGroupSegment, SegmentView,
    collect_pitch_glide_slur_group, render_pitch_glide_curve, render_pitch_glide_group_curve,
};
use crate::render::score;
use crate::render::score::{Failure, Place, Score, ScoreView};
use crate::render::stage;
use crate::render::stage::{Moment, Stage, StageView, find_formula_step};
use crate::smfmap;
use crate::smfmap::{
    DrumOutputMode, DrumUnmatchedPolicy, PsgNoiseDefaultAction, PsgNoiseDrumEntry,
    PsgNoiseDrumEntryView,
};
use crate::smfmap::details::UndefinedPolicy;
use crate::text;
use crate::text::{copy_text, join2, join4, number_text};
use crate::views;

verus! {

/// What a track carries from one event to the next.
#[derive(Clone, Copy, Debug, PartialEq, Eq, Structural)]
pub struct TrackState {
    /// Whether a drum hit of the current macro has sounded.
    pub active: bool,
    /// The first event that has not been rendered with an earlier one.
    pub next: usize,
    /// Whether a hidden envelope controller was reported.
    pub reported: bool,
    /// The tone that was last chosen.
    pub tone: Option<u8>,
    /// The envelope that was last chosen.
    pub envelope: Option<EnvelopeRef>,
}

pub open spec fn first_state() -> TrackState {
    TrackState { active: false, next: 0, reported: false, tone: None, envelope: None }
}

/// A note of a track, at its ticks.
#[verifier::ext_equal]
pub struct PlayedNote {
    pub index: int,
    pub start: u64,
    pub end: u64,
    pub note: u8,
    pub velocity: u8,
    pub tone: Option<u8>,
    pub envelope: Option<EnvelopeRef>,
    pub meta: NoteMetaView,
}

// ---------------------------------------------------------------------------
// Noise drums
// ---------------------------------------------------------------------------
/// Whether the notes of noise tracks are left out.
pub open spec fn noise_is_left_out(v: StageView) -> bool {
    v.family == SourceFamily::PsgNoise && v.options.smfmap.psg_noise_enabled
        && v.options.smfmap.psg_noise_default_action == PsgNoiseDefaultAction::Ignore
}

/// How loud the drum of a noise envelope is.
pub open spec fn noise_loudness(
    v: StageView,
    entry: PsgNoiseDrumEntryView,
    n: PlayedNote,
) -> u8 {
    match entry.velocity {
        Some(x) => x,
        None => match n.envelope {
            Some(reference) => {
                let loudness = v.options.smfmap.details.loudness(v.family, reference);
                let velocity = loudness.change.velocity(n.velocity);
                match envelope::shape_of(v.envelopes, reference) {
                    Some(shape) => if entry.velocity_from_envelope_peak {
                        let points = envelope::envelope_points(
                            shape,
                            loudness,
                            n.start,
                            n.end,
                            v.tempo,
                            v.options.ppq,
                        );
                        let values = notes::values_of(points, points.len() as int);
                        notes::scaled(velocity, notes::peak(values, values.len() as int))
                    } else {
                        velocity
                    },
                    None => velocity,
                }
            },
            None => n.velocity,
        },
    }
}

/// The drum of a noise note.
pub open spec fn noise_drummed(
    s: ScoreView,
    v: StageView,
    entry: PsgNoiseDrumEntryView,
    n: PlayedNote,
) -> ScoreView {
    let channel = text::min_int(v.options.smfmap.psg_noise_drum_channel as int, 15) as u8;
    notes::with_note(
        s,
        Place { midi_track: v.midi_track, tick: n.start, channel },
        n.end,
        entry.note,
        noise_loudness(v, entry, n),
    )
}

fn find_noise_loudness(
    v: &Stage,
    entry: &PsgNoiseDrumEntry,
    start: u64,
    end: u64,
    velocity: u8,
    envelope: Option<EnvelopeRef>,
    Ghost(n): Ghost<PlayedNote>,
) -> (r: u8)
    requires
        n.start == start,
        n.end == end,
        n.velocity == velocity,
        n.envelope == envelope,
    ensures
        r == noise_loudness(v.deep_view(), entry.deep_view(), n),
{
    if let Some(x) = entry.velocity {
        return x;
    }
    if let Some(reference) = envelope {
        let loudness = v.options.smfmap.details.find_loudness(v.family, reference);
        let biased = loudness.change.find_velocity(velocity);
        if let Some(points) = find_envelope_points(
            v.envelopes,
            reference,
            loudness,
            start,
            end,
            v.tempo,
            v.options.ppq,
        ) {
            if entry.velocity_from_envelope_peak {
                let values = collect_values(points.as_slice());
                return scale_velocity(biased, find_peak(values.as_slice()));
            }
        }
        return biased;
    }
    velocity
}

// ---------------------------------------------------------------------------
// Notes
// ---------------------------------------------------------------------------
/// Where the glides of a track are rendered.
pub open spec fn bend_target(v: StageView, range: (u8, u8)) -> BendTargetView {
    BendTargetView {
        midi_track: v.midi_track,
        channel: v.channel,
        semitones: range.0,
        cents: range.1,
        tempo: v.tempo,
        ppq: v.options.ppq,
        track: v.id,
        config: v.options.smfmap.pitch_glide,
    }
}

/// The slurred group that a note begins, where glides are rendered.
pub open spec fn group_at(v: StageView, events: Seq<IrEventView>, index: int) -> Option<
    Seq<SegmentView>,
> {
    if v.glide is Some {
        pitch_glide::glide_group(events, index, v.options.ppq)
    } else {
        None
    }
}

/// The glide of a note or of the group that it begins.
pub open spec fn bent(
    v: StageView,
    n: PlayedNote,
    group: Option<Seq<SegmentView>>,
    d: DiagnosticsView,
) -> Bent {
    match v.glide {
        None => Bent { events: Seq::empty(), diagnostics: d, error: None },
        Some(range) => match group {
            Some(g) => pitch_glide::bent_group(bend_target(v, range), g, d),
            None => match n.meta.pitch_glide {
                Some(glide) => pitch_glide::bent_note(
                    bend_target(v, range),
                    n.start,
                    n.end,
                    n.note,
                    glide,
                    d,
                ),
                None => Bent { events: Seq::empty(), diagnostics: d, error: None },
            },
        },
    }
}

/// A note that sounds as one.
#[verifier::opaque]
pub open spec fn melodic(
    s: ScoreView,
    v: StageView,
    events: Seq<IrEventView>,
    n: PlayedNote,
    st: TrackState,
) -> Result<(ScoreView, TrackState), Failure> {
    let group = group_at(v, events, n.index);
    let end = match group {
        Some(g) => g.last().end_tick,
        None => n.end,
    };
    match notes::sounded(s, v, n.start, end, n.note, n.velocity, n.envelope, st.reported, n.tone) {
        Err(e) => Err(e),
        Ok((b, reported)) => {
            let c = bent(v, n, group, b.diagnostics);
            match c.error {
                Some(message) => Err(Failure { message, diagnostics: c.diagnostics }),
                None => Ok(
                    (
                        ScoreView { events: b.events + c.events, diagnostics: c.diagnostics },
                        TrackState {
                            next: (n.index + match group {
                                Some(g) => g.len() as int,
                                None => 1,
                            }) as usize,
                            reported,
                            ..st
                        },
                    ),
                ),
            }
        },
    }
}

/// A note of a track.
pub open spec fn played(
    s: ScoreView,
    v: StageView,
    events: Seq<IrEventView>,
    n: PlayedNote,
    st: TrackState,
) -> Result<(ScoreView, TrackState), Failure> {
    let after = TrackState { next: (n.index + 1) as usize, ..st };
    match v.drums {
        Some(map) => {
            let m = v.options.smfmap;
            let d = opll_pseudo_drum::drum_rendered(
                v.midi_track,
                n.start,
                n.end,
                opll_pseudo_drum::drum_context(
                    v.id,
                    n.tone,
                    n.envelope,
                    n.note,
                    n.meta,
                    m.opll_respect_at_hash_rom_assign,
                    v.assignments,
                ),
                n.velocity,
                n.meta,
                st.active,
                map,
                m.rhythm_channel,
                s.diagnostics,
            );
            let t = ScoreView { events: s.events + d.events, diagnostics: d.diagnostics };
            match d.result {
                OpllPseudoDrumRenderResult::Replaced | OpllPseudoDrumRenderResult::Dropped => Ok(
                    (t, TrackState { active: d.active, ..after }),
                ),
                OpllPseudoDrumRenderResult::Added | OpllPseudoDrumRenderResult::Passthrough =>
                melodic(t, v, events, n, TrackState { active: d.active, ..st }),
            }
        },
        None => if noise_is_left_out(v) {
            Ok((s, after))
        } else {
            match v.options.smfmap.noise_drum(n.envelope) {
                Some(entry) => if v.family == SourceFamily::PsgNoise {
                    Ok((noise_drummed(s, v, entry, n), after))
                } else {
                    melodic(s, v, events, n, st)
                },
                None => melodic(s, v, events, n, st),
            }
        },
    }
}

/// Whether a changed score and track are the expected ones, or the refusal is.
pub open spec fn stepped_is(
    expected: Result<(ScoreView, TrackState), Failure>,
    score: ScoreView,
    r: Result<TrackState, String>,
) -> bool {
    match expected {
        Ok((s, st)) => score == s && r == Ok::<TrackState, String>(st),
        Err(f) => r matches Err(x) && x@ == f.message && score.diagnostics == f.diagnostics,
    }
}

/// A note of a track, at its ticks.
struct NoteAt<'a> {
    index: usize,
    start: u64,
    end: u64,
    note: u8,
    velocity: u8,
    tone: Option<u8>,
    envelope: Option<EnvelopeRef>,
    meta: &'a NoteMeta,
}

impl<'a> DeepView for NoteAt<'a> {
    type V = PlayedNote;

    closed spec fn deep_view(&self) -> PlayedNote {
        PlayedNote {
            index: self.index as int,
            start: self.start,
            end: self.end,
            note: self.note,
            velocity: self.velocity,
            tone: self.tone,
            envelope: self.envelope,
            meta: self.meta.deep_view(),
        }
    }
}

proof fn group_stays_inside(events: Seq<IrEventView>, start: int, index: int, ppq: u16)
    requires
        0 <= index <= events.len(),
    ensures
        pitch_glide::slurred_from(events, start, index, ppq).len() <= events.len() - index,
    decreases events.len() - index,
{
    if index < events.len() {
        group_stays_inside(events, start, index + 1, ppq);
    }
}

impl Score {
    fn bend(
        &mut self,
        v: &Stage,
        n: &NoteAt,
        group: &Option<Vec<PitchGlideGroupSegment>>,
    ) -> (r: Result<(), String>)
        requires
            v.options.ppq > 0,
            v.glide is None ==> group is None,
        ensures
            ({
                let c = bent(
                    v.deep_view(),
                    n.deep_view(),
                    pitch_glide::group_view(*group),
                    old(self).deep_view().diagnostics,
                );
                pitch_glide::bent_as(
                    c,
                    old(self).deep_view().events,
                    final(self).deep_view().events,
                    final(self).deep_view().diagnostics,
                    r,
                )
            }),
    {
        let ghost before = self.deep_view().events;
        assert(before + Seq::<RenderedEventView>::empty() =~= before);
        let range = match v.glide {
            None => {
                return Ok(());
            },
            Some(range) => range,
        };
        let target = GlideTarget {
            midi_track: v.midi_track,
            channel: v.channel,
            range_semitones: range.0,
            range_cents: range.1,
            tempo_points: v.tempo,
            ppq: v.options.ppq,
            track_id: v.id,
            config: v.options.smfmap.pitch_glide,
        };
        assert(target.deep_view() =~= bend_target(v.deep_view(), range));
        match group {
            Some(g) => render_pitch_glide_group_curve(
                &mut self.events,
                g.as_slice(),
                &target,
                &mut self.diagnostics,
            ),
            None => {
                match &n.meta.pitch_glide {
                    Some(glide) => render_pitch_glide_curve(
                        &mut self.events,
                        n.start,
                        n.end,
                        n.note,
                        glide,
                        &target,
                        &mut self.diagnostics,
                    ),
                    None => Ok(()),
                }
            },
        }
    }

    #[verifier::rlimit(60)]
    fn melodic(&mut self, v: &Stage, events: &[IrEvent], n: &NoteAt, st: TrackState) -> (r: Result<
        TrackState,
        String,
    >)
        requires
            v.options.ppq > 0,
            n.index < events@.len(),
        ensures
            stepped_is(
                melodic(
                    old(self).deep_view(),
                    v.deep_view(),
                    views::all_views(events@),
                    n.deep_view(),
                    st,
                ),
                final(self).deep_view(),
                r,
            ),
    {
        reveal(melodic);
        let total: usize = events.len();
        assert(n.index < total);
        let group = if v.glide.is_some() {
            collect_pitch_glide_slur_group(events, n.index, v.options.ppq)
        } else {
            None
        };
        proof {
            group_stays_inside(
                views::all_views(events@),
                n.index as int,
                n.index as int,
                v.options.ppq,
            );
        }
        let (end, count): (u64, usize) = match &group {
            Some(g) => {
                assert(views::all_views(g@).last() == g@.last().deep_view());
                (g[g.len() - 1].end_tick, g.len())
            },
            None => (n.end, 1),
        };
        let reported = match self.sounded(
            v,
            n.start,
            end,
            n.note,
            n.velocity,
            n.envelope,
            st.reported,
            n.tone,
        ) {
            Ok(reported) => reported,
            Err(e) => {
                return Err(e);
            },
        };
        match self.bend(v, n, &group) {
            Ok(_) => {},
            Err(e) => {
                return Err(e);
            },
        }
        Ok(TrackState { next: n.index + count, reported, ..st })
    }

    fn played(&mut self, v: &Stage, events: &[IrEvent], n: &NoteAt, st: TrackState) -> (r: Result<
        TrackState,
        String,
    >)
        requires
            v.options.ppq > 0,
            n.index < events@.len(),
        ensures
            stepped_is(
                played(
                    old(self).deep_view(),
                    v.deep_view(),
                    views::all_views(events@),
                    n.deep_view(),
                    st,
                ),
                final(self).deep_view(),
                r,
            ),
    {
        let total: usize = events.len();
        assert(n.index < total);
        if let Some(map) = v.drums {
            let mut state = OpllPseudoDrumRenderState { macro_hit_active: st.active };
            let result = render_opll_pseudo_drum_note(
                &mut self.events,
                v.midi_track,
                n.start,
                n.end,
                v.id,
                n.tone,
                n.envelope,
                n.note,
                n.velocity,
                n.meta,
                &mut state,
                map,
                v.options,
                v.assignments,
                &mut self.diagnostics,
            );
            return match result {
                OpllPseudoDrumRenderResult::Replaced | OpllPseudoDrumRenderResult::Dropped => Ok(
                    TrackState { active: state.macro_hit_active, next: n.index + 1, ..st },
                ),
                OpllPseudoDrumRenderResult::Added | OpllPseudoDrumRenderResult::Passthrough => {
                    let st = TrackState { active: state.macro_hit_active, ..st };
                    self.melodic(v, events, n, st)
                },
            };
        }
        let m = &v.options.smfmap;
        let after = TrackState { next: n.index + 1, ..st };
        if v.family == SourceFamily::PsgNoise && m.psg_noise_enabled && m.psg_noise_default_action
            == PsgNoiseDefaultAction::Ignore {
            return Ok(after);
        }
        if v.family == SourceFamily::PsgNoise {
            if let Some(entry) = m.psg_noise_drum_for_envelope(n.envelope) {
                let loudness = find_noise_loudness(
                    v,
                    entry,
                    n.start,
                    n.end,
                    n.velocity,
                    n.envelope,
                    Ghost(n.deep_view()),
                );
                let channel: u8 = if m.psg_noise_drum_channel <= 15 {
                    m.psg_noise_drum_channel
                } else {
                    15
                };
                self.note(
                    Place { midi_track: v.midi_track, tick: n.start, channel },
                    n.end,
                    entry.note,
                    loudness,
                );
                return Ok(after);
            }
        }
        self.melodic(v, events, n, st)
    }
}

// ---------------------------------------------------------------------------
// Events
// ---------------------------------------------------------------------------
/// Whether the envelope of a number means anything on a track.
pub open spec fn means_something(v: StageView, reference: EnvelopeRef) -> bool {
    envelope::shape_of(v.envelopes, reference) is Some || v.family == SourceFamily::PsgNoise
        && v.options.smfmap.noise_drum(Some(reference)) is Some
}

/// Whether the choice of an envelope is an error.
pub open spec fn is_refused(v: StageView, reference: EnvelopeRef) -> bool {
    v.options.smfmap.details.undefined_policy == UndefinedPolicy::Error && !means_something(
        v,
        reference,
    )
}

/// Whether the choice of an envelope leaves the one before in place.
pub open spec fn is_passed_over(v: StageView, reference: EnvelopeRef) -> bool {
    v.options.smfmap.details.undefined_policy == UndefinedPolicy::WarnAndKeepPrevious && (v.family
        == SourceFamily::Psg || v.family == SourceFamily::PsgNoise) && !means_something(
        v,
        reference,
    )
}

/// The envelope after the choice of one.
pub open spec fn chosen_envelope(v: StageView, st: TrackState, reference: EnvelopeRef) -> Option<
    EnvelopeRef,
> {
    if is_passed_over(v, reference) {
        st.envelope
    } else {
        Some(reference)
    }
}

/// The envelope that a note sounds with.
pub open spec fn note_envelope(v: StageView, st: TrackState, envelope: Option<EnvelopeRef>) ->
    Option<EnvelopeRef> {
    match envelope {
        Some(reference) => chosen_envelope(v, st, reference),
        None => None,
    }
}

/// When a register is written between notes.
pub open spec fn written_at(st: TrackState, step: Frac) -> Moment {
    Moment {
        step: stage::formula_step(step),
        tone: st.tone,
        envelope: match st.envelope {
            Some(reference) => Some(smfmap::envelope_id(reference)),
            None => None,
        },
    }
}

/// A track after an event that is no note.
pub open spec fn track_after(v: StageView, st: TrackState, e: IrEventView, i: int) -> TrackState {
    TrackState {
        active: st.active && !(e is Rest),
        next: (i + 1) as usize,
        reported: st.reported,
        tone: match e {
            IrEventView::ToneChange { tone, .. } => Some(tone),
            _ => st.tone,
        },
        envelope: match e {
            IrEventView::PsgEnvelopeSelect { number, kind, .. } => chosen_envelope(
                v,
                st,
                kind_reference(kind, number),
            ),
            IrEventView::EnvelopeApply { number, kind, .. } => chosen_envelope(
                v,
                st,
                kind_reference(kind, number),
            ),
            _ => st.envelope,
        },
    }
}

pub open spec fn refused_envelope(v: StageView, reference: EnvelopeRef) -> Seq<char> {
    "undefined envelope "@ + notes::envelope_name(reference) + " on track "@ + v.id
}

pub open spec fn envelope_checked(s: ScoreView, v: StageView, reference: EnvelopeRef) -> ScoreView {
    if means_something(v, reference) {
        s
    } else {
        s.warned(Some(v.id), "undefined envelope "@ + notes::envelope_name(reference))
    }
}

pub open spec fn kind_spelling(kind: EnvelopeKind) -> AtSpelling {
    match kind {
        EnvelopeKind::At => AtSpelling::At,
        EnvelopeKind::E => AtSpelling::AtE,
        EnvelopeKind::R => AtSpelling::AtR,
    }
}

pub open spec fn kind_reference(kind: EnvelopeKind, number: u8) -> EnvelopeRef {
    if kind == EnvelopeKind::R {
        EnvelopeRef::R(number)
    } else {
        EnvelopeRef::E(number)
    }
}

/// A control text, or a warning where it is not defined.
pub open spec fn control_text(s: ScoreView, v: StageView, tick: u64, id: u8) -> ScoreView {
    if v.texts.contains_key(id) {
        s.with_text(v.place(tick), v.texts[id])
    } else {
        s.warned(Some(v.id), "undefined control text @m"@ + text::decimal(id as nat))
    }
}

/// The mark of a loop, on the conductor's track.
pub open spec fn loop_marked(s: ScoreView, o: OptionsView, tick: u64, kind: LoopMarkerKind) ->
    ScoreView {
    s.with(
        Place { midi_track: 0, tick, channel: 0 },
        PRI_META,
        KindView::Marker {
            text: if kind == LoopMarkerKind::Start {
                o.loop_marker_start
            } else {
                o.loop_marker_end
            },
        },
    )
}

/// The envelope or the tone that a command selects on a rhythm track is reported.
pub open spec fn at_reported(
    s: ScoreView,
    v: StageView,
    family: SourceFamily,
    number: u8,
    spelling: AtSpelling,
    line: Option<usize>,
) -> ScoreView {
    if family == SourceFamily::Rhythm {
        s.reported(
            line,
            v.id,
            spelling.name() + text::decimal(number as nat),
            "rhythm track: @ command ignored"@,
        )
    } else {
        s
    }
}

/// An event that is no note.
pub open spec fn other_event(s: ScoreView, v: StageView, e: IrEventView, st: TrackState) ->
    Result<ScoreView, Failure> {
    let ppq = v.options.ppq;
    match e {
        IrEventView::Control { at, kind: ControlKind::Text(id) } => Ok(
            control_text(s, v, events::tick_at(at, ppq), id),
        ),
        IrEventView::LoopMarker { at, kind } => Ok(
            loop_marked(s, v.options, events::tick_at(at, ppq), kind),
        ),
        IrEventView::AtCommand { family, number, spelling, span, .. } => Ok(
            at_reported(s, v, family, number, spelling, span.line),
        ),
        IrEventView::PsgEnvelopeSelect { number, kind, .. } => if is_refused(
            v,
            kind_reference(kind, number),
        ) {
            Err(s.failed(refused_envelope(v, kind_reference(kind, number))))
        } else {
            Ok(
                envelope_checked(
                    s.with_diagnostics(
                        s.diagnostics.with_psg_envelope(v.id, number, kind_spelling(kind).name()),
                    ),
                    v,
                    kind_reference(kind, number),
                ),
            )
        },
        IrEventView::EnvelopeApply { number, kind, .. } => Ok(
            envelope_checked(s, v, kind_reference(kind, number)),
        ),
        IrEventView::ToneChange { at, tone, .. } => stage::tone_changed(s, v, events::tick_at(at, ppq), tone),
        IrEventView::RegisterWrite { at, register, data, context, span, .. } => stage::register_written(
            s,
            v,
            events::tick_at(at, ppq),
            register,
            data,
            context,
            span.line,
            written_at(st, at),
        ),
        IrEventView::ManualSmf { track, channel, at, request, span } => stage::manual_played(
            s,
            Place {
                midi_track: v.midi_track,
                tick: events::tick_at(at, ppq),
                channel: match channel {
                    Some(c) => c,
                    None => v.channel,
                },
            },
            track,
            request,
            span.line,
            v.options.smfmap,
        ),
        _ => Ok(s),
    }
}

/// An event of a track.
pub open spec fn event_played(
    s: ScoreView,
    v: StageView,
    events: Seq<IrEventView>,
    i: int,
    st: TrackState,
) -> Result<(ScoreView, TrackState), Failure> {
    match events[i] {
        IrEventView::Note { start, duration, note, velocity, tone, envelope, meta } => played(
            s,
            v,
            events,
            PlayedNote {
                index: i,
                start: events::tick_at(start, v.options.ppq),
                end: events::end_tick_of(start, duration, v.options.ppq),
                note,
                velocity,
                tone,
                envelope: note_envelope(v, st, envelope),
                meta,
            },
            st,
        ),
        _ => match other_event(s, v, events[i], st) {
            Ok(t) => Ok((t, track_after(v, st, events[i], i))),
            Err(e) => Err(e),
        },
    }
}

/// The events of a track from `i` on.
pub open spec fn events_played(
    s: ScoreView,
    v: StageView,
    events: Seq<IrEventView>,
    i: int,
    st: TrackState,
) -> Result<ScoreView, Failure>
    decreases events.len() - i,
{
    if i < 0 || i >= events.len() {
        Ok(s)
    } else if i < st.next {
        events_played(s, v, events, i + 1, st)
    } else {
        match event_played(s, v, events, i, st) {
            Ok((t, next)) => events_played(t, v, events, i + 1, next),
            Err(e) => Err(e),
        }
    }
}

fn find_meaning(v: &Stage, reference: EnvelopeRef) -> (r: bool)
    ensures
        r == means_something(v.deep_view(), reference),
{
    let other = match reference {
        EnvelopeRef::E(id) => EnvelopeRef::R(id),
        EnvelopeRef::R(id) => EnvelopeRef::E(id),
    };
    let defined = v.envelopes.get(reference).is_some() || v.envelopes.get(other).is_some();
    let drum = v.family == SourceFamily::PsgNoise
        && v.options.smfmap.psg_noise_drum_for_envelope(Some(reference)).is_some();
    defined || drum
}

fn choose_envelope(v: &Stage, st: TrackState, reference: EnvelopeRef) -> (r: Option<EnvelopeRef>)
    ensures
        r == chosen_envelope(v.deep_view(), st, reference),
{
    let psg = v.family == SourceFamily::Psg || v.family == SourceFamily::PsgNoise;
    if v.options.smfmap.details.undefined_policy == UndefinedPolicy::WarnAndKeepPrevious && psg
        && !find_meaning(v, reference) {
        st.envelope
    } else {
        Some(reference)
    }
}

fn reference_of(kind: EnvelopeKind, number: u8) -> (r: EnvelopeRef)
    ensures
        r == kind_reference(kind, number),
{
    if kind == EnvelopeKind::R {
        EnvelopeRef::R(number)
    } else {
        EnvelopeRef::E(number)
    }
}

fn find_track_after(v: &Stage, st: TrackState, e: &IrEvent, i: usize) -> (r: TrackState)
    requires
        i < usize::MAX,
    ensures
        r == track_after(v.deep_view(), st, e.deep_view(), i as int),
{
    let rest = matches!(e, IrEvent::Rest { .. });
    let tone = match e {
        IrEvent::ToneChange { tone_number, .. } => Some(*tone_number),
        _ => st.tone,
    };
    let envelope = match e {
        IrEvent::PsgEnvelopeSelect { envelope_number, kind, .. } => choose_envelope(
            v,
            st,
            reference_of(*kind, *envelope_number),
        ),
        IrEvent::EnvelopeApply { envelope_number, kind, .. } => choose_envelope(
            v,
            st,
            reference_of(*kind, *envelope_number),
        ),
        _ => st.envelope,
    };
    TrackState {
        active: st.active && !rest,
        next: i + 1,
        reported: st.reported,
        tone,
        envelope,
    }
}

fn find_written_at(st: TrackState, step: Rational) -> (r: Moment)
    ensures
        r == written_at(st, step.deep_view()),
{
    Moment {
        step: find_formula_step(step),
        tone: st.tone,
        envelope: match st.envelope {
            Some(EnvelopeRef::E(id)) => Some(id),
            Some(EnvelopeRef::R(id)) => Some(id),
            None => None,
        },
    }
}

impl Score {
    fn check_envelope(&mut self, v: &Stage, reference: EnvelopeRef)
        ensures
            final(self).deep_view() == envelope_checked(
                old(self).deep_view(),
                v.deep_view(),
                reference,
            ),
    {
        if !find_meaning(v, reference) {
            let name = name_envelope(reference);
            let message = join2("undefined envelope ", name.as_str());
            self.warn(Some(copy_text(v.id)), message.as_str());
        }
    }

    fn control_text(&mut self, v: &Stage, tick: u64, id: u8)
        ensures
            final(self).deep_view() == control_text(
                old(self).deep_view(),
                v.deep_view(),
                tick,
                id,
            ),
    {
        match v.texts.get(&id) {
            Some(text) => {
                self.text(v.at(tick), text.as_str());
            },
            None => {
                let n = number_text(id as u64);
                let message = join2("undefined control text @m", n.as_str());
                self.warn(Some(copy_text(v.id)), message.as_str());
            },
        }
    }

    fn loop_mark(&mut self, o: &ConversionOptions, tick: u64, kind: LoopMarkerKind)
        ensures
            final(self).deep_view() == loop_marked(
                old(self).deep_view(),
                o.deep_view(),
                tick,
                kind,
            ),
    {
        let text = if kind == LoopMarkerKind::Start {
            copy_text(o.loop_marker_start.as_str())
        } else {
            copy_text(o.loop_marker_end.as_str())
        };
        self.push(
            Place { midi_track: 0, tick, channel: 0 },
            PRI_META,
            RenderedEventKind::Marker { text },
        );
    }

    fn report_at(
        &mut self,
        v: &Stage,
        family: SourceFamily,
        number: u8,
        spelling: AtSpelling,
        line: Option<usize>,
    )
        ensures
            final(self).deep_view() == at_reported(
                old(self).deep_view(),
                v.deep_view(),
                family,
                number,
                spelling,
                line,
            ),
    {
        if family == SourceFamily::Rhythm {
            let n = number_text(number as u64);
            let command = join2(spelling.as_str(), n.as_str());
            self.report(line, v.id, command.as_str(), "rhythm track: @ command ignored");
        }
    }

    fn select_envelope(&mut self, v: &Stage, number: u8, kind: EnvelopeKind) -> (r: Result<
        (),
        String,
    >)
        ensures
            if is_refused(v.deep_view(), kind_reference(kind, number)) {
                &&& r matches Err(e)
                &&& e@ == refused_envelope(v.deep_view(), kind_reference(kind, number))
                &&& final(self).deep_view() == old(self).deep_view()
            } else {
                r is Ok && final(self).deep_view() == envelope_checked(
                    old(self).deep_view().with_diagnostics(
                        old(self).deep_view().diagnostics.with_psg_envelope(
                            v.deep_view().id,
                            number,
                            kind_spelling(kind).name(),
                        ),
                    ),
                    v.deep_view(),
                    kind_reference(kind, number),
                )
            },
    {
        let reference = reference_of(kind, number);
        if v.options.smfmap.details.undefined_policy == UndefinedPolicy::Error && !find_meaning(
            v,
            reference,
        ) {
            let name = name_envelope(reference);
            return Err(join4("undefined envelope ", name.as_str(), " on track ", v.id));
        }
        let spelling = match kind {
            EnvelopeKind::At => AtSpelling::At,
            EnvelopeKind::E => AtSpelling::AtE,
            EnvelopeKind::R => AtSpelling::AtR,
        };
        self.diagnostics.add_psg_envelope_usage(
            copy_text(v.id),
            number,
            copy_text(spelling.as_str()),
        );
        self.apply_envelope(v, number, kind);
        Ok(())
    }

    fn apply_envelope(&mut self, v: &Stage, number: u8, kind: EnvelopeKind)
        ensures
            final(self).deep_view() == envelope_checked(
                old(self).deep_view(),
                v.deep_view(),
                kind_reference(kind, number),
            ),
    {
        let reference = reference_of(kind, number);
        self.check_envelope(v, reference);
    }

    fn other_event(&mut self, v: &Stage, e: &IrEvent, st: TrackState) -> (r: Result<(), String>)
        ensures
            score::score_is(
                other_event(old(self).deep_view(), v.deep_view(), e.deep_view(), st),
                final(self).deep_view(),
                r,
            ),
    {
        let ppq = v.options.ppq;
        match e {
            IrEvent::Control { at_steps, kind: ControlKind::Text(id) } => {
                self.control_text(v, find_tick(*at_steps, ppq), *id);
                Ok(())
            },
            IrEvent::LoopMarker { at_steps, kind } => {
                self.loop_mark(v.options, find_tick(*at_steps, ppq), *kind);
                Ok(())
            },
            IrEvent::AtCommand { family, number, spelling, source_span, .. } => {
                self.report_at(v, *family, *number, *spelling, source_span.line);
                Ok(())
            },
            IrEvent::PsgEnvelopeSelect { envelope_number, kind, .. } => self.select_envelope(
                v,
                *envelope_number,
                *kind,
            ),
            IrEvent::EnvelopeApply { envelope_number, kind, .. } => {
                self.apply_envelope(v, *envelope_number, *kind);
                Ok(())
            },
            IrEvent::ToneChange { source_step, tone_number, .. } => self.tone_change(
                v,
                find_tick(*source_step, ppq),
                *tone_number,
            ),
            IrEvent::RegisterWrite { source_step, register, data, context, source_span, .. } =>
            self.register_write(
                v,
                find_tick(*source_step, ppq),
                *register,
                *data,
                *context,
                source_span.line,
                find_written_at(st, *source_step),
            ),
            IrEvent::ManualSmf { source_track, target_channel, source_step, request, source_span } => {
                let p = Place {
                    midi_track: v.midi_track,
                    tick: find_tick(*source_step, ppq),
                    channel: match target_channel {
                        Some(c) => *c,
                        None => v.channel,
                    },
                };
                self.manual(p, source_track, request, source_span.line, &v.options.smfmap)
            },
            _ => Ok(()),
        }
    }

    fn event_played(&mut self, v: &Stage, events: &[IrEvent], i: usize, st: TrackState) -> (r:
        Result<TrackState, String>)
        requires
            v.options.ppq > 0,
            i < events@.len(),
        ensures
            stepped_is(
                event_played(
                    old(self).deep_view(),
                    v.deep_view(),
                    views::all_views(events@),
                    i as int,
                    st,
                ),
                final(self).deep_view(),
                r,
            ),
    {
        let total: usize = events.len();
        assert(i < total);
        assert(views::all_views(events@)[i as int] == events@[i as int].deep_view());
        match &events[i] {
            IrEvent::Note {
                start_steps,
                duration_steps,
                note,
                velocity,
                tone,
                envelope,
                meta,
            } => {
                let n = NoteAt {
                    index: i,
                    start: find_tick(*start_steps, v.options.ppq),
                    end: find_end_tick(*start_steps, *duration_steps, v.options.ppq),
                    note: *note,
                    velocity: *velocity,
                    tone: *tone,
                    envelope: match envelope {
                        Some(reference) => choose_envelope(v, st, *reference),
                        None => None,
                    },
                    meta,
                };
                self.played(v, events, &n, st)
            },
            e => match self.other_event(v, e, st) {
                Ok(_) => Ok(find_track_after(v, st, e, i)),
                Err(x) => Err(x),
            },
        }
    }

    /// Renders the events of a track.
    pub fn events_of_track(&mut self, v: &Stage, events: &[IrEvent]) -> (r: Result<(), String>)
        requires
            v.options.ppq > 0,
        ensures
            score::score_is(
                events_played(
                    old(self).deep_view(),
                    v.deep_view(),
                    views::all_views(events@),
                    0,
                    first_state(),
                ),
                final(self).deep_view(),
                r,
            ),
    {
        let ghost all = views::all_views(events@);
        let ghost expected = events_played(self.deep_view(), v.deep_view(), all, 0, first_state());
        let mut st = TrackState {
            active: false,
            next: 0,
            reported: false,
            tone: None,
            envelope: None,
        };
        let mut i: usize = 0;
        while i < events.len()
            invariant
                i <= events@.len(),
                v.options.ppq > 0,
                all == views::all_views(events@),
                expected == events_played(
                    old(self).deep_view(),
                    v.deep_view(),
                    all,
                    0,
                    first_state(),
                ),
                expected == events_played(self.deep_view(), v.deep_view(), all, i as int, st),
            decreases events@.len() - i,
        {
            if i >= st.next {
                match self.event_played(v, events, i, st) {
                    Ok(next) => {
                        st = next;
                    },
                    Err(e) => {
                        return Err(e);
                    },
                }
            }
            i += 1;
        }
        Ok(())
    }
}

/// Selecting an envelope plays nothing: no event is added to the output. It fails
/// only where the choice of an envelope that is not defined is an error.
pub proof fn selecting_an_envelope_plays_nothing(
    s: ScoreView,
    v: StageView,
    e: IrEventView,
    st: TrackState,
)
    requires
        e is PsgEnvelopeSelect || e is EnvelopeApply || e is AtCommand,
    ensures
        other_event(s, v, e, st) matches Ok(t) ==> t.events == s.events,
        v.options.smfmap.details.undefined_policy != UndefinedPolicy::Error ==> other_event(
            s,
            v,
            e,
            st,
        ) is Ok,
{
}

/// Where an envelope that is not defined leaves the one before in place, a note on
/// a PSG track sounds with the one before.
pub proof fn undefined_envelopes_keep_the_one_before(
    v: StageView,
    st: TrackState,
    reference: EnvelopeRef,
)
    requires
        v.options.smfmap.details.undefined_policy == UndefinedPolicy::WarnAndKeepPrevious,
        v.family == SourceFamily::Psg,
        envelope::shape_of(v.envelopes, reference) is None,
    ensures
        chosen_envelope(v, st, reference) == st.envelope,
        note_envelope(v, st, Some(reference)) == st.envelope,
{
}

/// A note that drums replace sounds as a drum and not otherwise, and one that is
/// dropped does not sound at all.
pub proof fn replaced_notes_are_drums(
    s: ScoreView,
    v: StageView,
    events: Seq<IrEventView>,
    n: PlayedNote,
    st: TrackState,
)
    requires
        v.drums is Some,
        (v.drums->0).output.mode == DrumOutputMode::Replace,
        (v.drums->0).output.unmatched == DrumUnmatchedPolicy::Drop || (v.drums->0).output.unmatched
            == DrumUnmatchedPolicy::WarnAndDrop,
    ensures
        ({
            let map = v.drums->0;
            let m = v.options.smfmap;
            let context = opll_pseudo_drum::drum_context(
                v.id,
                n.tone,
                n.envelope,
                n.note,
                n.meta,
                m.opll_respect_at_hash_rom_assign,
                v.assignments,
            );
            let rule = smfmap::drum_rule_from(map.rules, 0, context);
            let hit = rule is Some && !opll_pseudo_drum::continues_hit(map.hit_grouping, st.active, n.meta);
            played(s, v, events, n, st) matches Ok(r) && r.0.events == s.events + (if hit {
                opll_pseudo_drum::drum_events(
                    v.midi_track,
                    n.start,
                    n.end,
                    opll_pseudo_drum::drum_channel(map.output, m.rhythm_channel),
                    (rule->0).drum.note,
                    opll_pseudo_drum::drum_loudness((rule->0).drum.velocity, n.velocity),
                )
            } else {
                Seq::empty()
            })
        }),
{
}

/// On a PSG track `@n` plays nothing, and changes no program in particular: what
/// it is read as leaves the rendered events as they are.
pub proof fn psg_numbers_play_nothing(
    env: EnvView,
    m: MachineView,
    number: u8,
    s: ScoreView,
    v: StageView,
    i: int,
    st: TrackState,
)
    requires
        env.family == SourceFamily::Psg || env.family == SourceFamily::PsgNoise,
        m.events.len() <= i < mml::at_number(env, m, number).events.len(),
    ensures
        mml::at_number(env, m, number).events.take(m.events.len() as int) == m.events,
        other_event(s, v, mml::at_number(env, m, number).events[i], st) matches Ok(t) ==> t.events
            == s.events,
        v.options.smfmap.details.undefined_policy != UndefinedPolicy::Error ==> other_event(
            s,
            v,
            mml::at_number(env, m, number).events[i],
            st,
        ) is Ok,
{
    let after = mml::at_number(env, m, number).events;
    assert(after.take(m.events.len() as int) =~= m.events);
    assert(after.len() == m.events.len() + 2);
    assert(after[m.events.len() as int] is AtCommand);
    assert(after[m.events.len() as int + 1] is PsgEnvelopeSelect);
}

} // verus!
