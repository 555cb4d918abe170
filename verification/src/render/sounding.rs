//! What the events of a track sound like.

use vstd::prelude::*;

use crate::fraction::Frac;
use crate::ir::{
    ControlKind, EnvelopeMode, EnvelopeRef, EnvelopeTableView, IrEventView, LoopMarkerKind,
    RegisterContext, SmfRequestView, SourceFamily, SourceSpanView, TonePolicy,
};
use crate::render::drumming;
use crate::render::envelope;
use crate::render::envelope::EnvelopeShape;
use crate::render::events;
use crate::render::events::{KindView, RenderedEventView};
use crate::render::messages;
use crate::render::notes;
use crate::render::requests;
use crate::render::score::{Failure, Place, ScoreView};
use crate::render::stage;
use crate::render::stage::{Moment, StageView};
use crate::render::tracks;
use crate::render::tracks::{PlayedNote, TrackState};
use crate::smfmap;
use crate::smfmap::{
    PsgNoiseDefaultAction, PsgNoiseDrumEntryView, RegisterMapPolicy, RegisterRuleView,
    RuleEventsView,
};
use crate::smfmap::details::Loudness;
use crate::smfmap::formula::FormulaVars;
use crate::text;

verus! {

// ---------------------------------------------------------------------------
// Notes
// ---------------------------------------------------------------------------
/// One note is added, from tick to tick.
pub open spec fn adds_note(
    before: Seq<RenderedEventView>,
    after: Seq<RenderedEventView>,
    midi_track: usize,
    start: u64,
    end: u64,
    channel: u8,
    key: u8,
    loudness: u8,
) -> bool {
    messages::extends(before, after, 2) && drumming::is_note(
        after.skip(before.len() as int),
        midi_track,
        start,
        end,
        channel,
        key,
        loudness,
    )
}

proof fn note_is_added(s: ScoreView, p: Place, end: u64, note: u8, velocity: u8)
    ensures
        adds_note(
            s.events,
            notes::with_note(s, p, end, note, velocity).events,
            p.midi_track,
            p.tick,
            end,
            p.channel,
            note,
            velocity,
        ),
{
    let after = notes::with_note(s, p, end, note, velocity).events;
    assert(after.take(s.events.len() as int) =~= s.events);
}

/// A note without an envelope or a glide sounds on the channel of its track, from
/// where it is written for as long as it is written, as high and as loud as it is
/// written.
pub proof fn notes_sound_as_written(
    s: ScoreView,
    v: StageView,
    events: Seq<IrEventView>,
    i: int,
    st: TrackState,
)
    requires
        0 <= i < events.len(),
        events[i] matches IrEventView::Note { envelope, .. } && envelope is None,
        v.drums is None,
        v.glide is None,
        v.family != SourceFamily::PsgNoise,
    ensures
        events[i] matches IrEventView::Note { start, duration, note, velocity, .. } && (
        tracks::event_played(s, v, events, i, st) matches Ok((t, _)) && adds_note(
            s.events,
            t.events,
            v.midi_track,
            events::tick_at(start, v.options.ppq),
            events::end_tick_of(start, duration, v.options.ppq),
            v.channel,
            note,
            velocity,
        )),
{
    reveal(tracks::melodic);
    if let IrEventView::Note { start, duration, note, velocity, .. } = events[i] {
        let p = v.place(events::tick_at(start, v.options.ppq));
        let end = events::end_tick_of(start, duration, v.options.ppq);
        note_is_added(s, p, end, note, velocity);
        let t = notes::with_note(s, p, end, note, velocity);
        assert(t.events + Seq::empty() =~= t.events);
    }
}

/// A note with an envelope sounds with the one that it names, from where it is
/// written for as long as it is written.
pub proof fn notes_sound_with_their_envelope(
    s: ScoreView,
    v: StageView,
    events: Seq<IrEventView>,
    i: int,
    st: TrackState,
    reference: EnvelopeRef,
)
    requires
        0 <= i < events.len(),
        events[i] matches IrEventView::Note { envelope, .. } && envelope == Some(reference),
        envelope::shape_of(v.envelopes, reference) is Some,
        v.drums is None,
        v.glide is None,
        v.family == SourceFamily::Scc || v.family == SourceFamily::Opll,
    ensures
        events[i] matches IrEventView::Note { start, duration, note, velocity, tone, .. } && ({
            let from = events::tick_at(start, v.options.ppq);
            let to = events::end_tick_of(start, duration, v.options.ppq);
            let points = envelope::envelope_points(
                envelope::shape_of(v.envelopes, reference)->0,
                Loudness::initial(),
                from,
                to,
                v.tempo,
                v.options.ppq,
            );
            match notes::enveloped(s, v, from, to, note, velocity, reference, points, st.reported, tone) {
                Ok((b, _)) => tracks::event_played(s, v, events, i, st) matches Ok((t, _)) && t.events
                    == b.events,
                Err(_) => tracks::event_played(s, v, events, i, st) is Err,
            }
        }),
{
    reveal(tracks::melodic);
    if let IrEventView::Note { start, duration, note, velocity, tone, .. } = events[i] {
        let from = events::tick_at(start, v.options.ppq);
        let to = events::end_tick_of(start, duration, v.options.ppq);
        let points = envelope::envelope_points(
            envelope::shape_of(v.envelopes, reference)->0,
            Loudness::initial(),
            from,
            to,
            v.tempo,
            v.options.ppq,
        );
        assert(Loudness::initial().change.velocity(velocity) == velocity);
        if let Ok((b, _)) = notes::enveloped(
            s,
            v,
            from,
            to,
            note,
            velocity,
            reference,
            points,
            st.reported,
            tone,
        ) {
            assert(b.events + Seq::empty() =~= b.events);
        }
    }
}

/// An envelope is looked up among those of its own kind, and among the others
/// where its own kind has none of its number.
pub proof fn envelopes_are_looked_up(t: EnvelopeTableView, id: u8)
    ensures
        t.e.contains_key(id) ==> envelope::shape_of(t, EnvelopeRef::E(id)) == Some(
            EnvelopeShape::E(t.e[id].commands),
        ),
        t.r.contains_key(id) ==> envelope::shape_of(t, EnvelopeRef::R(id)) == Some(EnvelopeShape::R(t.r[id])),
        !t.e.contains_key(id) && t.r.contains_key(id) ==> envelope::shape_of(t, EnvelopeRef::E(id)) == Some(
            EnvelopeShape::R(t.r[id]),
        ),
        !t.r.contains_key(id) && t.e.contains_key(id) ==> envelope::shape_of(t, EnvelopeRef::R(id)) == Some(
            EnvelopeShape::E(t.e[id].commands),
        ),
        !t.r.contains_key(id) && !t.e.contains_key(id) ==> envelope::shape_of(t, EnvelopeRef::E(id)) is None
            && envelope::shape_of(t, EnvelopeRef::R(id)) is None,
{
}

/// A note of a noise track whose envelope is a drum sounds as that drum, on the
/// channel for drums; a velocity of the drum counts whatever the note has.
pub proof fn noises_sound_as_drums(
    s: ScoreView,
    v: StageView,
    events: Seq<IrEventView>,
    n: PlayedNote,
    st: TrackState,
    entry: PsgNoiseDrumEntryView,
    loudness: u8,
)
    requires
        v.drums is None,
        v.family == SourceFamily::PsgNoise,
        v.options.smfmap.noise_drum(n.envelope) == Some(entry),
        entry.velocity == Some(loudness) || (entry.velocity is None && n.envelope is None
            && loudness == n.velocity),
        v.options.smfmap.psg_noise_drum_channel <= 15,
    ensures
        tracks::played(s, v, events, n, st) matches Ok((t, _)) && adds_note(
            s.events,
            t.events,
            v.midi_track,
            n.start,
            n.end,
            v.options.smfmap.psg_noise_drum_channel,
            entry.note,
            loudness,
        ),
{
    let channel = v.options.smfmap.psg_noise_drum_channel;
    note_is_added(
        s,
        Place { midi_track: v.midi_track, tick: n.start, channel },
        n.end,
        entry.note,
        loudness,
    );
}

/// Noise that is to be ignored is silent, and noise that is switched off or named
/// by no drum sounds as a note.
pub proof fn noises_follow_their_action(
    s: ScoreView,
    v: StageView,
    events: Seq<IrEventView>,
    n: PlayedNote,
    st: TrackState,
)
    requires
        v.drums is None,
        v.family == SourceFamily::PsgNoise,
    ensures
        v.options.smfmap.psg_noise_enabled && v.options.smfmap.psg_noise_default_action
            == PsgNoiseDefaultAction::Ignore ==> (tracks::played(s, v, events, n, st) matches Ok((t, _))
            && t == s),
        !v.options.smfmap.psg_noise_enabled && v.glide is None && n.envelope is None ==> (tracks::played(
            s,
            v,
            events,
            n,
            st,
        ) matches Ok((t, _)) && adds_note(
            s.events,
            t.events,
            v.midi_track,
            n.start,
            n.end,
            v.channel,
            n.note,
            n.velocity,
        )),
{
    reveal(tracks::melodic);
    note_is_added(s, v.place(n.start), n.end, n.note, n.velocity);
    let t = notes::with_note(s, v.place(n.start), n.end, n.note, n.velocity);
    assert(t.events + Seq::empty() =~= t.events);
}

// ---------------------------------------------------------------------------
// Notes in pieces
// ---------------------------------------------------------------------------
/// A note that is cut where its loudness changes: one piece for every value, each
/// from its value to the next one, the last to the end of the note.
pub proof fn pieces_follow_each_other(
    s: ScoreView,
    v: StageView,
    end: u64,
    note: u8,
    velocity: u8,
    values: Seq<(u64, u8)>,
    k: int,
    j: int,
)
    requires
        0 <= k <= j < values.len(),
        forall|i: int| 0 <= i < values.len() ==> notes::scaled(velocity, (#[trigger] values[i]).1 as int) > 0,
    ensures
        ({
            let after = notes::with_pieces(s, v, end, note, velocity, values, k).events;
            let from = s.events.len() + 2 * (j - k);
            &&& after.len() == s.events.len() + 2 * (values.len() - k)
            &&& after.take(s.events.len() as int) == s.events
            &&& drumming::is_note(
                after.subrange(from, from + 2),
                v.midi_track,
                values[j].0,
                if j + 1 < values.len() {
                    values[j + 1].0
                } else {
                    end
                },
                v.channel,
                note,
                notes::scaled(velocity, values[j].1 as int),
            )
        }),
    decreases values.len() - k,
{
    let loudness = notes::scaled(velocity, values[k].1 as int);
    let until = if k + 1 < values.len() {
        values[k + 1].0
    } else {
        end
    };
    let t = notes::with_note(s, v.place(values[k].0), until, note, loudness);
    note_is_added(s, v.place(values[k].0), until, note, loudness);
    let after = notes::with_pieces(s, v, end, note, velocity, values, k).events;
    assert(after == notes::with_pieces(t, v, end, note, velocity, values, k + 1).events);
    if k + 1 < values.len() {
        let next = if j > k {
            j
        } else {
            k + 1
        };
        pieces_follow_each_other(t, v, end, note, velocity, values, k + 1, next);
        assert(after.take(t.events.len() as int) == t.events);
        assert forall|i: int| 0 <= i < t.events.len() implies after[i] == t.events[i] by {
            assert(after.take(t.events.len() as int)[i] == after[i]);
        }
        assert(after.take(s.events.len() as int) =~= s.events) by {
            assert(t.events.take(s.events.len() as int) =~= s.events);
        }
    } else {
        assert(after == t.events);
    }
    if j == k {
        let n = s.events.len() as int;
        assert(after.subrange(n, n + 2) =~= t.events.skip(n));
    }
}

/// Where envelopes are to be velocities a note is as loud as the first value of
/// its envelope lets it be; where they are controllers, or switched off, it is as
/// loud as it is written.
pub proof fn notes_sound_in_their_mode(
    s: ScoreView,
    v: StageView,
    start: u64,
    end: u64,
    note: u8,
    velocity: u8,
    mode: EnvelopeMode,
    values: Seq<(u64, u8)>,
)
    requires
        mode != EnvelopeMode::SplitVelocity,
    ensures
        adds_note(
            s.events,
            notes::with_sound(s, v, start, end, note, velocity, mode, values).events,
            v.midi_track,
            start,
            end,
            v.channel,
            note,
            if mode == EnvelopeMode::NoteVelocity && values.len() > 0 {
                notes::scaled(velocity, values[0].1 as int)
            } else {
                velocity
            },
        ),
{
    let loudness = if mode == EnvelopeMode::NoteVelocity && values.len() > 0 {
        notes::scaled(velocity, values[0].1 as int)
    } else {
        velocity
    };
    note_is_added(s, v.place(start), end, note, loudness);
}

/// Values that come too soon are left out: those that stay are far enough apart,
/// and the first stays.
pub proof fn thinned_values_are_apart(values: Seq<(u64, u8)>, n: int, least: u32)
    requires
        0 <= n <= values.len(),
    ensures
        ({
            let kept = notes::thinned(values, n, least);
            &&& n > 0 ==> kept.len() > 0 && kept[0] == values[0]
            &&& forall|i: int|
                0 <= i < kept.len() - 1 ==> (#[trigger] kept[i]).0 + least <= kept[i + 1].0
        }),
    decreases n,
{
    if n > 0 {
        thinned_values_are_apart(values, n - 1, least);
        let before = notes::thinned(values, n - 1, least);
        let kept = notes::thinned(values, n, least);
        assert(n - 1 > 0 ==> kept[0] == before[0]);
        assert forall|i: int| 0 <= i < kept.len() - 1 implies (#[trigger] kept[i]).0 + least
            <= kept[i + 1].0 by {
            assert(kept[i] == before[i]);
            if i + 1 < before.len() {
                assert(kept[i + 1] == before[i + 1]);
            }
        }
    }
}

/// The peak of a note's values is one of them, and none is above it.
pub proof fn peaks_are_highest(values: Seq<(u64, u8)>, n: int, i: int)
    requires
        0 <= i < n <= values.len(),
    ensures
        values[i].1 <= notes::peak(values, n),
        exists|j: int| 0 <= j < n && (#[trigger] values[j]).1 == notes::peak(values, n),
    decreases n,
{
    if n > 1 {
        peaks_are_highest(
            values,
            n - 1,
            if i < n - 1 {
                i
            } else {
                0
            },
        );
        let j = choose|j: int| 0 <= j < n - 1 && (#[trigger] values[j]).1 == notes::peak(values, n - 1);
        if values[n - 1].1 as int > notes::peak(values, n - 1) {
            assert(values[n - 1].1 == notes::peak(values, n));
        } else {
            assert(values[j].1 == notes::peak(values, n));
        }
    } else {
        assert(notes::peak(values, 0) == 0);
        assert(values[0].1 == notes::peak(values, 1));
    }
}

// ---------------------------------------------------------------------------
// Marks and texts
// ---------------------------------------------------------------------------
/// The ends of an endless loop are marked on the first track, each with its own
/// text.
pub proof fn loops_are_marked(s: ScoreView, v: StageView, st: TrackState, place: Frac)
    ensures
        tracks::other_event(s, v, IrEventView::LoopMarker { at: place, kind: LoopMarkerKind::Start }, st) matches Ok(
            t,
        ) && messages::extends(s.events, t.events, 1) && t.events.last().track_index == 0
            && t.events.last().abs_tick == events::tick_at(place, v.options.ppq) && t.events.last().kind == (
        KindView::Marker { text: v.options.loop_marker_start }),
        tracks::other_event(s, v, IrEventView::LoopMarker { at: place, kind: LoopMarkerKind::End }, st) matches Ok(
            t,
        ) && messages::extends(s.events, t.events, 1) && t.events.last().track_index == 0
            && t.events.last().abs_tick == events::tick_at(place, v.options.ppq) && t.events.last().kind == (
        KindView::Marker { text: v.options.loop_marker_end }),
{
    let a = tracks::other_event(
        s,
        v,
        IrEventView::LoopMarker { at: place, kind: LoopMarkerKind::Start },
        st,
    )->Ok_0;
    let b = tracks::other_event(
        s,
        v,
        IrEventView::LoopMarker { at: place, kind: LoopMarkerKind::End },
        st,
    )->Ok_0;
    assert(a.events.take(s.events.len() as int) =~= s.events);
    assert(b.events.take(s.events.len() as int) =~= s.events);
}

/// A text that is shown is the one defined under its number; one that is not
/// defined is warned of.
pub proof fn control_texts_are_shown(
    s: ScoreView,
    v: StageView,
    st: TrackState,
    place: Frac,
    id: u8,
)
    ensures
        ({
            let e = IrEventView::Control { at: place, kind: ControlKind::Text(id) };
            &&& v.texts.contains_key(id) ==> (tracks::other_event(s, v, e, st) matches Ok(t) && messages::extends(
                s.events,
                t.events,
                1,
            ) && messages::sends(
                t.events.last(),
                v.place(events::tick_at(place, v.options.ppq)),
                KindView::Text(v.texts[id]),
            ))
            &&& !v.texts.contains_key(id) ==> (tracks::other_event(s, v, e, st) matches Ok(t) && t.events
                == s.events && t.diagnostics != s.diagnostics)
        }),
{
    let e = IrEventView::Control { at: place, kind: ControlKind::Text(id) };
    let t = tracks::other_event(s, v, e, st)->Ok_0;
    if v.texts.contains_key(id) {
        assert(t.events.take(s.events.len() as int) =~= s.events);
    } else {
        assert(t.diagnostics.parse_warnings.len() == s.diagnostics.parse_warnings.len() + 1);
    }
}

// ---------------------------------------------------------------------------
// Tones
// ---------------------------------------------------------------------------
/// A tone that the tone map gives a program sends that program.
pub proof fn mapped_tones_send_their_program(
    s: ScoreView,
    v: StageView,
    tick: u64,
    tone: u8,
    program: u8,
)
    requires
        v.drums is None,
        v.options.tone_policy == TonePolicy::GmProgram || v.options.tone_policy
            == TonePolicy::Ignore,
        !v.options.smfmap.details.tone_text_meta,
        v.family == SourceFamily::Scc,
        program <= 127,
        v.options.smfmap.tone(v.family, tone) == Some(seq![SmfRequestView::Pc { program }]),
    ensures
        stage::tone_changed(s, v, tick, tone) matches Ok(t) && messages::extends(s.events, t.events, 1) && messages::sends(
            t.events.last(),
            v.place(tick),
            KindView::ProgramChange { channel: v.channel, program },
        ),
{
    let m = v.options.smfmap;
    let p = v.place(tick);
    let requests = seq![SmfRequestView::Pc { program }];
    let used = s.with_diagnostics(s.diagnostics.with_tone_usage(v.id, v.family.name(), tone));
    let depth = m.macro_max_depth as nat;
    messages::programs_are_sent(used, p, program, m.macros, depth);
    assert(requests::with_requests(used, p, requests, 0, true, m.macros, depth) == Ok::<ScoreView, Failure>(
        used,
    ));
    assert(requests[0] == SmfRequestView::Pc { program });
    assert(requests::with_requests(used, p, requests, 1, true, m.macros, depth) == requests::with_request(
        used,
        p,
        requests[0],
        true,
        m.macros,
        depth,
    ));
    assert(stage::tone_changed(s, v, tick, tone) == requests::with_requests(
        used,
        p,
        requests,
        1,
        true,
        m.macros,
        depth,
    ));
}

/// A tone of the OPLL that the tone map leaves out sends the General MIDI program
/// of its instrument, where tones are to be programs, or of the instrument of the
/// ROM that the source assigns to it; under the policy to ignore it sends nothing.
pub proof fn unmapped_tones_send_their_instrument(
    s: ScoreView,
    v: StageView,
    tick: u64,
    tone: u8,
    name: Seq<char>,
    program: u8,
    rom: u8,
)
    requires
        v.drums is None,
        !v.options.smfmap.details.tone_text_meta,
        v.family == SourceFamily::Opll,
        if v.options.smfmap.opll_respect_at_hash_rom_assign && v.assignments.contains_key(tone) {
            rom == v.assignments[tone]
        } else {
            rom == tone
        },
        v.options.smfmap.tone(v.family, rom) is None,
        smfmap::built_in_program(rom) == Some((name, program)),
    ensures
        v.options.tone_policy == TonePolicy::GmProgram ==> (stage::tone_changed(s, v, tick, tone) matches Ok(
            t,
        ) && messages::extends(s.events, t.events, 1) && messages::sends(
            t.events.last(),
            v.place(tick),
            KindView::ProgramChange { channel: v.channel, program },
        )),
        v.options.tone_policy == TonePolicy::Ignore ==> (stage::tone_changed(s, v, tick, tone) matches Ok(
            t,
        ) && t.events == s.events),
{
    let t = stage::tone_changed(s, v, tick, tone)->Ok_0;
    if v.options.tone_policy == TonePolicy::GmProgram {
        assert(t.events.take(s.events.len() as int) =~= s.events);
    }
}

// ---------------------------------------------------------------------------
// Registers
// ---------------------------------------------------------------------------
/// A register write is passed over, shown as a text, refused, or answered by the
/// rules that it passes, as the policy says.
pub proof fn writes_follow_the_policy(
    s: ScoreView,
    v: StageView,
    tick: u64,
    register: u8,
    data: u8,
    context: RegisterContext,
    line: Option<usize>,
    at: Moment,
)
    ensures
        ({
            let r = stage::register_written(s, v, tick, register, data, context, line, at);
            match v.options.smfmap.register_map_policy {
                RegisterMapPolicy::IgnoreSilently => r matches Ok(t) && t.events == s.events,
                RegisterMapPolicy::IgnoreAndReport => r matches Ok(t) && t.events == s.events
                    && t.diagnostics.unsupported_commands.len() == s.diagnostics.unsupported_commands.len() + 1,
                RegisterMapPolicy::TextMeta => r matches Ok(t) && messages::extends(s.events, t.events, 1)
                    && messages::sends(
                    t.events.last(),
                    v.place(tick),
                    KindView::Text(
                        seq!['y'] + text::decimal(register as nat) + seq![','] + text::decimal(data as nat),
                    ),
                ),
                RegisterMapPolicy::Error => r is Err,
                RegisterMapPolicy::ApplyRules => (forall|i: int|
                    0 <= i < v.options.smfmap.register_rules.len() ==> !(
                    #[trigger] v.options.smfmap.register_rules[i]).enabled) ==> (r matches Ok(t)
                    && t.events == s.events),
            }
        }),
{
    let m = v.options.smfmap;
    let r = stage::register_written(s, v, tick, register, data, context, line, at);
    reveal_strlit("y");
    reveal_strlit(",");
    if m.register_map_policy == RegisterMapPolicy::TextMeta {
        let t = r->Ok_0;
        assert(t.events.take(s.events.len() as int) =~= s.events);
        assert("y"@ =~= seq!['y']);
        assert(","@ =~= seq![',']);
    }
    if m.register_map_policy == RegisterMapPolicy::ApplyRules && forall|i: int|
        0 <= i < m.register_rules.len() ==> !(#[trigger] m.register_rules[i]).enabled {
        no_rules_no_events(
            m.register_rules,
            m.register_rules.len() as int,
            v.family,
            v.id,
            context,
            stage::write_vars(v, tick, register, data, at),
        );
    }
}

proof fn no_rules_no_events(
    rules: Seq<RegisterRuleView>,
    n: int,
    family: SourceFamily,
    track: Seq<char>,
    context: RegisterContext,
    vars: FormulaVars,
)
    requires
        0 <= n <= rules.len(),
        forall|i: int| 0 <= i < n ==> {
            let r = #[trigger] rules[i];
            !r.enabled || !r.matcher.accepts(family, track, vars.register, vars.data, context)
        },
    ensures
        smfmap::rule_events(rules, n, family, track, context, vars) == Seq::<RuleEventsView>::empty(),
    decreases n,
{
    if n > 0 {
        no_rules_no_events(rules, n - 1, family, track, context, vars);
        assert(rules[n - 1] == rules[n - 1]);
    }
}

/// A rule answers the writes that it tests for, and no others: where one rule
/// alone passes, what it emits is what comes.
pub proof fn rules_answer_their_writes(
    rules: Seq<RegisterRuleView>,
    k: int,
    n: int,
    family: SourceFamily,
    track: Seq<char>,
    context: RegisterContext,
    vars: FormulaVars,
)
    requires
        0 <= k < n <= rules.len(),
        rules[k].enabled,
        rules[k].matcher.family.accepts(family.name()),
        rules[k].matcher.source_track.accepts(track),
        rules[k].matcher.register.accepts(vars.register),
        rules[k].matcher.data.accepts(vars.data),
        rules[k].matcher.context.accepts(context.name()),
        forall|i: int| 0 <= i < rules.len() && i != k ==> {
            let r = #[trigger] rules[i];
            !r.enabled || !r.matcher.accepts(family, track, vars.register, vars.data, context)
        },
        rules[k].formulas.len() == 0,
    ensures
        ({
            let answers = smfmap::rule_events(rules, n, family, track, context, vars);
            answers.len() == 1 && answers[0].name == rules[k].name && answers[0].events
                == rules[k].emit
        }),
    decreases n,
{
    if n == k + 1 {
        no_rules_no_events(rules, k, family, track, context, vars);
        plain_rules_emit(rules[k].emit, rules[k].formulas, rules[k].emit.len() as int, vars);
        assert(rules[k].emit.take(rules[k].emit.len() as int) =~= rules[k].emit);
    } else {
        rules_answer_their_writes(rules, k, n - 1, family, track, context, vars);
        assert(rules[n - 1] == rules[n - 1]);
    }
}

proof fn plain_rules_emit(
    emit: Seq<SmfRequestView>,
    formulas: Seq<Option<Seq<char>>>,
    n: int,
    vars: FormulaVars,
)
    requires
        0 <= n <= emit.len(),
        formulas.len() == 0,
    ensures
        smfmap::filled(emit, formulas, n, vars) == emit.take(n),
    decreases n,
{
    if n > 0 {
        plain_rules_emit(emit, formulas, n - 1, vars);
        assert(emit.take(n) =~= emit.take(n - 1).push(emit[n - 1]));
    } else {
        assert(emit.take(0) =~= Seq::empty());
    }
}

/// A value, or the bound that it is beyond.
pub open spec fn in_bounds(n: int, low: int, high: int) -> int {
    if n < low {
        low
    } else if n > high {
        high
    } else {
        n
    }
}

/// The value of a formula is given to its request as it is, as far as MIDI holds
/// it.
pub proof fn formulas_give_values(controller: u8, msb: u8, lsb: u8, n: int)
    ensures
        ({
            &&& smfmap::with_value(SmfRequestView::Cc { controller, value: 0 }, n) == (SmfRequestView::Cc {
                controller,
                value: in_bounds(n, 0, 127) as u8,
            })
            &&& smfmap::with_value(SmfRequestView::PitchBend { value: 0 }, n) == (
            SmfRequestView::PitchBend { value: in_bounds(n, -8192, 16383) as i32 })
            &&& smfmap::with_value(SmfRequestView::Rpn { msb, lsb, value: 0 }, n) == (SmfRequestView::Rpn {
                msb,
                lsb,
                value: in_bounds(n, 0, 16383) as u16,
            })
            &&& smfmap::with_value(SmfRequestView::Nrpn { msb, lsb, value: 0 }, n) == (
            SmfRequestView::Nrpn { msb, lsb, value: in_bounds(n, 0, 16383) as u16 })
        }),
{
}

// ---------------------------------------------------------------------------
// Requests by hand
// ---------------------------------------------------------------------------
/// A request of the source goes to the channel that it names, else to that of the
/// track; where requests are switched off it does nothing.
pub proof fn requests_go_to_their_channel(
    s: ScoreView,
    v: StageView,
    st: TrackState,
    track: Option<Seq<char>>,
    channel: Option<u8>,
    place: Frac,
    controller: u8,
    value: u8,
    span: SourceSpanView,
)
    requires
        controller <= 127,
        value <= 127,
    ensures
        ({
            let e = IrEventView::ManualSmf {
                track,
                channel,
                at: place,
                request: SmfRequestView::Cc { controller, value },
                span,
            };
            let p = Place {
                midi_track: v.midi_track,
                tick: events::tick_at(place, v.options.ppq),
                channel: match channel {
                    Some(c) => c,
                    None => v.channel,
                },
            };
            &&& v.options.smfmap.manual_smf_enabled ==> (tracks::other_event(s, v, e, st) matches Ok(t)
                && messages::extends(s.events, t.events, 1) && messages::sets(
                t.events.last(),
                p,
                controller,
                value as int,
            ))
            &&& !v.options.smfmap.manual_smf_enabled ==> (tracks::other_event(s, v, e, st) matches Ok(t)
                && t == s)
        }),
{
    let e = IrEventView::ManualSmf {
        track,
        channel,
        at: place,
        request: SmfRequestView::Cc { controller, value },
        span,
    };
    if v.options.smfmap.manual_smf_enabled {
        let t = tracks::other_event(s, v, e, st)->Ok_0;
        assert(t.events.take(s.events.len() as int) =~= s.events);
    }
}

} // verus!
