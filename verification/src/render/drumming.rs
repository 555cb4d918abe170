//! What OPLL tracks that are played as drums sound like.

use vstd::prelude::*;

use crate::diagnostics::DiagnosticsView;
use crate::ir::{EnvelopeRef, IrEventView, MacroOriginView, NoteMetaView};
use crate::render::events::{KindView, RenderedEventView};
use crate::render::opll_pseudo_drum;
use crate::render::opll_pseudo_drum::OpllPseudoDrumRenderResult;
use crate::render::score::ScoreView;
use crate::render::stage::StageView;
use crate::render::tracks;
use crate::render::tracks::{PlayedNote, TrackState};
use crate::smfmap;
use crate::smfmap::{
    DrumContextView, DrumOutputMode, DrumUnmatchedPolicy, DrumVelocity, OpllPseudoDrumMapView,
    OpllPseudoDrumRuleView,
};
use crate::text::after;

verus! {

/// A note and its end, from tick to tick.
pub open spec fn is_note(
    events: Seq<RenderedEventView>,
    midi_track: usize,
    start: u64,
    end: u64,
    channel: u8,
    key: u8,
    loudness: u8,
) -> bool {
    &&& events.len() == 2
    &&& events[0].track_index == midi_track
    &&& events[0].abs_tick == start
    &&& events[0].kind == (KindView::NoteOn { channel, note: key, velocity: loudness })
    &&& events[1].track_index == midi_track
    &&& events[1].abs_tick == end
    &&& events[1].kind matches KindView::NoteOff { channel: c, note, .. }
    &&& c == channel
    &&& note == key
}

/// The first of the rules that a note passes counts: it passes that one and none
/// before it, and one that passes none finds none.
pub proof fn the_first_rule_counts(rules: Seq<OpllPseudoDrumRuleView>, c: DrumContextView)
    ensures
        match smfmap::drum_rule_from(rules, 0, c) {
            Some(rule) => exists|i: int|
                0 <= i < rules.len() && #[trigger] rules[i] == rule && rules[i].matcher.accepts(c)
                    && forall|j: int| 0 <= j < i ==> !(#[trigger] rules[j]).matcher.accepts(c),
            None => forall|j: int|
                0 <= j < rules.len() ==> !(#[trigger] rules[j]).matcher.accepts(c),
        },
{
    first_rule_from(rules, 0, c);
}

proof fn first_rule_from(rules: Seq<OpllPseudoDrumRuleView>, from: int, c: DrumContextView)
    requires
        0 <= from <= rules.len(),
        forall|j: int| 0 <= j < from ==> !(#[trigger] rules[j]).matcher.accepts(c),
    ensures
        match smfmap::drum_rule_from(rules, from, c) {
            Some(rule) => exists|i: int|
                0 <= i < rules.len() && #[trigger] rules[i] == rule && rules[i].matcher.accepts(c)
                    && forall|j: int| 0 <= j < i ==> !(#[trigger] rules[j]).matcher.accepts(c),
            None => forall|j: int|
                0 <= j < rules.len() ==> !(#[trigger] rules[j]).matcher.accepts(c),
        },
    decreases rules.len() - from,
{
    if from < rules.len() && !rules[from].matcher.accepts(c) {
        first_rule_from(rules, from + 1, c);
    }
}

/// A note that a rule names sounds as the drum of the rule, from its start to its
/// end. A fixed loudness counts whatever the source asks for; otherwise the source
/// counts.
pub proof fn drums_are_as_loud_as_their_rule(
    midi_track: usize,
    start: u64,
    end: u64,
    context: DrumContextView,
    velocity: u8,
    meta: NoteMetaView,
    active: bool,
    map: OpllPseudoDrumMapView,
    rhythm_channel: u8,
    d: DiagnosticsView,
    rule: OpllPseudoDrumRuleView,
)
    requires
        map.output.mode != DrumOutputMode::Passthrough,
        !map.hit_grouping.enabled,
        smfmap::drum_rule_from(map.rules, 0, context) == Some(rule),
        rhythm_channel <= 15,
        map.output.midi_channel matches Some(c) ==> c <= 15,
    ensures
        ({
            let r = opll_pseudo_drum::drum_rendered(
                midi_track,
                start,
                end,
                context,
                velocity,
                meta,
                active,
                map,
                rhythm_channel,
                d,
            );
            let channel = match map.output.midi_channel {
                Some(c) => c,
                None => rhythm_channel,
            };
            &&& rule.drum.velocity matches DrumVelocity::Fixed(n) ==> is_note(
                r.events,
                midi_track,
                start,
                end,
                channel,
                rule.drum.note,
                n,
            )
            &&& !(rule.drum.velocity is Fixed) ==> is_note(
                r.events,
                midi_track,
                start,
                end,
                channel,
                rule.drum.note,
                velocity,
            )
            &&& map.output.mode == DrumOutputMode::Replace ==> r.result
                == OpllPseudoDrumRenderResult::Replaced
            &&& map.output.mode != DrumOutputMode::Replace ==> r.result
                == OpllPseudoDrumRenderResult::Added
            &&& r.diagnostics == d
        }),
{
}

/// Where a hit sounds, it is the drum of the first rule that the note passes, with
/// the fixed loudness of that rule if it has one, also where notes are grouped.
pub proof fn hits_are_drums_of_their_rule(
    midi_track: usize,
    start: u64,
    end: u64,
    context: DrumContextView,
    velocity: u8,
    meta: NoteMetaView,
    active: bool,
    map: OpllPseudoDrumMapView,
    rhythm_channel: u8,
    d: DiagnosticsView,
)
    ensures
        ({
            let r = opll_pseudo_drum::drum_rendered(
                midi_track,
                start,
                end,
                context,
                velocity,
                meta,
                active,
                map,
                rhythm_channel,
                d,
            );
            r.events.len() > 0 ==> {
                &&& smfmap::drum_rule_from(map.rules, 0, context) matches Some(rule)
                &&& r.events[0].kind matches KindView::NoteOn { note, velocity: loudness, .. }
                &&& note == rule.drum.note
                &&& loudness == (match rule.drum.velocity {
                    DrumVelocity::Fixed(n) => n,
                    _ => velocity,
                })
            }
        }),
{
}

/// The notes of one macro call are one hit: once a note of a call has sounded as a
/// drum, the next notes of that call sound no other one, and a new call does.
pub proof fn a_call_is_one_hit(
    midi_track: usize,
    start: u64,
    end: u64,
    context: DrumContextView,
    velocity: u8,
    meta: NoteMetaView,
    map: OpllPseudoDrumMapView,
    rhythm_channel: u8,
    d: DiagnosticsView,
    rule: OpllPseudoDrumRuleView,
)
    requires
        map.output.mode != DrumOutputMode::Passthrough,
        map.hit_grouping.enabled,
        map.hit_grouping.suppress_macro_continuation,
        meta.macro_origin.len() > 0,
        !meta.slur_from_previous,
        smfmap::drum_rule_from(map.rules, 0, context) == Some(rule),
    ensures
        ({
            let after = |active: bool|
                opll_pseudo_drum::drum_rendered(
                    midi_track,
                    start,
                    end,
                    context,
                    velocity,
                    meta,
                    active,
                    map,
                    rhythm_channel,
                    d,
                );
            &&& after(false).active
            &&& after(false).events.len() == 2
            &&& meta.macro_call_start ==> after(true).events.len() == 2
            &&& !meta.macro_call_start ==> after(true).events.len() == 0 && after(true).active
        }),
{
}

/// A note that is slurred from the one before is no new hit.
pub proof fn slurred_notes_are_no_hits(
    midi_track: usize,
    start: u64,
    end: u64,
    context: DrumContextView,
    velocity: u8,
    meta: NoteMetaView,
    active: bool,
    map: OpllPseudoDrumMapView,
    rhythm_channel: u8,
    d: DiagnosticsView,
)
    requires
        map.hit_grouping.enabled,
        map.hit_grouping.suppress_slur_ampersand,
        meta.slur_from_previous,
    ensures
        opll_pseudo_drum::drum_rendered(
            midi_track,
            start,
            end,
            context,
            velocity,
            meta,
            active,
            map,
            rhythm_channel,
            d,
        ).events.len() == 0,
{
}

/// A note that no rule names is dropped or sounds as it is, and a warning goes with
/// it where one is asked for.
pub proof fn unnamed_notes_follow_the_policy(
    midi_track: usize,
    start: u64,
    end: u64,
    context: DrumContextView,
    velocity: u8,
    meta: NoteMetaView,
    active: bool,
    map: OpllPseudoDrumMapView,
    rhythm_channel: u8,
    d: DiagnosticsView,
)
    requires
        map.output.mode != DrumOutputMode::Passthrough,
        !map.hit_grouping.enabled,
        smfmap::drum_rule_from(map.rules, 0, context) is None,
    ensures
        ({
            let r = opll_pseudo_drum::drum_rendered(
                midi_track,
                start,
                end,
                context,
                velocity,
                meta,
                active,
                map,
                rhythm_channel,
                d,
            );
            let policy = map.output.unmatched;
            &&& r.events.len() == 0
            &&& (r.result == OpllPseudoDrumRenderResult::Dropped) == (policy
                == DrumUnmatchedPolicy::Drop || policy == DrumUnmatchedPolicy::WarnAndDrop)
            &&& (r.result == OpllPseudoDrumRenderResult::Passthrough) == (policy
                == DrumUnmatchedPolicy::Passthrough || policy
                == DrumUnmatchedPolicy::WarnAndPassthrough)
            &&& r.diagnostics.unsupported_commands.len() == d.unsupported_commands.len() + (if policy
                == DrumUnmatchedPolicy::WarnAndDrop || policy
                == DrumUnmatchedPolicy::WarnAndPassthrough {
                1int
            } else {
                0int
            })
        }),
{
}

/// On a track that is played as drums, a note that a rule with a fixed loudness
/// names sounds with that loudness, whatever the volume of the source.
pub proof fn tracks_of_drums_keep_fixed_loudness(
    s: ScoreView,
    v: StageView,
    events: Seq<IrEventView>,
    n: PlayedNote,
    louder: u8,
    st: TrackState,
    map: OpllPseudoDrumMapView,
    rule: OpllPseudoDrumRuleView,
    fixed_loudness: u8,
)
    requires
        v.drums == Some(map),
        map.output.mode == DrumOutputMode::Replace,
        !map.hit_grouping.enabled,
        smfmap::drum_rule_from(
            map.rules,
            0,
            opll_pseudo_drum::drum_context(
                v.id,
                n.tone,
                n.envelope,
                n.note,
                n.meta,
                v.options.smfmap.opll_respect_at_hash_rom_assign,
                v.assignments,
            ),
        ) == Some(rule),
        rule.drum.velocity == DrumVelocity::Fixed(fixed_loudness),
    ensures
        tracks::played(s, v, events, n, st) == tracks::played(
            s,
            v,
            events,
            PlayedNote { velocity: louder, ..n },
            st,
        ),
        tracks::played(s, v, events, n, st) matches Ok(r) && r.0.events.len() == s.events.len() + 2 && (
        r.0.events[s.events.len() as int].kind matches KindView::NoteOn { note, velocity, .. }
            && note == rule.drum.note && velocity == fixed_loudness),
{
}

/// Rules see a note by the letter of the macro that it comes from, the innermost
/// one, by its tone as written and as it sounds, and by its own key.
pub proof fn rules_see_what_is_written(
    track: Seq<char>,
    tone: u8,
    envelope: u8,
    note: u8,
    meta: NoteMetaView,
    assignments: Map<u8, u8>,
    inner: MacroOriginView,
)
    requires
        meta.macro_origin.len() > 0,
        meta.macro_origin.last() == inner,
        meta.source_midi_note == Some(note),
    ensures
        ({
            let c = opll_pseudo_drum::drum_context(
                track,
                Some(tone),
                Some(EnvelopeRef::E(envelope)),
                note,
                meta,
                true,
                assignments,
            );
            &&& c.source_track == track
            &&& c.macro_symbol == inner.symbol
            &&& c.envelope == Some(envelope)
            &&& c.source_tone == Some(tone)
            &&& assignments.contains_key(tone) ==> c.effective_tone == Some(assignments[tone])
            &&& !assignments.contains_key(tone) ==> c.effective_tone == Some(tone)
            &&& c.note_name == meta.note_name
            &&& c.octave == meta.source_octave
            &&& c.source_midi_note == Some(note)
        }),
{
}

} // verus!
