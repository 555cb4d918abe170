//! OPLL tracks that are played as drums.

use std::collections::BTreeMap;

use vstd::prelude::*;

use crate::diagnostics::{Diagnostics, DiagnosticsView};
use crate::ir::{ConversionOptions, EnvelopeRef, NoteMeta, NoteMetaView};
use crate::render::events;
use crate::render::events::{
    KindView, PRI_NOTE_OFF, PRI_NOTE_ON, RenderedEvent, RenderedEventKind, RenderedEventView,
    push_event,
};
use crate::smfmap;
use crate::smfmap::{
    DrumContextView, DrumHitGrouping, DrumOutput, DrumOutputMode, DrumUnmatchedPolicy,
    DrumVelocity, OpllPseudoDrumContext, OpllPseudoDrumMap, OpllPseudoDrumMapView,
};
use crate::text;
use crate::text::copy_text;
use crate::views;

verus! {

/// What became of a note that may be a drum.
#[derive(Clone, Copy, Debug, PartialEq, Eq, Structural)]
pub enum OpllPseudoDrumRenderResult {
    Replaced,
    Added,
    Dropped,
    Passthrough,
}

/// Whether a hit of the current macro has sounded.
#[derive(Clone, Copy, Debug, PartialEq, Eq, Structural)]
pub struct OpllPseudoDrumRenderState {
    pub macro_hit_active: bool,
}

/// Whether the hit of a macro still sounds when a note comes.
pub open spec fn hit_before(g: DrumHitGrouping, active: bool, meta: NoteMetaView) -> bool {
    if g.enabled && meta.macro_call_start {
        false
    } else {
        active
    }
}

/// Whether a note belongs to the hit before it.
pub open spec fn continues_hit(g: DrumHitGrouping, active: bool, meta: NoteMetaView) -> bool {
    g.enabled && (g.suppress_slur_ampersand && meta.slur_from_previous
        || g.suppress_macro_continuation && meta.macro_origin.len() > 0 && hit_before(
        g,
        active,
        meta,
    ))
}

/// Whether the hit of a macro sounds once a note has.
pub open spec fn hit_after(g: DrumHitGrouping, active: bool, meta: NoteMetaView) -> bool {
    hit_before(g, active, meta) || g.enabled && meta.macro_origin.len() > 0
}

impl OpllPseudoDrumRenderState {
    pub fn new() -> (r: Self)
        ensures
            !r.macro_hit_active,
    {
        OpllPseudoDrumRenderState { macro_hit_active: false }
    }

    pub fn reset(&mut self)
        ensures
            !final(self).macro_hit_active,
    {
        self.macro_hit_active = false;
    }

    fn should_suppress(&mut self, map: &OpllPseudoDrumMap, meta: &NoteMeta) -> (r: bool)
        ensures
            r == continues_hit(map.hit_grouping, old(self).macro_hit_active, meta.deep_view()),
            final(self).macro_hit_active == hit_before(
                map.hit_grouping,
                old(self).macro_hit_active,
                meta.deep_view(),
            ),
    {
        if !map.hit_grouping.enabled {
            return false;
        }
        if meta.macro_call_start {
            self.macro_hit_active = false;
        }
        if map.hit_grouping.suppress_slur_ampersand && meta.slur_from_previous {
            return true;
        }
        map.hit_grouping.suppress_macro_continuation && meta.macro_origin.len() > 0
            && self.macro_hit_active
    }

    fn mark_emitted(&mut self, map: &OpllPseudoDrumMap, meta: &NoteMeta)
        ensures
            final(self).macro_hit_active == (old(self).macro_hit_active || map.hit_grouping.enabled
                && meta.deep_view().macro_origin.len() > 0),
    {
        if map.hit_grouping.enabled && meta.macro_origin.len() > 0 {
            self.macro_hit_active = true;
        }
    }
}

/// The tone that sounds for a tone of the source.
pub open spec fn effective_tone(tone: u8, respect: bool, assignments: Map<u8, u8>) -> u8 {
    if respect && assignments.contains_key(tone) {
        assignments[tone]
    } else {
        tone
    }
}

pub fn find_effective_tone(tone: u8, respect: bool, assignments: &BTreeMap<u8, u8>) -> (r: u8)
    ensures
        r == effective_tone(tone, respect, assignments@),
{
    if respect {
        match assignments.get(&tone) {
            Some(t) => *t,
            None => tone,
        }
    } else {
        tone
    }
}

/// A note as the drum rules see it.
pub open spec fn drum_context(
    track: Seq<char>,
    tone: Option<u8>,
    envelope: Option<EnvelopeRef>,
    note: u8,
    meta: NoteMetaView,
    respect: bool,
    assignments: Map<u8, u8>,
) -> DrumContextView {
    DrumContextView {
        source_track: track,
        macro_symbol: if meta.macro_origin.len() > 0 {
            meta.macro_origin.last().symbol
        } else {
            None
        },
        envelope: match envelope {
            Some(r) => Some(smfmap::envelope_id(r)),
            None => None,
        },
        source_tone: tone,
        effective_tone: match tone {
            Some(t) => Some(effective_tone(t, respect, assignments)),
            None => None,
        },
        note_name: meta.note_name,
        octave: meta.source_octave,
        source_midi_note: match meta.source_midi_note {
            Some(n) => Some(n),
            None => Some(note),
        },
    }
}

/// How loud a drum is.
pub open spec fn drum_loudness(velocity: DrumVelocity, source: u8) -> u8 {
    match velocity {
        DrumVelocity::SourceVolume | DrumVelocity::SourceOrTone => source,
        DrumVelocity::Fixed(value) => value,
    }
}

/// The channel of a drum map.
pub open spec fn drum_channel(output: DrumOutput, rhythm_channel: u8) -> u8 {
    text::min_int(
        match output.midi_channel {
            Some(c) => c as int,
            None => rhythm_channel as int,
        },
        15,
    ) as u8
}

pub fn find_drum_channel(output: &DrumOutput, rhythm_channel: u8) -> (r: u8)
    ensures
        r == drum_channel(*output, rhythm_channel),
        r <= 15,
{
    let c: u8 = match output.midi_channel {
        Some(c) => c,
        None => rhythm_channel,
    };
    if c <= 15 {
        c
    } else {
        15
    }
}

/// A drum from its start to its end.
pub open spec fn drum_events(
    midi_track: usize,
    start: u64,
    end: u64,
    channel: u8,
    note: u8,
    velocity: u8,
) -> Seq<RenderedEventView> {
    seq![
        events::event(midi_track, start, PRI_NOTE_ON, KindView::NoteOn { channel, note, velocity }),
        events::event(midi_track, end, PRI_NOTE_OFF, KindView::NoteOff { channel, note, velocity: 0 }),
    ]
}

pub fn push_drum(
    events: &mut Vec<RenderedEvent>,
    midi_track: usize,
    start_tick: u64,
    end_tick: u64,
    channel: u8,
    note: u8,
    velocity: u8,
)
    ensures
        views::all_views(final(events)@) == views::all_views(old(events)@) + drum_events(
            midi_track,
            start_tick,
            end_tick,
            channel,
            note,
            velocity,
        ),
{
    push_event(
        events,
        midi_track,
        start_tick,
        PRI_NOTE_ON,
        RenderedEventKind::NoteOn { channel, note, velocity },
    );
    push_event(
        events,
        midi_track,
        end_tick,
        PRI_NOTE_OFF,
        RenderedEventKind::NoteOff { channel, note, velocity: 0 },
    );
    assert(views::all_views(events@) =~= views::all_views(old(events)@) + drum_events(
        midi_track,
        start_tick,
        end_tick,
        channel,
        note,
        velocity,
    ));
}

/// What a note leaves behind: what became of it, whether a hit sounds, its
/// events and the diagnostics.
#[verifier::ext_equal]
pub struct DrumOutcome {
    pub result: OpllPseudoDrumRenderResult,
    pub active: bool,
    pub events: Seq<RenderedEventView>,
    pub diagnostics: DiagnosticsView,
}

/// What becomes of a note that the rules do not name.
pub open spec fn unmatched_drum(
    policy: DrumUnmatchedPolicy,
    active: bool,
    track: Seq<char>,
    diagnostics: DiagnosticsView,
) -> DrumOutcome {
    DrumOutcome {
        result: match policy {
            DrumUnmatchedPolicy::WarnAndDrop | DrumUnmatchedPolicy::Drop =>
            OpllPseudoDrumRenderResult::Dropped,
            DrumUnmatchedPolicy::Passthrough | DrumUnmatchedPolicy::WarnAndPassthrough =>
            OpllPseudoDrumRenderResult::Passthrough,
        },
        active,
        events: Seq::empty(),
        diagnostics: match policy {
            DrumUnmatchedPolicy::WarnAndDrop | DrumUnmatchedPolicy::WarnAndPassthrough =>
            diagnostics.with_unsupported(
                None,
                Some(track),
                "opll pseudo drum unmatched note"@,
                "opll_pseudo_drum_map unmatched rule"@,
            ),
            _ => diagnostics,
        },
    }
}

/// A note of an OPLL track that is played as drums.
pub open spec fn drum_rendered(
    midi_track: usize,
    start: u64,
    end: u64,
    context: DrumContextView,
    velocity: u8,
    meta: NoteMetaView,
    active: bool,
    map: OpllPseudoDrumMapView,
    rhythm_channel: u8,
    diagnostics: DiagnosticsView,
) -> DrumOutcome {
    let g = map.hit_grouping;
    if map.output.mode == DrumOutputMode::Passthrough {
        DrumOutcome {
            result: OpllPseudoDrumRenderResult::Passthrough,
            active,
            events: Seq::empty(),
            diagnostics,
        }
    } else if continues_hit(g, active, meta) {
        DrumOutcome {
            result: if map.output.mode == DrumOutputMode::Replace {
                OpllPseudoDrumRenderResult::Dropped
            } else {
                OpllPseudoDrumRenderResult::Passthrough
            },
            active: hit_before(g, active, meta),
            events: Seq::empty(),
            diagnostics,
        }
    } else {
        match smfmap::drum_rule_from(map.rules, 0, context) {
            Some(rule) => DrumOutcome {
                result: if map.output.mode == DrumOutputMode::Replace {
                    OpllPseudoDrumRenderResult::Replaced
                } else {
                    OpllPseudoDrumRenderResult::Added
                },
                active: hit_after(g, active, meta),
                events: drum_events(
                    midi_track,
                    start,
                    end,
                    drum_channel(map.output, rhythm_channel),
                    rule.drum.note,
                    drum_loudness(rule.drum.velocity, velocity),
                ),
                diagnostics,
            },
            None => unmatched_drum(
                map.output.unmatched,
                hit_before(g, active, meta),
                context.source_track,
                diagnostics,
            ),
        }
    }
}

/// Renders a note of an OPLL track that is played as drums.
pub fn render_opll_pseudo_drum_note(
    events: &mut Vec<RenderedEvent>,
    midi_track: usize,
    start_tick: u64,
    end_tick: u64,
    source_track: &str,
    source_tone: Option<u8>,
    envelope: Option<EnvelopeRef>,
    source_midi_note: u8,
    source_velocity: u8,
    meta: &NoteMeta,
    state: &mut OpllPseudoDrumRenderState,
    map: &OpllPseudoDrumMap,
    options: &ConversionOptions,
    assignments: &BTreeMap<u8, u8>,
    diagnostics: &mut Diagnostics,
) -> (r: OpllPseudoDrumRenderResult)
    ensures
        ({
            let o = options.deep_view();
            let expected = drum_rendered(
                midi_track,
                start_tick,
                end_tick,
                drum_context(
                    source_track@,
                    source_tone,
                    envelope,
                    source_midi_note,
                    meta.deep_view(),
                    o.smfmap.opll_respect_at_hash_rom_assign,
                    assignments@,
                ),
                source_velocity,
                meta.deep_view(),
                old(state).macro_hit_active,
                map.deep_view(),
                o.smfmap.rhythm_channel,
                old(diagnostics).deep_view(),
            );
            &&& r == expected.result
            &&& final(state).macro_hit_active == expected.active
            &&& views::all_views(final(events)@) == views::all_views(old(events)@) + expected.events
            &&& final(diagnostics).deep_view() == expected.diagnostics
        }),
{
    let ghost before = views::all_views(events@);
    assert(before + Seq::<RenderedEventView>::empty() =~= before);
    if map.output.mode == DrumOutputMode::Passthrough {
        return OpllPseudoDrumRenderResult::Passthrough;
    }
    if state.should_suppress(map, meta) {
        return if map.output.mode == DrumOutputMode::Replace {
            OpllPseudoDrumRenderResult::Dropped
        } else {
            OpllPseudoDrumRenderResult::Passthrough
        };
    }
    let respect = options.smfmap.opll_respect_at_hash_rom_assign;
    let effective = match source_tone {
        Some(tone) => Some(find_effective_tone(tone, respect, assignments)),
        None => None,
    };
    let envelope_number = match envelope {
        Some(EnvelopeRef::E(id)) => Some(id),
        Some(EnvelopeRef::R(id)) => Some(id),
        None => None,
    };
    let macro_symbol = if meta.macro_origin.len() > 0 {
        meta.macro_origin[meta.macro_origin.len() - 1].symbol
    } else {
        None
    };
    let context = OpllPseudoDrumContext {
        source_track,
        macro_symbol,
        envelope: envelope_number,
        source_tone,
        effective_tone: effective,
        note_name: meta.note_name,
        octave: meta.source_octave,
        source_midi_note: match meta.source_midi_note {
            Some(n) => Some(n),
            None => Some(source_midi_note),
        },
    };
    assert(context.deep_view() =~= drum_context(
        source_track@,
        source_tone,
        envelope,
        source_midi_note,
        meta.deep_view(),
        respect,
        assignments@,
    ));
    if let Some(rule) = options.smfmap.opll_pseudo_drum_for_note(map, &context) {
        state.mark_emitted(map, meta);
        let channel = find_drum_channel(&map.output, options.smfmap.rhythm_channel);
        let velocity: u8 = match rule.drum.velocity {
            DrumVelocity::SourceVolume | DrumVelocity::SourceOrTone => source_velocity,
            DrumVelocity::Fixed(value) => value,
        };
        push_drum(events, midi_track, start_tick, end_tick, channel, rule.drum.note, velocity);
        return if map.output.mode == DrumOutputMode::Replace {
            OpllPseudoDrumRenderResult::Replaced
        } else {
            OpllPseudoDrumRenderResult::Added
        };
    }
    if map.output.unmatched == DrumUnmatchedPolicy::WarnAndDrop || map.output.unmatched
        == DrumUnmatchedPolicy::WarnAndPassthrough {
        diagnostics.add_unsupported(
            None,
            Some(copy_text(source_track)),
            "opll pseudo drum unmatched note",
            "opll_pseudo_drum_map unmatched rule",
        );
    }
    if map.output.unmatched == DrumUnmatchedPolicy::WarnAndDrop || map.output.unmatched
        == DrumUnmatchedPolicy::Drop {
        OpllPseudoDrumRenderResult::Dropped
    } else {
        OpllPseudoDrumRenderResult::Passthrough
    }
}

} // verus!
