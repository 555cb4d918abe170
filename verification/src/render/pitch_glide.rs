//! Pitch glides as pitch bend.

use vstd::prelude::*;

use crate::diagnostics::{Diagnostics, DiagnosticsView};
use crate::fraction;
use crate::ir::{
    ConversionOptions, IrEvent, IrEventView, NoteMeta, NoteMetaView, PitchGlideMeta,
    PitchGlideMetaView, TrackIr,
};
use crate::render::events;
use crate::render::events::{
    KindView, PRI_PITCH_BEND, PRI_RPN_NRPN, RenderedEvent, RenderedEventKind, RenderedEventView,
    find_end_tick, find_tick, push_event, tempo_at_tick,
};
use crate::render::rounding;
use crate::render::rounding::count_glide_steps;
use crate::smfmap::{PitchGlideConfig, PitchGlideRangePolicy};
use crate::text;
use crate::text::{clamp_i64, copy_text, signed_text};
use crate::views;
use crate::views::push_viewed;

verus! {

// ---------------------------------------------------------------------------
// Slurred groups
// ---------------------------------------------------------------------------
/// A note of a slurred group.
#[derive(Clone, Copy, Debug)]
pub struct PitchGlideGroupSegment<'a> {
    pub event_index: usize,
    pub start_tick: u64,
    pub end_tick: u64,
    pub note: u8,
    pub meta: &'a NoteMeta,
}

#[verifier::ext_equal]
pub struct SegmentView {
    pub event_index: int,
    pub start_tick: u64,
    pub end_tick: u64,
    pub note: u8,
    pub meta: NoteMetaView,
}

impl<'a> DeepView for PitchGlideGroupSegment<'a> {
    type V = SegmentView;

    open spec fn deep_view(&self) -> SegmentView {
        SegmentView {
            event_index: self.event_index as int,
            start_tick: self.start_tick,
            end_tick: self.end_tick,
            note: self.note,
            meta: self.meta.deep_view(),
        }
    }
}

/// The notes from `index` on that are slurred to the note at `start`.
pub open spec fn slurred_from(events: Seq<IrEventView>, start: int, index: int, ppq: u16) -> Seq<
    SegmentView,
>
    decreases events.len() - index,
{
    if index < 0 || index >= events.len() {
        Seq::empty()
    } else {
        match events[index] {
            IrEventView::Note { start: at, duration, note, meta, .. } => if index != start
                && !meta.slur_from_previous {
                Seq::empty()
            } else {
                let first = SegmentView {
                    event_index: index,
                    start_tick: events::tick_at(at, ppq),
                    end_tick: events::end_tick_of(at, duration, ppq),
                    note,
                    meta,
                };
                if meta.slur_to_next {
                    seq![first] + slurred_from(events, start, index + 1, ppq)
                } else {
                    seq![first]
                }
            },
            _ => Seq::empty(),
        }
    }
}

/// Whether a note of a group glides.
pub open spec fn glides(group: Seq<SegmentView>) -> bool {
    exists|k: int| 0 <= k < group.len() && (#[trigger] group[k]).meta.pitch_glide is Some
}

/// The group of slurred notes that begins at `start`, if one of them glides.
pub open spec fn glide_group(events: Seq<IrEventView>, start: int, ppq: u16) -> Option<
    Seq<SegmentView>,
> {
    let group = slurred_from(events, start, start, ppq);
    if group.len() > 1 && glides(group) {
        Some(group)
    } else {
        None
    }
}

pub open spec fn group_view<'a>(r: Option<Vec<PitchGlideGroupSegment<'a>>>) -> Option<
    Seq<SegmentView>,
> {
    match r {
        Some(g) => Some(views::all_views(g@)),
        None => None,
    }
}

/// The group of slurred notes that begins at an event, if one of them glides.
pub fn collect_pitch_glide_slur_group<'a>(
    events: &'a [IrEvent],
    start_index: usize,
    ppq: u16,
) -> (r: Option<Vec<PitchGlideGroupSegment<'a>>>)
    ensures
        group_view(r) == glide_group(views::all_views(events@), start_index as int, ppq),
{
    let ghost all = views::all_views(events@);
    let mut index: usize = start_index;
    let mut group: Vec<PitchGlideGroupSegment<'a>> = Vec::new();
    let mut has_pitch_glide = false;
    let mut more = true;
    assert(views::all_views(group@) =~= Seq::empty());
    assert(slurred_from(all, start_index as int, start_index as int, ppq) =~= views::all_views(group@)
        + slurred_from(all, start_index as int, start_index as int, ppq));
    while more && index < events.len()
        invariant
            start_index <= index,
            more ==> index <= events@.len() || group@.len() == 0,
            all == views::all_views(events@),
            slurred_from(all, start_index as int, start_index as int, ppq) == views::all_views(group@)
                + (if more {
                slurred_from(all, start_index as int, index as int, ppq)
            } else {
                Seq::empty()
            }),
            has_pitch_glide == glides(views::all_views(group@)),
        decreases events@.len() - index, (if more {
            1int
        } else {
            0
        }),
    {
        assert(all[index as int] == events@[index as int].deep_view());
        let ghost before = views::all_views(group@);
        match &events[index] {
            IrEvent::Note { start_steps, duration_steps, note, meta, .. } => {
                if index != start_index && !meta.slur_from_previous {
                    more = false;
                } else {
                    let segment = PitchGlideGroupSegment {
                        event_index: index,
                        start_tick: find_tick(*start_steps, ppq),
                        end_tick: find_end_tick(*start_steps, *duration_steps, ppq),
                        note: *note,
                        meta,
                    };
                    has_pitch_glide = has_pitch_glide || meta.pitch_glide.is_some();
                    push_viewed(&mut group, segment);
                    proof {
                        let after = views::all_views(group@);
                        assert(after[before.len() as int] == segment.deep_view());
                        assert forall|k: int| 0 <= k < before.len() implies after[k]
                            == before[k] by {}
                        if glides(before) {
                            let k = choose|k: int|
                                0 <= k < before.len() && (
                                #[trigger] before[k]).meta.pitch_glide is Some;
                            assert(after[k].meta.pitch_glide is Some);
                        }
                        if glides(after) {
                            let k = choose|k: int|
                                0 <= k < after.len() && (
                                #[trigger] after[k]).meta.pitch_glide is Some;
                            if k < before.len() {
                                assert(before[k].meta.pitch_glide is Some);
                            }
                        }
                        if meta.slur_to_next {
                            assert(before + (seq![segment.deep_view()] + slurred_from(
                                all,
                                start_index as int,
                                index + 1,
                                ppq,
                            )) =~= after + slurred_from(all, start_index as int, index + 1, ppq));
                        } else {
                            assert(before + seq![segment.deep_view()] =~= after + Seq::empty());
                        }
                    }
                    if meta.slur_to_next {
                        index += 1;
                    } else {
                        more = false;
                    }
                }
            },
            _ => {
                more = false;
            },
        }
    }
    assert(views::all_views(group@) + Seq::<SegmentView>::empty() =~= views::all_views(group@));
    if group.len() > 1 && has_pitch_glide {
        Some(group)
    } else {
        None
    }
}

// ---------------------------------------------------------------------------
// The range of the bend wheel
// ---------------------------------------------------------------------------
pub open spec fn control(midi_track: usize, tick: u64, priority: u8, channel: u8, controller: u8,
    value: u8) -> RenderedEventView {
    events::event(midi_track, tick, priority, KindView::ControlChange { channel, controller, value })
}

/// The events that set the range of the bend wheel.
pub open spec fn range_setup(
    midi_track: usize,
    channel: u8,
    semitones: u8,
    cents: u8,
    emit_null: bool,
) -> Seq<RenderedEventView> {
    seq![
        control(midi_track, 0, PRI_RPN_NRPN, channel, 101, 0),
        control(midi_track, 0, PRI_RPN_NRPN, channel, 100, 0),
        control(midi_track, 0, PRI_RPN_NRPN, channel, 6, text::min_int(semitones as int, 127) as u8),
        control(midi_track, 0, PRI_RPN_NRPN, channel, 38, text::min_int(cents as int, 127) as u8),
    ] + (if emit_null {
        seq![
            control(midi_track, 0, PRI_RPN_NRPN, channel, 101, 127),
            control(midi_track, 0, PRI_RPN_NRPN, channel, 100, 127),
        ]
    } else {
        Seq::empty()
    }) + seq![events::centre(midi_track, 0, channel)]
}

fn at_most_127(v: u8) -> (r: u8)
    ensures
        r == text::min_int(v as int, 127) as u8,
{
    if v <= 127 {
        v
    } else {
        127
    }
}

pub fn push_control(
    events: &mut Vec<RenderedEvent>,
    midi_track: usize,
    tick: u64,
    priority: u8,
    channel: u8,
    controller: u8,
    value: u8,
)
    ensures
        views::all_views(final(events)@) == views::all_views(old(events)@).push(
            control(midi_track, tick, priority, channel, controller, value),
        ),
{
    push_event(
        events,
        midi_track,
        tick,
        priority,
        RenderedEventKind::ControlChange { channel, controller, value },
    );
}

pub fn push_centre(events: &mut Vec<RenderedEvent>, midi_track: usize, tick: u64, channel: u8)
    ensures
        views::all_views(final(events)@) == views::all_views(old(events)@).push(
            events::centre(midi_track, tick, channel),
        ),
{
    push_event(
        events,
        midi_track,
        tick,
        PRI_PITCH_BEND,
        RenderedEventKind::PitchBend { channel, value: 8192 },
    );
}

/// Sets the range of the bend wheel at the start of a track.
pub fn emit_pitch_bend_range_setup(
    events: &mut Vec<RenderedEvent>,
    midi_track: usize,
    channel: u8,
    semitones: u8,
    cents: u8,
    emit_null: bool,
)
    ensures
        views::all_views(final(events)@) == views::all_views(old(events)@) + range_setup(
            midi_track,
            channel,
            semitones,
            cents,
            emit_null,
        ),
{
    push_control(events, midi_track, 0, PRI_RPN_NRPN, channel, 101, 0);
    push_control(events, midi_track, 0, PRI_RPN_NRPN, channel, 100, 0);
    push_control(events, midi_track, 0, PRI_RPN_NRPN, channel, 6, at_most_127(semitones));
    push_control(events, midi_track, 0, PRI_RPN_NRPN, channel, 38, at_most_127(cents));
    if emit_null {
        push_control(events, midi_track, 0, PRI_RPN_NRPN, channel, 101, 127);
        push_control(events, midi_track, 0, PRI_RPN_NRPN, channel, 100, 127);
    }
    push_centre(events, midi_track, 0, channel);
    assert(views::all_views(events@) =~= views::all_views(old(events)@) + range_setup(
        midi_track,
        channel,
        semitones,
        cents,
        emit_null,
    ));
}

pub open spec fn larger(a: int, b: int) -> int {
    if a >= b {
        a
    } else {
        b
    }
}

/// The cents between two notes.
pub open spec fn cents_between(a: u8, b: u8) -> int {
    fraction::abs(a - b) as int * 100
}

/// The cents from a note to where its glide leads.
pub open spec fn glide_cents(origin: u8, meta: NoteMetaView) -> int {
    match meta.pitch_glide {
        Some(g) => cents_between(g.target_midi_note, origin),
        None => 0,
    }
}

/// The widest glide among the first `n` events.
pub open spec fn widest_glide(events: Seq<IrEventView>, n: int) -> int
    decreases n,
{
    if n <= 0 || n > events.len() {
        0
    } else {
        let before = widest_glide(events, n - 1);
        match events[n - 1] {
            IrEventView::Note { note, meta, .. } => larger(before, glide_cents(note, meta)),
            _ => before,
        }
    }
}

/// How far the slurred notes from `index` on lead from the first note of the
/// group, counted from the first glide on.
pub open spec fn widest_from(
    events: Seq<IrEventView>,
    start: int,
    origin: u8,
    index: int,
    gliding: bool,
    widest: int,
) -> int
    decreases events.len() - index,
{
    if index < 0 || index >= events.len() {
        widest
    } else {
        match events[index] {
            IrEventView::Note { note, meta, .. } => if index != start && !meta.slur_from_previous {
                widest
            } else {
                let glide = gliding || meta.pitch_glide is Some;
                let next = if glide {
                    larger(
                        larger(widest, cents_between(note, origin)),
                        glide_cents(origin, meta),
                    )
                } else {
                    widest
                };
                if meta.slur_to_next {
                    widest_from(events, start, origin, index + 1, glide, next)
                } else {
                    next
                }
            },
            _ => widest,
        }
    }
}

/// The widest way of any slurred group that begins among the first `n` events.
pub open spec fn widest_group(events: Seq<IrEventView>, n: int) -> int
    decreases n,
{
    if n <= 0 || n > events.len() {
        widest_glide(events, events.len() as int)
    } else {
        let before = widest_group(events, n - 1);
        match events[n - 1] {
            IrEventView::Note { note, meta, .. } => if meta.slur_to_next {
                widest_from(events, n - 1, note, n - 1, false, before)
            } else {
                before
            },
            _ => before,
        }
    }
}

/// The bend range of a track: the configured one, or one that holds every glide.
pub open spec fn glide_range(events: Seq<IrEventView>, c: PitchGlideConfig) -> (u8, u8) {
    let configured = c.pitch_bend_range_semitones * 100 + c.pitch_bend_range_cents;
    let widest = widest_group(events, events.len() as int);
    if c.range_policy != PitchGlideRangePolicy::AutoExpandTo48 || widest <= configured {
        (c.pitch_bend_range_semitones, c.pitch_bend_range_cents)
    } else {
        (text::clamp_int((widest + 99) / 100, 1, 48) as u8, 0)
    }
}

fn find_cents_between(a: u8, b: u8) -> (r: i32)
    ensures
        r == cents_between(a, b),
        0 <= r <= 25500,
{
    if a >= b {
        (a - b) as i32 * 100
    } else {
        (b - a) as i32 * 100
    }
}

fn find_glide_cents(origin: u8, meta: &NoteMeta) -> (r: i32)
    ensures
        r == glide_cents(origin, meta.deep_view()),
        0 <= r <= 25500,
{
    match &meta.pitch_glide {
        Some(g) => find_cents_between(g.target_midi_note, origin),
        None => 0,
    }
}

fn larger_of(a: i32, b: i32) -> (r: i32)
    ensures
        r == larger(a as int, b as int),
{
    if a >= b {
        a
    } else {
        b
    }
}

fn find_widest_glide(events: &[IrEvent]) -> (r: i32)
    ensures
        r == widest_glide(views::all_views(events@), events@.len() as int),
        0 <= r <= 25500,
{
    let ghost all = views::all_views(events@);
    let mut widest: i32 = 0;
    let mut i: usize = 0;
    while i < events.len()
        invariant
            i <= events@.len(),
            all == views::all_views(events@),
            widest == widest_glide(all, i as int),
            0 <= widest <= 25500,
        decreases events@.len() - i,
    {
        assert(all[i as int] == events@[i as int].deep_view());
        if let IrEvent::Note { note, meta, .. } = &events[i] {
            widest = larger_of(widest, find_glide_cents(*note, meta));
        }
        i += 1;
    }
    widest
}

fn find_widest_from(events: &[IrEvent], start: usize, origin: u8, before: i32) -> (r: i32)
    requires
        0 <= before <= 25500,
    ensures
        r == widest_from(
            views::all_views(events@),
            start as int,
            origin,
            start as int,
            false,
            before as int,
        ),
        0 <= r <= 25500,
{
    let ghost all = views::all_views(events@);
    let ghost expected = widest_from(all, start as int, origin, start as int, false, before as int);
    let mut index: usize = start;
    let mut gliding = false;
    let mut widest: i32 = before;
    while index < events.len()
        invariant
            start <= index,
            all == views::all_views(events@),
            0 <= widest <= 25500,
            expected == widest_from(
                all,
                start as int,
                origin,
                start as int,
                false,
                before as int,
            ),
            expected == widest_from(
                all,
                start as int,
                origin,
                index as int,
                gliding,
                widest as int,
            ),
        decreases events@.len() - index,
    {
        assert(all[index as int] == events@[index as int].deep_view());
        match &events[index] {
            IrEvent::Note { note, meta, .. } => {
                if index != start && !meta.slur_from_previous {
                    return widest;
                }
                gliding = gliding || meta.pitch_glide.is_some();
                if gliding {
                    widest = larger_of(
                        larger_of(widest, find_cents_between(*note, origin)),
                        find_glide_cents(origin, meta),
                    );
                }
                if !meta.slur_to_next {
                    return widest;
                }
                index += 1;
            },
            _ => {
                return widest;
            },
        }
    }
    widest
}

/// The bend range of a track.
pub fn effective_pitch_glide_range(track: &TrackIr, options: &ConversionOptions) -> (r: (u8, u8))
    ensures
        r == glide_range(track.deep_view().events, options.deep_view().smfmap.pitch_glide),
{
    let config = options.smfmap.pitch_glide;
    if config.range_policy != PitchGlideRangePolicy::AutoExpandTo48 {
        return (config.pitch_bend_range_semitones, config.pitch_bend_range_cents);
    }
    let ghost all = views::all_views(track.events@);
    let configured: i32 = config.pitch_bend_range_semitones as i32 * 100
        + config.pitch_bend_range_cents as i32;
    let mut widest: i32 = find_widest_glide(track.events.as_slice());
    let mut i: usize = 0;
    while i < track.events.len()
        invariant
            i <= track.events@.len(),
            all == views::all_views(track.events@),
            widest == widest_group(all, i as int),
            0 <= widest <= 25500,
        decreases track.events@.len() - i,
    {
        assert(all[i as int] == track.events@[i as int].deep_view());
        if let IrEvent::Note { note, meta, .. } = &track.events[i] {
            if meta.slur_to_next {
                widest = find_widest_from(track.events.as_slice(), i, *note, widest);
            }
        }
        i += 1;
    }
    if widest <= configured {
        return (config.pitch_bend_range_semitones, config.pitch_bend_range_cents);
    }
    let semitones: i64 = clamp_i64((widest as i64 + 99) / 100, 1, 48);
    (semitones as u8, 0)
}

// ---------------------------------------------------------------------------
// Curves
// ---------------------------------------------------------------------------
/// The position of the bend wheel, nearest to its share of the range.
pub open spec fn bend_value(cents: int, range: int) -> u16 {
    let share = (2 * fraction::abs(cents) * 8192 + range) / (2 * range);
    (8192 + text::clamp_int(
        if cents < 0 {
            -share
        } else {
            share
        },
        -8192,
        8191,
    )) as u16
}

/// A quotient without its fraction.
pub open spec fn truncated(num: int, den: int) -> int {
    if num >= 0 {
        num / den
    } else {
        -((-num) / den)
    }
}

/// A curve of the bend wheel.
#[verifier::ext_equal]
pub struct Curve {
    pub midi_track: usize,
    pub channel: u8,
    pub start: u64,
    pub span: u64,
    pub from: int,
    pub to: int,
    pub steps: int,
    pub range: int,
    pub min_delta: int,
}

impl Curve {
    /// Where the glide is at a step.
    pub open spec fn cents(self, index: int) -> int {
        self.from + truncated((self.to - self.from) * index, self.steps)
    }

    /// The tick of a step.
    pub open spec fn tick(self, index: int) -> u64 {
        (self.start + self.span * index / self.steps) as u64
    }
}

/// The points of a curve from step `index` to step `end`: a step is left out
/// when it moves too little, unless it is the first or the last of the curve,
/// and when it repeats the point before it.
pub open spec fn curve_points(
    c: Curve,
    index: int,
    end: int,
    last_cents: Option<int>,
    last_point: Option<(u64, u16)>,
) -> Seq<RenderedEventView>
    decreases end - index + 1,
{
    if index > end {
        Seq::empty()
    } else {
        let cents = c.cents(index);
        let point = (c.tick(index), bend_value(cents, c.range));
        let near = match last_cents {
            Some(last) => fraction::abs(cents - last) < c.min_delta,
            None => false,
        };
        if index != 0 && index != c.steps && near || last_point == Some(point) {
            curve_points(c, index + 1, end, last_cents, last_point)
        } else {
            seq![
                events::event(
                    c.midi_track,
                    point.0,
                    PRI_PITCH_BEND,
                    KindView::PitchBend { channel: c.channel, value: point.1 },
                ),
            ] + curve_points(c, index + 1, end, Some(cents), Some(point))
        }
    }
}

/// The events and diagnostics that a glide leaves behind, and what stopped it.
#[verifier::ext_equal]
pub struct Bent {
    pub events: Seq<RenderedEventView>,
    pub diagnostics: DiagnosticsView,
    pub error: Option<Seq<char>>,
}

/// Where a glide is rendered and how.
#[verifier::ext_equal]
pub struct BendTargetView {
    pub midi_track: usize,
    pub channel: u8,
    pub semitones: u8,
    pub cents: u8,
    pub tempo: Seq<(u64, u32)>,
    pub ppq: u16,
    pub track: Seq<char>,
    pub config: PitchGlideConfig,
}

impl BendTargetView {
    /// The cents from the middle of the wheel to its end.
    pub open spec fn range(self) -> int {
        larger(self.semitones as int, 1) * 100 + self.cents
    }
}

pub open spec fn range_error(track: Seq<char>, source: Seq<char>, needed: int, range: int) -> Seq<
    char,
> {
    "pitch_glide range exceeded on track "@ + track + ": "@ + source + " requires "@
        + text::signed_decimal(needed) + " cents, configured range is "@ + text::signed_decimal(range)
        + " cents"@
}

/// How many steps the curve of a segment has.
pub open spec fn segment_steps(g: BendTargetView, start: u64, end: u64) -> int {
    let duration = if end > start {
        (end - start) as u64
    } else {
        1u64
    };
    let bpm = events::tempo_at(g.tempo, g.tempo.len() as int, start);
    larger(
        rounding::glide_steps(
            duration,
            g.ppq,
            if bpm == 0 {
                1
            } else {
                bpm
            },
            if g.config.curve.event_rate_hz == 0 {
                1
            } else {
                g.config.curve.event_rate_hz
            },
        ) as int,
        1,
    )
}

/// The curve of a segment.
pub open spec fn segment_curve(g: BendTargetView, start: u64, end: u64, from: int, to: int) -> Curve {
    Curve {
        midi_track: g.midi_track,
        channel: g.channel,
        start,
        span: if end > 0 && end - 1 > start {
            (end - 1 - start) as u64
        } else {
            0u64
        },
        from,
        to,
        steps: segment_steps(g, start, end),
        range: g.range(),
        min_delta: g.config.curve.min_delta_cents as int,
    }
}

/// A glide from one distance to another, both in cents from the sounding note.
pub open spec fn bent_segment(
    g: BendTargetView,
    start: u64,
    end: u64,
    from: int,
    to: int,
    source: Seq<char>,
    diagnostics: DiagnosticsView,
) -> Bent {
    let needed = larger(fraction::abs(from) as int, fraction::abs(to) as int);
    let exceeded = needed > g.range();
    if exceeded && g.config.range_policy == PitchGlideRangePolicy::ErrorIfExceeded {
        Bent {
            events: Seq::empty(),
            diagnostics,
            error: Some(range_error(g.track, source, needed, g.range())),
        }
    } else {
        let curve = segment_curve(g, start, end, from, to);
        let with_start = g.config.curve.include_start_point;
        let reset = g.config.reset.before_next_note_on && !with_start && from == 0;
        Bent {
            events: (if reset {
                seq![events::centre(g.midi_track, start, g.channel)]
            } else {
                Seq::empty()
            }) + curve_points(
                curve,
                if with_start {
                    0
                } else {
                    1
                },
                if g.config.curve.include_end_point {
                    curve.steps
                } else {
                    curve.steps - 1
                },
                None,
                None,
            ),
            diagnostics: if exceeded {
                diagnostics.with_unsupported(
                    None,
                    Some(g.track),
                    source,
                    "pitch_glide: out of range clamped to configured pitch bend range"@,
                )
            } else {
                diagnostics
            },
            error: None,
        }
    }
}

fn pitch_bend_value_from_cents(delta_cents: i64, range_cents: i64) -> (r: u16)
    requires
        -0x1_0000_0000 <= delta_cents <= 0x1_0000_0000,
        1 <= range_cents <= 0x1_0000,
    ensures
        r == bend_value(delta_cents as int, range_cents as int),
{
    let distance: i64 = if delta_cents < 0 {
        -delta_cents
    } else {
        delta_cents
    };
    let share: i64 = (2 * distance * 8192 + range_cents) / (2 * range_cents);
    assert(0 <= share <= 2 * distance * 8192 + range_cents) by (nonlinear_arith)
        requires
            share == (2 * distance * 8192 + range_cents) / (2 * range_cents),
            range_cents >= 1,
            distance >= 0,
    ;
    let signed: i64 = if delta_cents < 0 {
        -share
    } else {
        share
    };
    (8192 + clamp_i64(signed, -8192, 8191)) as u16
}

/// A curve stays between its ends, in pitch and in time.
pub proof fn curve_stays_between(c: Curve, index: int)
    requires
        0 <= index <= c.steps,
        c.steps > 0,
    ensures
        c.from <= c.to ==> c.from <= c.cents(index) <= c.to,
        c.from >= c.to ==> c.to <= c.cents(index) <= c.from,
        0 <= c.span * index / c.steps <= c.span,
{
    let d = c.to - c.from;
    let steps = c.steps;
    let span = c.span as int;
    if d >= 0 {
        assert(0 <= d * index && (d * index) / steps <= d && 0 <= (d * index) / steps)
            by (nonlinear_arith)
            requires
                d >= 0,
                0 <= index <= steps,
                steps > 0,
        ;
    } else {
        let e = -d;
        assert(0 <= e * index && (e * index) / steps <= e && 0 <= (e * index) / steps)
            by (nonlinear_arith)
            requires
                e > 0,
                0 <= index <= steps,
                steps > 0,
        ;
        assert(d * index == -(e * index)) by (nonlinear_arith)
            requires
                e == -d,
        ;
    }
    assert(0 <= (span * index) / steps <= span) by (nonlinear_arith)
        requires
            span >= 0,
            0 <= index <= steps,
            steps > 0,
    ;
}

fn step_cents(from: i64, to: i64, index: u64, steps: u64, Ghost(c): Ghost<Curve>) -> (r: i64)
    requires
        -0x8000_0000 <= from <= 0x7fff_ffff,
        -0x8000_0000 <= to <= 0x7fff_ffff,
        index <= steps,
        steps > 0,
        c.from == from,
        c.to == to,
        c.steps == steps,
    ensures
        r == c.cents(index as int),
        -0x8000_0000 <= r <= 0x7fff_ffff,
{
    proof {
        curve_stays_between(c, index as int);
    }
    let d: i128 = to as i128 - from as i128;
    let i: i128 = index as i128;
    assert(-0x1_0000_0000 * 0x1_0000_0000_0000_0000 <= d * i <= 0x1_0000_0000
        * 0x1_0000_0000_0000_0000) by (nonlinear_arith)
        requires
            -0x1_0000_0000 <= d <= 0x1_0000_0000,
            0 <= i <= 0x1_0000_0000_0000_0000,
    ;
    let moved: i128 = if d >= 0 {
        assert(d * i >= 0) by (nonlinear_arith)
            requires
                d >= 0,
                i >= 0,
        ;
        (d * i) / (steps as i128)
    } else {
        assert(d * i <= 0) by (nonlinear_arith)
            requires
                d < 0,
                i >= 0,
        ;
        -((-(d * i)) / (steps as i128))
    };
    assert((c.to - c.from) * (index as int) == d * i);
    assert(moved == truncated(d * i, steps as int)) by {
        if d * i == 0 {
            assert(0int / (steps as int) == 0) by (nonlinear_arith)
                requires
                    steps > 0,
            ;
        }
    }
    (from as i128 + moved) as i64
}

fn step_tick(start: u64, span: u64, index: u64, steps: u64, Ghost(c): Ghost<Curve>) -> (r: u64)
    requires
        start + span <= u64::MAX,
        index <= steps,
        steps > 0,
        c.start == start,
        c.span == span,
        c.steps == steps,
    ensures
        r == c.tick(index as int),
{
    proof {
        curve_stays_between(c, index as int);
    }
    assert(span * index <= 0x1_0000_0000_0000_0000 * 0x1_0000_0000_0000_0000 - 1)
        by (nonlinear_arith)
        requires
            span < 0x1_0000_0000_0000_0000,
            index < 0x1_0000_0000_0000_0000,
    ;
    let moved: u128 = (span as u128 * index as u128) / (steps as u128);
    start + moved as u64
}

pub open spec fn opt_cents(v: Option<i64>) -> Option<int> {
    match v {
        Some(n) => Some(n as int),
        None => None,
    }
}

fn render_curve(
    events: &mut Vec<RenderedEvent>,
    midi_track: usize,
    channel: u8,
    start: u64,
    span: u64,
    from: i64,
    to: i64,
    steps: u64,
    range: i64,
    min_delta: i64,
    first: u64,
    last: u64,
)
    requires
        start + span <= u64::MAX,
        -0x8000_0000 <= from <= 0x7fff_ffff,
        -0x8000_0000 <= to <= 0x7fff_ffff,
        0 < steps,
        last <= steps,
        1 <= range <= 0x1_0000,
        0 <= min_delta <= 0xffff,
    ensures
        views::all_views(final(events)@) == views::all_views(old(events)@) + curve_points(
            (Curve {
                midi_track,
                channel,
                start,
                span,
                from: from as int,
                to: to as int,
                steps: steps as int,
                range: range as int,
                min_delta: min_delta as int,
            }),
            first as int,
            last as int,
            None,
            None,
        ),
{
    let ghost c = Curve {
        midi_track,
        channel,
        start,
        span,
        from: from as int,
        to: to as int,
        steps: steps as int,
        range: range as int,
        min_delta: min_delta as int,
    };
    let ghost before = views::all_views(events@);
    let ghost expected = before + curve_points(c, first as int, last as int, None, None);
    let mut last_cents: Option<i64> = None;
    let mut last_point: Option<(u64, u16)> = None;
    let mut index: u128 = first as u128;
    while index <= last as u128
        invariant
            last <= steps,
            0 < steps,
            start + span <= u64::MAX,
            -0x8000_0000 <= from <= 0x7fff_ffff,
            -0x8000_0000 <= to <= 0x7fff_ffff,
            1 <= range <= 0x1_0000,
            0 <= min_delta <= 0xffff,
            c == (Curve {
                midi_track,
                channel,
                start,
                span,
                from: from as int,
                to: to as int,
                steps: steps as int,
                range: range as int,
                min_delta: min_delta as int,
            }),
            last_cents matches Some(x) ==> -0x8000_0000 <= x <= 0x7fff_ffff,
            expected == views::all_views(events@) + curve_points(
                c,
                index as int,
                last as int,
                opt_cents(last_cents),
                last_point,
            ),
            index <= u64::MAX + 1,
        decreases last + 1 - index,
    {
        let i: u64 = index as u64;
        let cents = step_cents(from, to, i, steps, Ghost(c));
        let tick = step_tick(start, span, i, steps, Ghost(c));
        let value = pitch_bend_value_from_cents(cents, range);
        let near = match last_cents {
            Some(x) => (if cents >= x {
                cents - x
            } else {
                x - cents
            }) < min_delta,
            None => false,
        };
        let repeats = match last_point {
            Some((t, v)) => t == tick && v == value,
            None => false,
        };
        let ghost now = views::all_views(events@);
        if !((i != 0 && i != steps && near) || repeats) {
            push_event(
                events,
                midi_track,
                tick,
                PRI_PITCH_BEND,
                RenderedEventKind::PitchBend { channel, value },
            );
            last_cents = Some(cents);
            last_point = Some((tick, value));
            proof {
                let e = events::event(
                    midi_track,
                    tick,
                    PRI_PITCH_BEND,
                    KindView::PitchBend { channel, value },
                );
                let rest = curve_points(
                    c,
                    index + 1,
                    last as int,
                    Some(cents as int),
                    Some((tick, value)),
                );
                assert(now + (seq![e] + rest) =~= views::all_views(events@) + rest);
            }
        }
        index += 1;
    }
    assert(views::all_views(events@) + Seq::<RenderedEventView>::empty() =~= views::all_views(events@));
}

/// Where a glide is rendered and how.
pub struct GlideTarget<'a> {
    pub midi_track: usize,
    pub channel: u8,
    pub range_semitones: u8,
    pub range_cents: u8,
    pub tempo_points: &'a [(u64, u32)],
    pub ppq: u16,
    pub track_id: &'a str,
    pub config: PitchGlideConfig,
}

impl<'a> DeepView for GlideTarget<'a> {
    type V = BendTargetView;

    open spec fn deep_view(&self) -> BendTargetView {
        BendTargetView {
            midi_track: self.midi_track,
            channel: self.channel,
            semitones: self.range_semitones,
            cents: self.range_cents,
            tempo: self.tempo_points@,
            ppq: self.ppq,
            track: self.track_id@,
            config: self.config,
        }
    }
}

/// Whether events and diagnostics grew as expected, and the error is the
/// expected one.
pub open spec fn bent_as(
    expected: Bent,
    events_before: Seq<RenderedEventView>,
    events_after: Seq<RenderedEventView>,
    diagnostics_after: DiagnosticsView,
    r: Result<(), String>,
) -> bool {
    &&& events_after == events_before + expected.events
    &&& diagnostics_after == expected.diagnostics
    &&& match r {
        Ok(_) => expected.error is None,
        Err(e) => expected.error == Some(e@),
    }
}

fn range_error_text(track: &str, source: &str, needed: i64, range: i64) -> (r: String)
    ensures
        r@ == range_error(track@, source@, needed as int, range as int),
{
    let mut out = copy_text("pitch_glide range exceeded on track ");
    out.append(track);
    out.append(": ");
    out.append(source);
    out.append(" requires ");
    let n = signed_text(needed as i128);
    out.append(n.as_str());
    out.append(" cents, configured range is ");
    let n = signed_text(range as i128);
    out.append(n.as_str());
    out.append(" cents");
    out
}

fn magnitude(v: i32) -> (r: i64)
    ensures
        r == fraction::abs(v as int),
        0 <= r <= 0x8000_0000,
{
    if v >= 0 {
        v as i64
    } else {
        -(v as i64)
    }
}

fn render_pitch_bend_curve_segment(
    events: &mut Vec<RenderedEvent>,
    start_tick: u64,
    end_tick: u64,
    start_delta_cents: i32,
    target_delta_cents: i32,
    source: &str,
    target: &GlideTarget,
    diagnostics: &mut Diagnostics,
) -> (r: Result<(), String>)
    requires
        target.ppq > 0,
    ensures
        bent_as(
            bent_segment(
                target.deep_view(),
                start_tick,
                end_tick,
                start_delta_cents as int,
                target_delta_cents as int,
                source@,
                old(diagnostics).deep_view(),
            ),
            views::all_views(old(events)@),
            views::all_views(final(events)@),
            final(diagnostics).deep_view(),
            r,
        ),
{
    let ghost g = target.deep_view();
    let ghost before = views::all_views(events@);
    let semitones: i64 = if target.range_semitones >= 1 {
        target.range_semitones as i64
    } else {
        1
    };
    let range: i64 = semitones * 100 + target.range_cents as i64;
    let a = magnitude(start_delta_cents);
    let b = magnitude(target_delta_cents);
    let needed: i64 = if a >= b {
        a
    } else {
        b
    };
    if needed > range {
        match target.config.range_policy {
            PitchGlideRangePolicy::ErrorIfExceeded => {
                assert(before + Seq::<RenderedEventView>::empty() =~= before);
                return Err(range_error_text(target.track_id, source, needed, range));
            },
            PitchGlideRangePolicy::Clamp | PitchGlideRangePolicy::AutoExpandTo48 => {
                diagnostics.add_unsupported(
                    None,
                    Some(copy_text(target.track_id)),
                    source,
                    "pitch_glide: out of range clamped to configured pitch bend range",
                );
            },
        }
    }
    let duration: u64 = if end_tick > start_tick {
        end_tick - start_tick
    } else {
        1
    };
    let bpm: u32 = match tempo_at_tick(target.tempo_points, start_tick) {
        0 => 1,
        n => n,
    };
    let rate: u16 = match target.config.curve.event_rate_hz {
        0 => 1,
        n => n,
    };
    let steps: u64 = match count_glide_steps(duration, target.ppq, bpm, rate) {
        0 => 1,
        n => n,
    };
    let span: u64 = if end_tick > 0 && end_tick - 1 > start_tick {
        end_tick - 1 - start_tick
    } else {
        0
    };
    let curve = target.config.curve;
    let first: u64 = if curve.include_start_point {
        0
    } else {
        1
    };
    let last: u64 = if curve.include_end_point {
        steps
    } else {
        steps - 1
    };
    if target.config.reset.before_next_note_on && !curve.include_start_point && start_delta_cents
        == 0 {
        push_centre(events, target.midi_track, start_tick, target.channel);
    }
    let ghost middle = views::all_views(events@);
    render_curve(
        events,
        target.midi_track,
        target.channel,
        start_tick,
        span,
        start_delta_cents as i64,
        target_delta_cents as i64,
        steps,
        range,
        curve.min_delta_cents as i64,
        first,
        last,
    );
    proof {
        let expected = bent_segment(
            g,
            start_tick,
            end_tick,
            start_delta_cents as int,
            target_delta_cents as int,
            source@,
            old(diagnostics).deep_view(),
        );
        assert(views::all_views(events@) =~= before + expected.events);
    }
    Ok(())
}

/// A glide from a note to its target, with the wheel set back at its end.
pub open spec fn bent_note(
    g: BendTargetView,
    start: u64,
    end: u64,
    note: u8,
    glide: PitchGlideMetaView,
    diagnostics: DiagnosticsView,
) -> Bent {
    let curve = bent_segment(
        g,
        start,
        end,
        0,
        (glide.target_midi_note - note) * 100,
        glide.source,
        diagnostics,
    );
    if curve.error is None && g.config.reset.at_note_end {
        Bent { events: curve.events.push(events::centre(g.midi_track, end, g.channel)), ..curve }
    } else {
        curve
    }
}

/// Renders the glide of one note.
pub fn render_pitch_glide_curve(
    events: &mut Vec<RenderedEvent>,
    start_tick: u64,
    end_tick: u64,
    source_note: u8,
    glide: &PitchGlideMeta,
    target: &GlideTarget,
    diagnostics: &mut Diagnostics,
) -> (r: Result<(), String>)
    requires
        target.ppq > 0,
    ensures
        bent_as(
            bent_note(
                target.deep_view(),
                start_tick,
                end_tick,
                source_note,
                glide.deep_view(),
                old(diagnostics).deep_view(),
            ),
            views::all_views(old(events)@),
            views::all_views(final(events)@),
            final(diagnostics).deep_view(),
            r,
        ),
{
    let ghost before = views::all_views(events@);
    let total_delta_cents: i32 = (glide.target_midi_note as i32 - source_note as i32) * 100;
    match render_pitch_bend_curve_segment(
        events,
        start_tick,
        end_tick,
        0,
        total_delta_cents,
        glide.source.as_str(),
        target,
        diagnostics,
    ) {
        Ok(_) => {},
        Err(e) => {
            return Err(e);
        },
    }
    if target.config.reset.at_note_end {
        push_centre(events, target.midi_track, end_tick, target.channel);
        proof {
            let expected = bent_note(
                target.deep_view(),
                start_tick,
                end_tick,
                source_note,
                glide.deep_view(),
                old(diagnostics).deep_view(),
            );
            assert(views::all_views(events@) =~= before + expected.events);
        }
    }
    Ok(())
}

/// The target of a segment and what it is called.
pub open spec fn segment_target(s: SegmentView) -> (u8, Seq<char>) {
    match s.meta.pitch_glide {
        Some(g) => (g.target_midi_note, g.source),
        None => (s.note, "slur pitch segment"@),
    }
}

/// The curves of the first `n` segments of a group, up to one that fails.
pub open spec fn bent_segments(
    g: BendTargetView,
    group: Seq<SegmentView>,
    n: int,
    diagnostics: DiagnosticsView,
) -> Bent
    decreases n,
{
    if n <= 0 || n > group.len() {
        Bent { events: Seq::empty(), diagnostics, error: None }
    } else {
        let before = bent_segments(g, group, n - 1, diagnostics);
        if before.error is Some {
            before
        } else {
            let s = group[n - 1];
            let (to, source) = segment_target(s);
            let next = bent_segment(
                g,
                s.start_tick,
                s.end_tick,
                (s.note - group[0].note) * 100,
                (to - group[0].note) * 100,
                source,
                before.diagnostics,
            );
            Bent {
                events: before.events + next.events,
                diagnostics: next.diagnostics,
                error: next.error,
            }
        }
    }
}

/// The curves of a slurred group, with the wheel set back at its end.
pub open spec fn bent_group(g: BendTargetView, group: Seq<SegmentView>, diagnostics: DiagnosticsView) ->
    Bent {
    let curves = bent_segments(g, group, group.len() as int, diagnostics);
    if curves.error is None && group.len() > 0 && g.config.reset.at_note_end {
        Bent {
            events: curves.events.push(events::centre(g.midi_track, group.last().end_tick, g.channel)),
            ..curves
        }
    } else {
        curves
    }
}

proof fn stopped_stays(
    g: BendTargetView,
    group: Seq<SegmentView>,
    n: int,
    m: int,
    diagnostics: DiagnosticsView,
)
    requires
        0 <= n <= m <= group.len(),
        bent_segments(g, group, n, diagnostics).error is Some,
    ensures
        bent_segments(g, group, m, diagnostics) == bent_segments(g, group, n, diagnostics),
    decreases m,
{
    if n < m {
        stopped_stays(g, group, n, m - 1, diagnostics);
    }
}

/// Renders the glides of a slurred group.
pub fn render_pitch_glide_group_curve(
    events: &mut Vec<RenderedEvent>,
    group: &[PitchGlideGroupSegment<'_>],
    target: &GlideTarget,
    diagnostics: &mut Diagnostics,
) -> (r: Result<(), String>)
    requires
        target.ppq > 0,
    ensures
        bent_as(
            bent_group(target.deep_view(), views::all_views(group@), old(diagnostics).deep_view()),
            views::all_views(old(events)@),
            views::all_views(final(events)@),
            final(diagnostics).deep_view(),
            r,
        ),
{
    let ghost g = target.deep_view();
    let ghost all = views::all_views(group@);
    let ghost before = views::all_views(events@);
    let ghost start = diagnostics.deep_view();
    assert(before + Seq::<RenderedEventView>::empty() =~= before);
    if group.len() == 0 {
        return Ok(());
    }
    let origin: i32 = group[0].note as i32;
    let mut i: usize = 0;
    while i < group.len()
        invariant
            i <= group@.len(),
            group@.len() > 0,
            origin == group@[0].note,
            target.ppq > 0,
            g == target.deep_view(),
            all == views::all_views(group@),
            bent_segments(g, all, i as int, start).error is None,
            views::all_views(events@) == before + bent_segments(g, all, i as int, start).events,
            diagnostics.deep_view() == bent_segments(g, all, i as int, start).diagnostics,
            before == views::all_views(old(events)@),
            start == old(diagnostics).deep_view(),
        decreases group@.len() - i,
    {
        let segment = &group[i];
        assert(all[i as int] == segment.deep_view());
        assert(all[0] == group@[0].deep_view());
        let ghost done = bent_segments(g, all, i as int, start);
        let start_cents: i32 = (segment.note as i32 - origin) * 100;
        let (to, source): (u8, &str) = match &segment.meta.pitch_glide {
            Some(glide) => (glide.target_midi_note, glide.source.as_str()),
            None => (segment.note, "slur pitch segment"),
        };
        let target_cents: i32 = (to as i32 - origin) * 100;
        let r = render_pitch_bend_curve_segment(
            events,
            segment.start_tick,
            segment.end_tick,
            start_cents,
            target_cents,
            source,
            target,
            diagnostics,
        );
        proof {
            let next = bent_segments(g, all, i + 1, start);
            assert(views::all_views(events@) =~= before + next.events);
        }
        match r {
            Ok(_) => {},
            Err(e) => {
                proof {
                    stopped_stays(g, all, i + 1, all.len() as int, start);
                }
                return Err(e);
            },
        }
        i += 1;
    }
    if target.config.reset.at_note_end {
        let last = &group[group.len() - 1];
        assert(all.last() == last.deep_view());
        push_centre(events, target.midi_track, last.end_tick, target.channel);
        assert(views::all_views(events@) =~= before + bent_group(g, all, start).events);
    }
    Ok(())
}

/// A note at its own pitch leaves the wheel in its middle.
pub proof fn no_glide_is_the_middle(range: int)
    requires
        range > 0,
    ensures
        bend_value(0, range) == 8192,
{
    assert(range / (2 * range) == 0) by (nonlinear_arith)
        requires
            range > 0,
    ;
}

/// A wider glide never bends less far, and the wheel stays within its range.
pub proof fn bends_keep_order(a: int, b: int, range: int)
    requires
        0 <= a <= b,
        range > 0,
    ensures
        8192 <= bend_value(a, range) <= bend_value(b, range) <= 16383,
        bend_value(-b, range) <= bend_value(-a, range) <= 8192,
{
    no_glide_is_the_middle(range);
    let x = 2 * a * 8192 + range;
    let y = 2 * b * 8192 + range;
    assert(0 <= x / (2 * range) <= y / (2 * range)) by (nonlinear_arith)
        requires
            0 <= x <= y,
            range > 0,
    ;
}

} // verus!
