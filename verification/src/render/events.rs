//! The events of a rendered song.

use vstd::prelude::*;

use crate::fraction;
use crate::fraction::Frac;
use crate::ir;
use crate::ir::Rational;
use crate::text::copy_text;
use crate::views;
use crate::views::push_viewed;

verus! {

// The order of events at one tick.
pub const PRI_SETUP: u8 = 0;

pub const PRI_NOTE_OFF: u8 = 1;

pub const PRI_BANK: u8 = 2;

pub const PRI_PROGRAM: u8 = 3;

pub const PRI_RPN_NRPN: u8 = 4;

pub const PRI_CONTROL: u8 = 5;

pub const PRI_PITCH_BEND: u8 = 6;

pub const PRI_INITIAL_EXPRESSION: u8 = 7;

pub const PRI_META: u8 = 8;

pub const PRI_NOTE_ON: u8 = 9;

pub const PRI_ENVELOPE: u8 = 10;

/// What an event of a rendered track does.
#[derive(Debug, PartialEq, Eq)]
pub enum RenderedEventKind {
    NoteOn { channel: u8, note: u8, velocity: u8 },
    NoteOff { channel: u8, note: u8, velocity: u8 },
    ProgramChange { channel: u8, program: u8 },
    ControlChange { channel: u8, controller: u8, value: u8 },
    PitchBend { channel: u8, value: u16 },
    Tempo { bpm: u32 },
    TimeSignature {
        numerator: u8,
        denominator_power: u8,
        clocks_per_metronome: u8,
        thirty_seconds_per_quarter: u8,
    },
    KeySignature { sharps_flats: i8, minor: bool },
    MidiPort { port: u8 },
    TrackName(String),
    Text(String),
    Marker { text: String },
}

#[allow(inconsistent_fields)]
#[verifier::ext_equal]
pub enum KindView {
    NoteOn { channel: u8, note: u8, velocity: u8 },
    NoteOff { channel: u8, note: u8, velocity: u8 },
    ProgramChange { channel: u8, program: u8 },
    ControlChange { channel: u8, controller: u8, value: u8 },
    PitchBend { channel: u8, value: u16 },
    Tempo { bpm: u32 },
    TimeSignature {
        numerator: u8,
        denominator_power: u8,
        clocks_per_metronome: u8,
        thirty_seconds_per_quarter: u8,
    },
    KeySignature { sharps_flats: i8, minor: bool },
    MidiPort { port: u8 },
    TrackName(Seq<char>),
    Text(Seq<char>),
    Marker { text: Seq<char> },
}

impl DeepView for RenderedEventKind {
    type V = KindView;

    open spec fn deep_view(&self) -> KindView {
        match *self {
            RenderedEventKind::NoteOn { channel, note, velocity } => KindView::NoteOn {
                channel,
                note,
                velocity,
            },
            RenderedEventKind::NoteOff { channel, note, velocity } => KindView::NoteOff {
                channel,
                note,
                velocity,
            },
            RenderedEventKind::ProgramChange { channel, program } => KindView::ProgramChange {
                channel,
                program,
            },
            RenderedEventKind::ControlChange { channel, controller, value } =>
            KindView::ControlChange { channel, controller, value },
            RenderedEventKind::PitchBend { channel, value } => KindView::PitchBend {
                channel,
                value,
            },
            RenderedEventKind::Tempo { bpm } => KindView::Tempo { bpm },
            RenderedEventKind::TimeSignature {
                numerator,
                denominator_power,
                clocks_per_metronome,
                thirty_seconds_per_quarter,
            } => KindView::TimeSignature {
                numerator,
                denominator_power,
                clocks_per_metronome,
                thirty_seconds_per_quarter,
            },
            RenderedEventKind::KeySignature { sharps_flats, minor } => KindView::KeySignature {
                sharps_flats,
                minor,
            },
            RenderedEventKind::MidiPort { port } => KindView::MidiPort { port },
            RenderedEventKind::TrackName(text) => KindView::TrackName(text@),
            RenderedEventKind::Text(text) => KindView::Text(text@),
            RenderedEventKind::Marker { text } => KindView::Marker { text: text@ },
        }
    }
}

impl Clone for RenderedEventKind {
    fn clone(&self) -> (r: Self)
        ensures
            r.deep_view() == self.deep_view(),
    {
        match self {
            RenderedEventKind::NoteOn { channel, note, velocity } => RenderedEventKind::NoteOn {
                channel: *channel,
                note: *note,
                velocity: *velocity,
            },
            RenderedEventKind::NoteOff { channel, note, velocity } => RenderedEventKind::NoteOff {
                channel: *channel,
                note: *note,
                velocity: *velocity,
            },
            RenderedEventKind::ProgramChange { channel, program } =>
            RenderedEventKind::ProgramChange { channel: *channel, program: *program },
            RenderedEventKind::ControlChange { channel, controller, value } =>
            RenderedEventKind::ControlChange {
                channel: *channel,
                controller: *controller,
                value: *value,
            },
            RenderedEventKind::PitchBend { channel, value } => RenderedEventKind::PitchBend {
                channel: *channel,
                value: *value,
            },
            RenderedEventKind::Tempo { bpm } => RenderedEventKind::Tempo { bpm: *bpm },
            RenderedEventKind::TimeSignature {
                numerator,
                denominator_power,
                clocks_per_metronome,
                thirty_seconds_per_quarter,
            } => RenderedEventKind::TimeSignature {
                numerator: *numerator,
                denominator_power: *denominator_power,
                clocks_per_metronome: *clocks_per_metronome,
                thirty_seconds_per_quarter: *thirty_seconds_per_quarter,
            },
            RenderedEventKind::KeySignature { sharps_flats, minor } =>
            RenderedEventKind::KeySignature { sharps_flats: *sharps_flats, minor: *minor },
            RenderedEventKind::MidiPort { port } => RenderedEventKind::MidiPort { port: *port },
            RenderedEventKind::TrackName(text) => RenderedEventKind::TrackName(
                copy_text(text.as_str()),
            ),
            RenderedEventKind::Text(text) => RenderedEventKind::Text(copy_text(text.as_str())),
            RenderedEventKind::Marker { text } => RenderedEventKind::Marker {
                text: copy_text(text.as_str()),
            },
        }
    }
}

/// An event at its tick, with its place among the events of that tick.
#[derive(Debug, PartialEq, Eq)]
pub struct RenderedEvent {
    pub track_index: usize,
    pub abs_tick: u64,
    pub priority: u8,
    pub kind: RenderedEventKind,
}

#[verifier::ext_equal]
pub struct RenderedEventView {
    pub track_index: usize,
    pub abs_tick: u64,
    pub priority: u8,
    pub kind: KindView,
}

impl DeepView for RenderedEvent {
    type V = RenderedEventView;

    open spec fn deep_view(&self) -> RenderedEventView {
        RenderedEventView {
            track_index: self.track_index,
            abs_tick: self.abs_tick,
            priority: self.priority,
            kind: self.kind.deep_view(),
        }
    }
}

impl Clone for RenderedEvent {
    fn clone(&self) -> (r: Self)
        ensures
            r.deep_view() == self.deep_view(),
    {
        RenderedEvent {
            track_index: self.track_index,
            abs_tick: self.abs_tick,
            priority: self.priority,
            kind: self.kind.clone(),
        }
    }
}

pub open spec fn event(track_index: usize, abs_tick: u64, priority: u8, kind: KindView) ->
    RenderedEventView {
    RenderedEventView { track_index, abs_tick, priority, kind }
}

/// A bend wheel in its middle.
pub open spec fn centre(track_index: usize, tick: u64, channel: u8) -> RenderedEventView {
    event(track_index, tick, PRI_PITCH_BEND, KindView::PitchBend { channel, value: 8192 })
}

impl RenderedEvent {
    pub fn channel(track_index: usize, abs_tick: u64, priority: u8, kind: RenderedEventKind) -> (r:
        Self)
        ensures
            r.deep_view() == event(track_index, abs_tick, priority, kind.deep_view()),
    {
        RenderedEvent { track_index, abs_tick, priority, kind }
    }
}

pub fn push_event(
    events: &mut Vec<RenderedEvent>,
    track_index: usize,
    abs_tick: u64,
    priority: u8,
    kind: RenderedEventKind,
)
    ensures
        views::all_views(final(events)@) == views::all_views(old(events)@).push(
            event(track_index, abs_tick, priority, kind.deep_view()),
        ),
{
    push_viewed(events, RenderedEvent::channel(track_index, abs_tick, priority, kind));
}

/// The tick of a position; a position that cannot be one is the first tick.
pub open spec fn tick_at(f: Frac, ppq: u16) -> u64 {
    if f.den <= 0 {
        0
    } else {
        (ir::midi_ticks(f, ppq as int) % 0x1_0000_0000_0000_0000) as u64
    }
}

/// The tick at which a note ends; one whose end cannot be held ends where it
/// starts.
pub open spec fn end_tick_of(start: Frac, duration: Frac, ppq: u16) -> u64 {
    match fraction::plus(start, duration) {
        Some(end) => tick_at(end, ppq),
        None => tick_at(start, ppq),
    }
}

pub fn find_tick(r: Rational, ppq: u16) -> (tick: u64)
    ensures
        tick == tick_at(r.deep_view(), ppq),
{
    if r.den <= 0 {
        0
    } else {
        r.to_midi_ticks(ppq)
    }
}

pub fn find_end_tick(start: Rational, duration: Rational, ppq: u16) -> (tick: u64)
    ensures
        tick == end_tick_of(start.deep_view(), duration.deep_view(), ppq),
{
    match start.checked_add(duration) {
        Some(end) => find_tick(end, ppq),
        None => find_tick(start, ppq),
    }
}

/// The tempo at a tick: that of the last point that is not later, and 120 beats
/// a minute before the first.
pub open spec fn tempo_at(points: Seq<(u64, u32)>, n: int, tick: u64) -> u32
    decreases n,
{
    if n <= 0 || n > points.len() {
        120
    } else if points[n - 1].0 <= tick {
        points[n - 1].1
    } else {
        tempo_at(points, n - 1, tick)
    }
}

pub fn tempo_at_tick(points: &[(u64, u32)], tick: u64) -> (bpm: u32)
    ensures
        bpm == tempo_at(points@, points@.len() as int, tick),
{
    let mut n: usize = points.len();
    while n > 0
        invariant
            n <= points@.len(),
            tempo_at(points@, points@.len() as int, tick) == tempo_at(points@, n as int, tick),
        decreases n,
    {
        if points[n - 1].0 <= tick {
            return points[n - 1].1;
        }
        n -= 1;
    }
    120
}

} // verus!
