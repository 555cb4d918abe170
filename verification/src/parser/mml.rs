//! The music macro language of a track, read into events.

use std::collections::BTreeMap;

use vstd::prelude::*;
use vstd::slice::slice_subrange;

use crate::diagnostics::{Diagnostics, DiagnosticsView};
use crate::fraction;
use crate::fraction::Frac;
use crate::ir;
use crate::ir::{
    AtContext, AtSpelling, ControlKind, EnvelopeKind, EnvelopeRef, IrEvent, IrEventView,
    LoopMarkerKind, MacroOrigin, MacroOriginView, NoteMeta, NoteMetaView, PitchGlideMeta,
    PitchGlideMetaView, Rational, RegisterContext, SourceFamily, SourceSpan, SourceSpanView,
    TempoEvent, TempoEventView, TrackKind, checked_dots, denominator_to_steps,
    velocity_from_source,
};
use crate::parser::definitions;
use crate::parser::definitions::{
    MacroOffsets, MacroOffsetsView, apply_macro_offset, capped, scan_register, to_byte,
};
use crate::parser::smf;
use crate::parser::smf::{names_unknown_command, parse_smf_directive, unknown_error};
use crate::parser::statements;
use crate::parser::statements::smf_comment_body;
use crate::parser::tokens;
use crate::parser::tokens::{
    is_unsupported_mml_command, skip_unsupported_at, skip_unsupported_command,
    unsupported_mml_policy,
};
use crate::smfmap::Numbering;
use crate::text;
use crate::text::{
    CharClass, after, char_at, char_in_class, char_is_alphabetic, char_lower, char_text, chars_of,
    clamp_i64, copy_text, join2, join3, join4, next_pos, number_text, scan_i32, scan_u32,
    signed_text, skip_class, skip_ws, string_of, substring,
};
use crate::views;
use crate::views::push_viewed;

verus! {

// ---------------------------------------------------------------------------
// The machine
// ---------------------------------------------------------------------------
/// What stays the same while a piece of MML is read.
pub struct MmlEnv<'a> {
    pub macros: &'a BTreeMap<u32, String>,
    pub offsets: &'a MacroOffsets,
    pub kind: TrackKind,
    pub family: SourceFamily,
    pub loop_count: Option<u32>,
    pub track: &'a str,
    pub line: usize,
    pub programs: Numbering,
    pub channels: Numbering,
    pub glide_enabled: bool,
    pub unknown_fails: bool,
}

#[verifier::ext_equal]
pub struct EnvView {
    pub macros: Map<u32, Seq<char>>,
    pub offsets: MacroOffsetsView,
    pub kind: TrackKind,
    pub family: SourceFamily,
    pub loop_count: Option<u32>,
    pub track: Seq<char>,
    pub line: usize,
    pub programs: Numbering,
    pub channels: Numbering,
    pub glide_enabled: bool,
    pub unknown_fails: bool,
}

impl<'a> DeepView for MmlEnv<'a> {
    type V = EnvView;

    open spec fn deep_view(&self) -> EnvView {
        EnvView {
            macros: views::map_views(self.macros@),
            offsets: self.offsets.deep_view(),
            kind: self.kind,
            family: self.family,
            loop_count: self.loop_count,
            track: self.track@,
            line: self.line,
            programs: self.programs,
            channels: self.channels,
            glide_enabled: self.glide_enabled,
            unknown_fails: self.unknown_fails,
        }
    }
}

impl EnvView {
    pub open spec fn span(self) -> SourceSpanView {
        SourceSpanView { line: Some(self.line), track: Some(self.track) }
    }
}

impl<'a> MmlEnv<'a> {
    fn span(&self) -> (r: SourceSpan)
        ensures
            r.deep_view() == self.deep_view().span(),
    {
        SourceSpan { line: Some(self.line), track: Some(copy_text(self.track)) }
    }
}

/// A macro call that is being expanded.
#[derive(Debug)]
pub struct MacroFrame {
    pub origin: MacroOrigin,
    pub note_seen: bool,
}

#[verifier::ext_equal]
pub struct FrameView {
    pub origin: MacroOriginView,
    pub note_seen: bool,
}

impl DeepView for MacroFrame {
    type V = FrameView;

    open spec fn deep_view(&self) -> FrameView {
        FrameView { origin: self.origin.deep_view(), note_seen: self.note_seen }
    }
}

/// The state of a track while its MML is read, with all that was read.
#[derive(Debug)]
pub struct Machine {
    pub cursor: Rational,
    pub octave: i32,
    pub default_length: Rational,
    pub volume: i32,
    /// Volumes of single drums, by the code point of the drum's letter.
    pub rhythm_volumes: BTreeMap<u32, i32>,
    pub q: i32,
    pub tone: Option<u8>,
    pub envelope: Option<EnvelopeRef>,
    pub octave_base: i32,
    pub slur_from_previous: bool,
    pub warned_q0: bool,
    pub events: Vec<IrEvent>,
    pub tempo_events: Vec<TempoEvent>,
    pub diagnostics: Diagnostics,
    pub macro_stack: Vec<MacroFrame>,
}

#[verifier::ext_equal]
pub struct MachineView {
    pub cursor: Frac,
    pub octave: i32,
    pub default_length: Frac,
    pub volume: i32,
    pub rhythm_volumes: Map<u32, i32>,
    pub q: i32,
    pub tone: Option<u8>,
    pub envelope: Option<EnvelopeRef>,
    pub octave_base: i32,
    pub slur_from_previous: bool,
    pub warned_q0: bool,
    pub events: Seq<IrEventView>,
    pub tempo_events: Seq<TempoEventView>,
    pub diagnostics: DiagnosticsView,
    pub macro_stack: Seq<FrameView>,
}

impl DeepView for Machine {
    type V = MachineView;

    open spec fn deep_view(&self) -> MachineView {
        MachineView {
            cursor: self.cursor.deep_view(),
            octave: self.octave,
            default_length: self.default_length.deep_view(),
            volume: self.volume,
            rhythm_volumes: self.rhythm_volumes@,
            q: self.q,
            tone: self.tone,
            envelope: self.envelope,
            octave_base: self.octave_base,
            slur_from_previous: self.slur_from_previous,
            warned_q0: self.warned_q0,
            events: views::all_views(self.events@),
            tempo_events: views::all_views(self.tempo_events@),
            diagnostics: self.diagnostics.deep_view(),
            macro_stack: views::all_views(self.macro_stack@),
        }
    }
}

impl MachineView {
    /// The state at the start of a track.
    pub open spec fn start(
        octave_base: i32,
        events: Seq<IrEventView>,
        tempo_events: Seq<TempoEventView>,
        diagnostics: DiagnosticsView,
    ) -> Self {
        MachineView {
            cursor: fraction::whole(0),
            octave: 4,
            default_length: fraction::frac(192, 4),
            volume: 0,
            rhythm_volumes: Map::empty(),
            q: 8,
            tone: None,
            envelope: None,
            octave_base,
            slur_from_previous: false,
            warned_q0: false,
            events,
            tempo_events,
            diagnostics,
            macro_stack: Seq::empty(),
        }
    }

    pub open spec fn with(self, event: IrEventView) -> Self {
        MachineView { events: self.events.push(event), ..self }
    }

    pub open spec fn warned(self, env: EnvView, message: Seq<char>) -> Self {
        MachineView {
            diagnostics: self.diagnostics.with_warning(Some(env.line), Some(env.track), message),
            ..self
        }
    }

    pub open spec fn reported(self, env: EnvView, command: Seq<char>, policy: Seq<char>) -> Self {
        MachineView {
            diagnostics: self.diagnostics.with_unsupported(
                Some(env.line),
                Some(env.track),
                command,
                policy,
            ),
            ..self
        }
    }

    /// Moved on by a length, with nothing tied to what comes next.
    pub open spec fn moved(self, length: Frac, slur: bool) -> Option<Self> {
        match fraction::plus(self.cursor, length) {
            Some(cursor) => Some(MachineView { cursor, slur_from_previous: slur, ..self }),
            None => None,
        }
    }
}

impl Machine {
    pub fn start(
        octave_base: i32,
        events: Vec<IrEvent>,
        tempo_events: Vec<TempoEvent>,
        diagnostics: Diagnostics,
    ) -> (r: Self)
        ensures
            r.deep_view() == MachineView::start(
                octave_base,
                views::all_views(events@),
                views::all_views(tempo_events@),
                diagnostics.deep_view(),
            ),
    {
        let quarter = match denominator_to_steps(4) {
            Some(v) => v,
            None => Rational::zero(),
        };
        let r = Machine {
            cursor: Rational::zero(),
            octave: 4,
            default_length: quarter,
            volume: 0,
            rhythm_volumes: BTreeMap::new(),
            q: 8,
            tone: None,
            envelope: None,
            octave_base,
            slur_from_previous: false,
            warned_q0: false,
            events,
            tempo_events,
            diagnostics,
            macro_stack: Vec::new(),
        };
        assert(views::all_views(r.macro_stack@) =~= Seq::empty());
        r
    }

    fn emit(&mut self, event: IrEvent)
        ensures
            final(self).deep_view() == old(self).deep_view().with(event.deep_view()),
    {
        push_viewed(&mut self.events, event);
    }

    fn warn(&mut self, env: &MmlEnv, message: &str)
        ensures
            final(self).deep_view() == old(self).deep_view().warned(env.deep_view(), message@),
    {
        self.diagnostics.add_parse_warning(
            Some(env.line),
            Some(copy_text(env.track)),
            message,
        );
    }

    fn report(&mut self, env: &MmlEnv, command: &str, policy: &str)
        ensures
            final(self).deep_view() == old(self).deep_view().reported(
                env.deep_view(),
                command@,
                policy@,
            ),
    {
        self.diagnostics.add_unsupported(
            Some(env.line),
            Some(copy_text(env.track)),
            command,
            policy,
        );
    }

    /// Reports the command written between two positions.
    fn report_command(&mut self, env: &MmlEnv, s: &[char], start: usize, end: usize)
        requires
            start <= end <= s@.len(),
        ensures
            final(self).deep_view() == old(self).deep_view().reported(
                env.deep_view(),
                s@.subrange(start as int, end as int),
                tokens::policy(s@.subrange(start as int, end as int)),
            ),
    {
        let part = slice_subrange(s, start, end);
        let command = string_of(part);
        let shown = unsupported_mml_policy(part);
        self.report(env, command.as_str(), shown);
    }

    fn advance(&mut self, length: Rational, slur: bool) -> (r: bool)
        ensures
            match old(self).deep_view().moved(length.deep_view(), slur) {
                Some(m) => r && final(self).deep_view() == m,
                None => !r && final(self).deep_view() == old(self).deep_view(),
            },
    {
        match self.cursor.checked_add(length) {
            Some(c) => {
                self.cursor = c;
                self.slur_from_previous = slur;
                true
            },
            None => false,
        }
    }
}

// ---------------------------------------------------------------------------
// Lengths
// ---------------------------------------------------------------------------
/// A length in the source.
#[verifier::ext_equal]
pub enum LengthView {
    Found(Frac),
    Missing,
    TooLarge,
}

#[verifier::ext_equal]
pub struct LengthScan {
    pub value: LengthView,
    pub end: int,
    /// A denominator of zero was written.
    pub zero: bool,
}

/// A base length with the dots at `pos`.
pub open spec fn dotted_at(s: Seq<char>, pos: int, base: Frac, zero: bool) -> LengthScan {
    let end = text::run_end(s, pos, CharClass::Dot);
    LengthScan {
        value: match fraction::dotted(base, base, (end - pos) as nat) {
            Some(f) => LengthView::Found(f),
            None => LengthView::TooLarge,
        },
        end,
        zero,
    }
}

pub open spec fn default_at(s: Seq<char>, pos: int, default: Option<Frac>, zero: bool) -> LengthScan {
    match default {
        Some(base) => dotted_at(s, pos, base, zero),
        None => LengthScan { value: LengthView::Missing, end: pos, zero },
    }
}

/// The length at `pos`: steps after `%`, or the denominator of a part of a whole
/// note, or the default; each with dots.
pub open spec fn length_at(s: Seq<char>, pos: int, default: Option<Frac>) -> LengthScan {
    let p = text::ws_end(s, pos);
    if text::at(s, p, '%') {
        let end = text::u32_end(s, p + 1);
        match text::u32_at(s, p + 1) {
            Some(steps) => dotted_at(s, end, fraction::whole(steps as int), false),
            None => LengthScan { value: LengthView::Missing, end, zero: false },
        }
    } else {
        let end = text::u32_end(s, p);
        match text::u32_at(s, p) {
            Some(d) => match ir::denominator_steps(d) {
                Some(base) => dotted_at(s, end, base, false),
                None => default_at(s, end, default, true),
            },
            None => default_at(s, end, default, false),
        }
    }
}

enum Length {
    Found(Rational),
    Missing,
    TooLarge,
}

impl DeepView for Length {
    type V = LengthView;

    closed spec fn deep_view(&self) -> LengthView {
        match *self {
            Length::Found(r) => LengthView::Found(r.deep_view()),
            Length::Missing => LengthView::Missing,
            Length::TooLarge => LengthView::TooLarge,
        }
    }
}

fn scan_dots(s: &[char], pos: usize, base: Rational) -> (r: (Length, usize))
    requires
        pos <= s@.len(),
    ensures
        r.0.deep_view() == dotted_at(s@, pos as int, base.deep_view(), false).value,
        r.1 == dotted_at(s@, pos as int, base.deep_view(), false).end,
        pos <= r.1 <= s@.len(),
{
    let end = skip_class(s, pos, CharClass::Dot);
    match checked_dots(base, end - pos) {
        Some(f) => (Length::Found(f), end),
        None => (Length::TooLarge, end),
    }
}

fn scan_length(s: &[char], pos: usize, default: Option<Rational>) -> (r: (Length, usize, bool))
    requires
        pos <= s@.len(),
    ensures
        length_at(s@, pos as int, ir::opt_frac(default)) == (LengthScan {
            value: r.0.deep_view(),
            end: r.1 as int,
            zero: r.2,
        }),
        pos <= r.1 <= s@.len(),
{
    let p = skip_ws(s, pos);
    if char_at(s, p, '%') {
        let (steps, end) = scan_u32(s, p + 1);
        match steps {
            Some(v) => {
                let (l, e) = scan_dots(s, end, Rational::from_i64(v as i64));
                (l, e, false)
            },
            None => (Length::Missing, end, false),
        }
    } else {
        let (d, end) = scan_u32(s, p);
        let mut zero: bool = false;
        let base = match d {
            Some(v) => match denominator_to_steps(v) {
                Some(b) => Some(b),
                None => {
                    zero = true;
                    default
                },
            },
            None => default,
        };
        match base {
            Some(b) => {
                let (l, e) = scan_dots(s, end, b);
                (l, e, zero)
            },
            None => (Length::Missing, end, zero),
        }
    }
}

/// A length read with a default: the length, the position after it and the
/// state, in which a zero denominator is warned of. `None` when the length
/// cannot be held.
pub open spec fn read_length(env: EnvView, s: Seq<char>, pos: int, m: MachineView) -> Option<
    (Frac, int, MachineView),
> {
    let scan = length_at(s, pos, Some(m.default_length));
    let n = if scan.zero {
        m.warned(env, "zero length denominator; using default length"@)
    } else {
        m
    };
    match scan.value {
        LengthView::Found(f) => Some((f, scan.end, n)),
        LengthView::Missing => Some((m.default_length, scan.end, n)),
        LengthView::TooLarge => None,
    }
}

/// A length with what is tied to it by `^`.
pub open spec fn read_ties(
    env: EnvView,
    s: Seq<char>,
    pos: int,
    m: MachineView,
    length: Frac,
) -> Option<(Frac, int, MachineView)>
    decreases s.len() - pos,
    when 0 <= pos <= s.len()
{
    let p = text::ws_end(s, pos);
    if text::at(s, p, '^') {
        match read_length(env, s, text::ws_end(s, p + 1), m) {
            Some((extra, end, n)) => match fraction::plus(length, extra) {
                Some(sum) => if pos < end <= s.len() {
                    read_ties(env, s, end, n, sum)
                } else {
                    None
                },
                None => None,
            },
            None => None,
        }
    } else {
        Some((length, p, m))
    }
}

/// The end of the slur marks at `pos`.
pub open spec fn slur_end(s: Seq<char>, pos: int) -> int
    decreases s.len() - pos,
    when 0 <= pos <= s.len()
{
    let p = text::ws_end(s, pos);
    proof {
        text::run_end_is_longest(s, pos, CharClass::Space);
    }
    if text::at(s, p, '&') {
        slur_end(s, p + 1)
    } else {
        p
    }
}

/// A slur mark stands at `pos`.
pub open spec fn has_slur(s: Seq<char>, pos: int) -> bool {
    text::at(s, text::ws_end(s, pos), '&')
}

/// A command that could not be carried out: only the octave and what is reported
/// may differ.
pub open spec fn stuck(m: MachineView, n: MachineView) -> bool {
    n == MachineView { octave: n.octave, diagnostics: n.diagnostics, ..m }
}

pub open spec fn length_result(r: Option<(Rational, usize)>, m: Machine) -> Option<
    (Frac, int, MachineView),
> {
    match r {
        Some((l, p)) => Some((l.deep_view(), p as int, m.deep_view())),
        None => None,
    }
}

impl Machine {
    fn read_length(&mut self, env: &MmlEnv, s: &[char], pos: usize) -> (r: Option<
        (Rational, usize),
    >)
        requires
            pos <= s@.len(),
        ensures
            length_result(r, *final(self)) == read_length(
                env.deep_view(),
                s@,
                pos as int,
                old(self).deep_view(),
            ),
            r matches Some(v) ==> pos <= v.1 <= s@.len(),
            stuck(old(self).deep_view(), final(self).deep_view()),
    {
        let default = self.default_length;
        let (l, end, zero) = scan_length(s, pos, Some(default));
        if zero {
            self.warn(env, "zero length denominator; using default length");
        }
        match l {
            Length::Found(f) => Some((f, end)),
            Length::Missing => Some((default, end)),
            Length::TooLarge => None,
        }
    }

    fn read_ties(&mut self, env: &MmlEnv, s: &[char], pos: usize, length: Rational) -> (r: Option<
        (Rational, usize),
    >)
        requires
            pos <= s@.len(),
        ensures
            length_result(r, *final(self)) == read_ties(
                env.deep_view(),
                s@,
                pos as int,
                old(self).deep_view(),
                length.deep_view(),
            ),
            r matches Some(v) ==> pos <= v.1 <= s@.len(),
            stuck(old(self).deep_view(), final(self).deep_view()),
    {
        let mut sum = length;
        let mut at_pos: usize = pos;
        loop
            invariant
                pos <= at_pos <= s@.len(),
                read_ties(
                    env.deep_view(),
                    s@,
                    pos as int,
                    old(self).deep_view(),
                    length.deep_view(),
                ) == read_ties(
                    env.deep_view(),
                    s@,
                    at_pos as int,
                    self.deep_view(),
                    sum.deep_view(),
                ),
                stuck(old(self).deep_view(), self.deep_view()),
            decreases s@.len() - at_pos,
        {
            let p = skip_ws(s, at_pos);
            if !char_at(s, p, '^') {
                return Some((sum, p));
            }
            let q = skip_ws(s, p + 1);
            match self.read_length(env, s, q) {
                Some((extra, end)) => {
                    match sum.checked_add(extra) {
                        Some(total) => {
                            sum = total;
                            at_pos = end;
                        },
                        None => {
                            return None;
                        },
                    }
                },
                None => {
                    return None;
                },
            }
        }
    }
}

fn skip_slur(s: &[char], pos: usize) -> (r: (bool, usize))
    requires
        pos <= s@.len(),
    ensures
        r.0 == has_slur(s@, pos as int),
        r.1 == slur_end(s@, pos as int),
        pos <= r.1 <= s@.len(),
{
    let mut consumed: bool = false;
    let mut p: usize = pos;
    loop
        invariant
            pos <= p <= s@.len(),
            slur_end(s@, pos as int) == slur_end(s@, p as int),
            consumed ==> has_slur(s@, pos as int),
            !consumed ==> p == pos,
        decreases s@.len() - p,
    {
        let q = skip_ws(s, p);
        if !char_at(s, q, '&') {
            return (consumed, q);
        }
        consumed = true;
        p = q + 1;
    }
}

// ---------------------------------------------------------------------------
// Pitches
// ---------------------------------------------------------------------------
/// The semitone of a note name above the octave's first note.
pub open spec fn semitone(c: char) -> int {
    if c == 'c' {
        0
    } else if c == 'd' {
        2
    } else if c == 'e' {
        4
    } else if c == 'f' {
        5
    } else if c == 'g' {
        7
    } else if c == 'a' {
        9
    } else if c == 'b' {
        11
    } else {
        0
    }
}

/// The sum of the accidentals from `pos` on: sharps up, flats down.
pub open spec fn accidentals(s: Seq<char>, pos: int) -> int
    decreases s.len() - pos,
{
    if pos < 0 || pos >= s.len() {
        0
    } else if s[pos] == '+' || s[pos] == '#' {
        1 + accidentals(s, pos + 1)
    } else if s[pos] == '-' {
        -1 + accidentals(s, pos + 1)
    } else {
        0
    }
}

/// The MIDI note of a written note, which may be out of range.
pub open spec fn midi_note(octave_base: i32, octave: i32, c: char, shift: int) -> int {
    octave_base + (octave - 4) * 12 + semitone(c) + shift
}

/// The MIDI note of a drum letter.
pub open spec fn drum_note(c: char) -> Option<u8> {
    if c == 'b' {
        Some(36u8)
    } else if c == 's' {
        Some(38u8)
    } else if c == 'm' {
        Some(45u8)
    } else if c == 'c' {
        Some(49u8)
    } else if c == 'h' {
        Some(42u8)
    } else {
        None
    }
}

fn note_semitone(c: char) -> (r: i128)
    ensures
        r == semitone(c),
        0 <= r <= 11,
{
    if c == 'c' {
        0
    } else if c == 'd' {
        2
    } else if c == 'e' {
        4
    } else if c == 'f' {
        5
    } else if c == 'g' {
        7
    } else if c == 'a' {
        9
    } else if c == 'b' {
        11
    } else {
        0
    }
}

pub fn rhythm_drum_note(c: char) -> (r: Option<u8>)
    ensures
        r == drum_note(c),
{
    if c == 'b' {
        Some(36)
    } else if c == 's' {
        Some(38)
    } else if c == 'm' {
        Some(45)
    } else if c == 'c' {
        Some(49)
    } else if c == 'h' {
        Some(42)
    } else {
        None
    }
}

fn scan_accidentals(s: &[char], pos: usize) -> (r: (i128, usize))
    requires
        pos <= s@.len(),
    ensures
        r.0 == accidentals(s@, pos as int),
        r.1 == text::run_end(s@, pos as int, CharClass::Accidental),
        pos <= r.1 <= s@.len(),
        -usize::MAX <= r.0 <= usize::MAX,
{
    let mut sum: i128 = 0;
    let mut p: usize = pos;
    while p < s.len() && char_in_class(CharClass::Accidental, s[p])
        invariant
            pos <= p <= s@.len(),
            -(p - pos) <= sum <= p - pos,
            accidentals(s@, pos as int) == sum + accidentals(s@, p as int),
            text::run_end(s@, pos as int, CharClass::Accidental) == text::run_end(
                s@,
                p as int,
                CharClass::Accidental,
            ),
        decreases s@.len() - p,
    {
        if s[p] == '-' {
            sum -= 1;
        } else {
            sum += 1;
        }
        p += 1;
    }
    (sum, p)
}

fn written_note(octave_base: i32, octave: i32, c: char, shift: i128) -> (r: i128)
    requires
        -usize::MAX <= shift <= usize::MAX,
    ensures
        r == midi_note(octave_base, octave, c, shift as int),
        r > i128::MIN,
{
    octave_base as i128 + (octave as i128 - 4) * 12 + note_semitone(c) + shift
}

// ---------------------------------------------------------------------------
// Pitch glides
// ---------------------------------------------------------------------------
/// A pitch glide that was read: the length of the note, and the target.
#[verifier::ext_equal]
pub struct GlideView {
    pub length: Frac,
    pub meta: Option<PitchGlideMetaView>,
}

/// The octave marks at `pos`: the position after them and the octave then.
pub open spec fn octave_marks(s: Seq<char>, pos: int, octave: int) -> (int, int)
    decreases s.len() - pos,
    when 0 <= pos <= s.len()
{
    if pos < s.len() && (s[pos] == '<' || s[pos] == '>') {
        proof {
            text::run_end_is_longest(s, pos + 1, CharClass::Space);
        }
        octave_marks(
            s,
            text::ws_end(s, pos + 1),
            if s[pos] == '<' {
                octave - 1
            } else {
                octave + 1
            },
        )
    } else {
        (pos, octave)
    }
}

/// The target note of a glide whose `_` stands at `start`, at `pos`.
pub open spec fn glide_target(env: EnvView, s: Seq<char>, start: int, pos: int, m: MachineView) ->
    Option<(GlideView, int, MachineView)> {
    let c = text::lower(s[pos]);
    match read_length(env, s, text::run_end(s, pos + 1, CharClass::Accidental), m) {
        Some((length, end, n)) => {
            let command = s.subrange(start, end);
            let target = midi_note(m.octave_base, m.octave, c, accidentals(s, pos + 1));
            let hit = 0 <= target <= 127;
            let k = if hit {
                n
            } else {
                n.warned(
                    env,
                    "pitch glide target MIDI note out of range and ignored: "@ + text::signed_decimal(
                        target,
                    ),
                )
            };
            let meta = if hit {
                Some(PitchGlideMetaView { target_midi_note: target as u8, source: command })
            } else {
                None
            };
            let l = if env.glide_enabled {
                k
            } else {
                k.reported(env, command, tokens::policy(command))
            };
            Some((GlideView { length, meta }, end, l))
        },
        None => None,
    }
}

/// A glide after a note, if one stands at `pos`. The position stays where there
/// is none.
pub open spec fn glide_suffix(env: EnvView, s: Seq<char>, pos: int, m: MachineView) -> Option<
    (Option<GlideView>, int, MachineView),
> {
    let start = text::ws_end(s, pos);
    if !text::at(s, start, '_') {
        Some((None, pos, m))
    } else {
        let (p, octave) = octave_marks(s, text::ws_end(s, start + 1), m.octave as int);
        if octave < i32::MIN || octave > i32::MAX {
            None
        } else {
            let n = MachineView { octave: octave as i32, ..m };
            if p < s.len() && tokens::is_note_name(text::lower(s[p])) {
                match glide_target(env, s, start, p, n) {
                    Some((g, end, k)) => Some((Some(g), end, k)),
                    None => None,
                }
            } else {
                let command = s.subrange(start, p);
                Some(
                    (
                        Some(GlideView { length: m.default_length, meta: None }),
                        p,
                        n.reported(env, command, tokens::policy(command)),
                    ),
                )
            }
        }
    }
}

struct Glide {
    length: Rational,
    meta: Option<PitchGlideMeta>,
}

impl DeepView for Glide {
    type V = GlideView;

    closed spec fn deep_view(&self) -> GlideView {
        GlideView { length: self.length.deep_view(), meta: self.meta.deep_view() }
    }
}

fn scan_octave_marks(s: &[char], pos: usize, octave: i32) -> (r: (usize, i128))
    requires
        pos <= s@.len(),
    ensures
        octave_marks(s@, pos as int, octave as int) == (r.0 as int, r.1 as int),
        pos <= r.0 <= s@.len(),
{
    let mut p: usize = pos;
    let mut o: i128 = octave as i128;
    while p < s.len() && (s[p] == '<' || s[p] == '>')
        invariant
            pos <= p <= s@.len(),
            octave - (p - pos) <= o <= octave + (p - pos),
            octave_marks(s@, pos as int, octave as int) == octave_marks(s@, p as int, o as int),
        decreases s@.len() - p,
    {
        if s[p] == '<' {
            o -= 1;
        } else {
            o += 1;
        }
        p = skip_ws(s, p + 1);
    }
    (p, o)
}

impl Machine {
    fn read_glide_target(&mut self, env: &MmlEnv, s: &[char], start: usize, pos: usize) -> (r:
        Option<(Glide, usize)>)
        requires
            start <= pos < s@.len(),
        ensures
            match r {
                Some((g, end)) => glide_target(
                    env.deep_view(),
                    s@,
                    start as int,
                    pos as int,
                    old(self).deep_view(),
                ) == Some((g.deep_view(), end as int, final(self).deep_view())) && pos < end
                    <= s@.len(),
                None => glide_target(
                    env.deep_view(),
                    s@,
                    start as int,
                    pos as int,
                    old(self).deep_view(),
                ) is None,
            },
            stuck(old(self).deep_view(), final(self).deep_view()),
    {
        let c = char_lower(s[pos]);
        let (shift, p) = scan_accidentals(s, pos + 1);
        let octave = self.octave;
        let octave_base = self.octave_base;
        let (length, end) = match self.read_length(env, s, p) {
            Some(v) => v,
            None => {
                return None;
            },
        };
        let target = written_note(octave_base, octave, c, shift);
        let meta = if 0 <= target && target <= 127 {
            Some(
                PitchGlideMeta {
                    target_midi_note: target as u8,
                    source: substring(s, start, end),
                },
            )
        } else {
            let n = signed_text(target);
            let m = join2(
                "pitch glide target MIDI note out of range and ignored: ",
                n.as_str(),
            );
            self.warn(env, m.as_str());
            None
        };
        if !env.glide_enabled {
            self.report_command(env, s, start, end);
        }
        Some((Glide { length, meta }, end))
    }

    fn read_glide(&mut self, env: &MmlEnv, s: &[char], pos: usize) -> (r: Option<
        (Option<Glide>, usize),
    >)
        requires
            pos <= s@.len(),
        ensures
            match r {
                Some((g, end)) => glide_suffix(
                    env.deep_view(),
                    s@,
                    pos as int,
                    old(self).deep_view(),
                ) == Some((g.deep_view(), end as int, final(self).deep_view())) && pos <= end
                    <= s@.len(),
                None => glide_suffix(env.deep_view(), s@, pos as int, old(self).deep_view())
                    is None,
            },
            stuck(old(self).deep_view(), final(self).deep_view()),
    {
        let start = skip_ws(s, pos);
        if !char_at(s, start, '_') {
            return Some((None, pos));
        }
        let first = skip_ws(s, start + 1);
        let (p, octave) = scan_octave_marks(s, first, self.octave);
        if octave < i32::MIN as i128 || octave > i32::MAX as i128 {
            return None;
        }
        self.octave = octave as i32;
        if p < s.len() {
            let c = char_lower(s[p]);
            if 'a' <= c && c <= 'g' {
                return match self.read_glide_target(env, s, start, p) {
                    Some((g, end)) => Some((Some(g), end)),
                    None => None,
                };
            }
        }
        self.report_command(env, s, start, p);
        Some((Some(Glide { length: self.default_length, meta: None }), p))
    }
}

// ---------------------------------------------------------------------------
// Notes and rests
// ---------------------------------------------------------------------------
/// How long a note of a length sounds, with `q` eighths of it sounding.
pub open spec fn gated(env: EnvView, m: MachineView, length: Frac) -> Option<(Frac, MachineView)> {
    if m.q == 0 {
        if m.warned_q0 {
            Some((length, m))
        } else {
            Some(
                (
                    length,
                    MachineView { warned_q0: true, ..m.reported(env, "q0"@, "treated as q8"@) },
                ),
            )
        }
    } else if m.q < 8 {
        match fraction::times(length, m.q as int) {
            Some(part) => match fraction::over(part, 8) {
                Some(f) => Some((f, m)),
                None => None,
            },
            None => None,
        }
    } else {
        Some((length, m))
    }
}

/// The calls that a note is expanded from.
pub open spec fn origins(stack: Seq<FrameView>) -> Seq<MacroOriginView> {
    Seq::new(stack.len(), |i: int| stack[i].origin)
}

/// Whether a note is the first of one of the calls.
pub open spec fn starts_call(stack: Seq<FrameView>) -> bool {
    exists|i: int| 0 <= i < stack.len() && !(#[trigger] stack[i]).note_seen
}

/// The calls after a note.
pub open spec fn all_seen(stack: Seq<FrameView>) -> Seq<FrameView> {
    Seq::new(stack.len(), |i: int| FrameView { note_seen: true, ..stack[i] })
}

/// The last event made longer, where it is a note of the given pitch.
pub open spec fn extended(events: Seq<IrEventView>, pitch: u8, length: Frac) -> Option<
    Option<Seq<IrEventView>>,
> {
    if events.len() == 0 {
        None
    } else {
        match events.last() {
            IrEventView::Note { start, duration, note, velocity, tone, envelope, meta } => if note
                == pitch {
                match fraction::plus(duration, length) {
                    Some(sum) => Some(
                        Some(
                            events.drop_last().push(
                                IrEventView::Note {
                                    start,
                                    duration: sum,
                                    note,
                                    velocity,
                                    tone,
                                    envelope,
                                    meta,
                                },
                            ),
                        ),
                    ),
                    None => Some(None),
                }
            } else {
                None
            },
            _ => None,
        }
    }
}

/// A note whose parts have been read: it is played, tied to the one before, or
/// skipped when it is out of range.
pub open spec fn play_note(
    env: EnvView,
    m: MachineView,
    name: char,
    octave: i32,
    pitch: int,
    glide: Option<GlideView>,
    length: Frac,
    slur: bool,
) -> Option<MachineView> {
    if pitch < 0 || pitch > 127 {
        let n = m.warned(env, "MIDI note out of range and skipped: "@ + text::signed_decimal(pitch));
        n.moved(length, n.slur_from_previous)
    } else {
        let tied = if m.slur_from_previous && glide is None {
            extended(m.events, pitch as u8, length)
        } else {
            None
        };
        match tied {
            Some(Some(events)) => MachineView { events, ..m }.moved(length, slur),
            Some(None) => None,
            None => {
                let gate = if slur {
                    Some((length, m))
                } else {
                    gated(env, m, length)
                };
                match gate {
                    Some((duration, n)) => {
                        let note = IrEventView::Note {
                            start: n.cursor,
                            duration,
                            note: pitch as u8,
                            velocity: ir::source_velocity(n.volume as int) as u8,
                            tone: n.tone,
                            envelope: n.envelope,
                            meta: NoteMetaView {
                                note_name: Some(name),
                                source_octave: Some(octave),
                                source_midi_note: Some(pitch as u8),
                                pitch_glide: match glide {
                                    Some(g) => g.meta,
                                    None => None,
                                },
                                macro_origin: origins(n.macro_stack),
                                macro_call_start: starts_call(n.macro_stack),
                                slur_from_previous: n.slur_from_previous,
                                slur_to_next: slur,
                            },
                        };
                        MachineView {
                            macro_stack: all_seen(n.macro_stack),
                            ..n.with(note)
                        }.moved(length, slur)
                    },
                    None => None,
                }
            },
        }
    }
}

/// The note at `pos`: its name, accidentals, glide or length, ties and slur.
pub open spec fn note_command(env: EnvView, s: Seq<char>, pos: int, m: MachineView) -> Option<
    (int, MachineView),
> {
    let name = text::lower(s[pos]);
    let pitch = midi_note(m.octave_base, m.octave, name, accidentals(s, pos + 1));
    match glide_suffix(env, s, text::run_end(s, pos + 1, CharClass::Accidental), m) {
        Some((glide, p, n)) => {
            let base = match glide {
                Some(g) => Some((g.length, p, n)),
                None => read_length(env, s, p, n),
            };
            match base {
                Some((length, q, k)) => match read_ties(env, s, q, k, length) {
                    Some((total, e, l)) => match play_note(
                        env,
                        l,
                        name,
                        m.octave,
                        pitch,
                        glide,
                        total,
                        has_slur(s, e),
                    ) {
                        Some(done) => Some((slur_end(s, e), done)),
                        None => None,
                    },
                    None => None,
                },
                None => None,
            }
        },
        None => None,
    }
}

/// A length, ties and slur marks, of which the last are warned of.
pub open spec fn plain_length(
    env: EnvView,
    s: Seq<char>,
    pos: int,
    m: MachineView,
    slur_warning: Seq<char>,
) -> Option<(Frac, int, MachineView)> {
    match read_length(env, s, pos, m) {
        Some((length, q, k)) => match read_ties(env, s, q, k, length) {
            Some((total, e, l)) => Some(
                (
                    total,
                    slur_end(s, e),
                    if has_slur(s, e) {
                        l.warned(env, slur_warning)
                    } else {
                        l
                    },
                ),
            ),
            None => None,
        },
        None => None,
    }
}

/// The drum at `pos`.
pub open spec fn drum_command(env: EnvView, s: Seq<char>, pos: int, m: MachineView) -> Option<
    (int, MachineView),
> {
    let drum = text::lower(s[pos]);
    match plain_length(env, s, pos + 1, m, "slur after rhythm note ignored"@) {
        Some((length, end, n)) => match gated(env, n, length) {
            Some((duration, k)) => {
                let volume = if k.rhythm_volumes.contains_key(drum as u32) {
                    k.rhythm_volumes[drum as u32]
                } else {
                    k.volume
                };
                let note = IrEventView::Note {
                    start: k.cursor,
                    duration,
                    note: drum_note(drum)->0,
                    velocity: ir::source_velocity(volume as int) as u8,
                    tone: k.tone,
                    envelope: None,
                    meta: NoteMetaView::none(),
                };
                match k.with(note).moved(length, false) {
                    Some(done) => Some((end, done)),
                    None => None,
                }
            },
            None => None,
        },
        None => None,
    }
}

/// The rest at `pos`.
pub open spec fn rest_command(env: EnvView, s: Seq<char>, pos: int, m: MachineView) -> Option<
    (int, MachineView),
> {
    match plain_length(env, s, pos + 1, m, "slur after rest ignored"@) {
        Some((length, end, n)) => match n.with(
            IrEventView::Rest { start: n.cursor, duration: length },
        ).moved(length, false) {
            Some(done) => Some((end, done)),
            None => None,
        },
        None => None,
    }
}

pub open spec fn pos_result(r: Option<usize>, m: Machine) -> Option<(int, MachineView)> {
    match r {
        Some(p) => Some((p as int, m.deep_view())),
        None => None,
    }
}

impl Machine {
    fn gate(&mut self, env: &MmlEnv, length: Rational) -> (r: Option<Rational>)
        ensures
            match r {
                Some(d) => gated(env.deep_view(), old(self).deep_view(), length.deep_view())
                    == Some((d.deep_view(), final(self).deep_view())),
                None => gated(env.deep_view(), old(self).deep_view(), length.deep_view()) is None
                    && final(self).deep_view() == old(self).deep_view(),
            },
    {
        if self.q == 0 {
            if !self.warned_q0 {
                self.report(env, "q0", "treated as q8");
                self.warned_q0 = true;
            }
            Some(length)
        } else if self.q < 8 {
            match length.checked_mul(self.q as i64) {
                Some(part) => part.checked_div(8),
                None => None,
            }
        } else {
            Some(length)
        }
    }

    fn take_macro_metadata(&mut self) -> (r: (Vec<MacroOrigin>, bool))
        ensures
            views::all_views(r.0@) == origins(old(self).deep_view().macro_stack),
            r.1 == starts_call(old(self).deep_view().macro_stack),
            final(self).deep_view() == (MachineView {
                macro_stack: all_seen(old(self).deep_view().macro_stack),
                ..old(self).deep_view()
            }),
    {
        let ghost stack = self.deep_view().macro_stack;
        let mut found: Vec<MacroOrigin> = Vec::new();
        let mut frames: Vec<MacroFrame> = Vec::new();
        let mut first: bool = false;
        let mut i: usize = 0;
        while i < self.macro_stack.len()
            invariant
                i <= self.macro_stack@.len(),
                self.deep_view() == old(self).deep_view(),
                stack == self.deep_view().macro_stack,
                views::all_views(found@) == origins(stack).take(i as int),
                views::all_views(frames@) == all_seen(stack).take(i as int),
                first == (exists|k: int| 0 <= k < i && !(#[trigger] stack[k]).note_seen),
            decreases self.macro_stack@.len() - i,
        {
            let frame = &self.macro_stack[i];
            assert(stack[i as int] == frame.deep_view());
            if !frame.note_seen {
                first = true;
            }
            let origin = frame.origin.clone();
            push_viewed(&mut found, origin.clone());
            push_viewed(&mut frames, MacroFrame { origin, note_seen: true });
            assert(origins(stack).take(i + 1) =~= origins(stack).take(i as int).push(
                frame.origin.deep_view(),
            ));
            assert(all_seen(stack).take(i + 1) =~= all_seen(stack).take(i as int).push(
                FrameView { note_seen: true, ..stack[i as int] },
            ));
            i += 1;
        }
        self.macro_stack = frames;
        assert(views::all_views(found@) =~= origins(stack));
        assert(views::all_views(self.macro_stack@) =~= all_seen(stack));
        (found, first)
    }

    /// Makes the last event longer where it is a note of this pitch. The first
    /// part of the result tells whether it is, the second whether that worked.
    fn extend_last_note(&mut self, pitch: u8, length: Rational) -> (r: (bool, bool))
        ensures
            match extended(old(self).deep_view().events, pitch, length.deep_view()) {
                Some(Some(events)) => r == (true, true) && final(self).deep_view() == (
                MachineView { events, ..old(self).deep_view() }),
                Some(None) => r == (true, false) && final(self).deep_view()
                    == old(self).deep_view(),
                None => r.0 == false && final(self).deep_view() == old(self).deep_view(),
            },
    {
        let n = self.events.len();
        if n == 0 {
            return (false, false);
        }
        let ghost before = self.events@;
        assert(views::all_views(before).last() == before.last().deep_view());
        let duration: Rational = match &self.events[n - 1] {
            IrEvent::Note { duration_steps, note, .. } => {
                if *note != pitch {
                    return (false, false);
                }
                *duration_steps
            },
            _ => {
                return (false, false);
            },
        };
        let sum = match duration.checked_add(length) {
            Some(v) => v,
            None => {
                return (true, false);
            },
        };
        match self.events.pop() {
            Some(
                IrEvent::Note {
                    start_steps,
                    duration_steps: _,
                    note,
                    velocity,
                    tone,
                    envelope,
                    meta,
                },
            ) => {
                assert(views::all_views(self.events@) =~= views::all_views(before).drop_last());
                push_viewed(
                    &mut self.events,
                    IrEvent::Note {
                        start_steps,
                        duration_steps: sum,
                        note,
                        velocity,
                        tone,
                        envelope,
                        meta,
                    },
                );
            },
            _ => {},
        }
        (true, true)
    }

    fn play(
        &mut self,
        env: &MmlEnv,
        name: char,
        octave: i32,
        pitch: i128,
        glide: Option<Glide>,
        length: Rational,
        slur: bool,
    ) -> (r: bool)
        requires
            pitch > i128::MIN,
        ensures
            match play_note(
                env.deep_view(),
                old(self).deep_view(),
                name,
                octave,
                pitch as int,
                glide.deep_view(),
                length.deep_view(),
                slur,
            ) {
                Some(m) => r && final(self).deep_view() == m,
                None => !r && stuck(old(self).deep_view(), final(self).deep_view()),
            },
    {
        if self.cursor.checked_add(length).is_none() {
            return false;
        }
        if pitch < 0 || pitch > 127 {
            let n = signed_text(pitch);
            let m = join2("MIDI note out of range and skipped: ", n.as_str());
            self.warn(env, m.as_str());
            let keep = self.slur_from_previous;
            return self.advance(length, keep);
        }
        if self.slur_from_previous && glide.is_none() {
            let (tied, fits) = self.extend_last_note(pitch as u8, length);
            if tied {
                if !fits {
                    return false;
                }
                return self.advance(length, slur);
            }
        }
        let duration: Rational = if slur {
            length
        } else {
            match self.gate(env, length) {
                Some(d) => d,
                None => {
                    return false;
                },
            }
        };
        let ghost m = self.deep_view();
        let (macro_origin, macro_call_start) = self.take_macro_metadata();
        let meta = NoteMeta::from_source_note(
            name,
            octave,
            pitch as u8,
            match glide {
                Some(g) => g.meta,
                None => None,
            },
            macro_origin,
            macro_call_start,
            self.slur_from_previous,
            slur,
        );
        let note = IrEvent::Note {
            start_steps: self.cursor,
            duration_steps: duration,
            note: pitch as u8,
            velocity: velocity_from_source(self.volume),
            tone: self.tone,
            envelope: self.envelope,
            meta,
        };
        self.emit(note);
        assert(self.deep_view() == (MachineView {
            macro_stack: all_seen(m.macro_stack),
            ..m.with(note.deep_view())
        }));
        self.advance(length, slur)
    }

    fn note(&mut self, env: &MmlEnv, s: &[char], pos: usize) -> (r: Option<usize>)
        requires
            pos < s@.len(),
        ensures
            pos_result(r, *final(self)) == note_command(
                env.deep_view(),
                s@,
                pos as int,
                old(self).deep_view(),
            ),
            r matches Some(p) ==> pos < p <= s@.len(),
            r is None ==> stuck(old(self).deep_view(), final(self).deep_view()),
    {
        let name = char_lower(s[pos]);
        let octave = self.octave;
        let octave_base = self.octave_base;
        let (shift, p) = scan_accidentals(s, pos + 1);
        let pitch = written_note(octave_base, octave, name, shift);
        let (glide, q) = match self.read_glide(env, s, p) {
            Some(v) => v,
            None => {
                return None;
            },
        };
        let base = match &glide {
            Some(g) => Some((g.length, q)),
            None => self.read_length(env, s, q),
        };
        let (length, e) = match base {
            Some(v) => v,
            None => {
                return None;
            },
        };
        let (total, f) = match self.read_ties(env, s, e, length) {
            Some(v) => v,
            None => {
                return None;
            },
        };
        let (slur, end) = skip_slur(s, f);
        if self.play(env, name, octave, pitch, glide, total, slur) {
            Some(end)
        } else {
            None
        }
    }

    fn plain_length(&mut self, env: &MmlEnv, s: &[char], pos: usize, slur_warning: &str) -> (r:
        Option<(Rational, usize)>)
        requires
            pos <= s@.len(),
        ensures
            length_result(r, *final(self)) == plain_length(
                env.deep_view(),
                s@,
                pos as int,
                old(self).deep_view(),
                slur_warning@,
            ),
            r matches Some(v) ==> pos <= v.1 <= s@.len(),
            stuck(old(self).deep_view(), final(self).deep_view()),
    {
        let (length, q) = match self.read_length(env, s, pos) {
            Some(v) => v,
            None => {
                return None;
            },
        };
        let (total, e) = match self.read_ties(env, s, q, length) {
            Some(v) => v,
            None => {
                return None;
            },
        };
        let (slur, end) = skip_slur(s, e);
        if slur {
            self.warn(env, slur_warning);
        }
        Some((total, end))
    }

    fn drum(&mut self, env: &MmlEnv, s: &[char], pos: usize) -> (r: Option<usize>)
        requires
            pos < s@.len(),
            drum_note(text::lower(s@[pos as int])) is Some,
        ensures
            pos_result(r, *final(self)) == drum_command(
                env.deep_view(),
                s@,
                pos as int,
                old(self).deep_view(),
            ),
            r matches Some(p) ==> pos < p <= s@.len(),
            r is None ==> stuck(old(self).deep_view(), final(self).deep_view()),
    {
        let drum = char_lower(s[pos]);
        let number: u8 = match rhythm_drum_note(drum) {
            Some(n) => n,
            None => 0,
        };
        let (length, end) = match self.plain_length(
            env,
            s,
            pos + 1,
            "slur after rhythm note ignored",
        ) {
            Some(v) => v,
            None => {
                return None;
            },
        };
        if self.cursor.checked_add(length).is_none() {
            return None;
        }
        let duration = match self.gate(env, length) {
            Some(d) => d,
            None => {
                return None;
            },
        };
        let volume: i32 = match self.rhythm_volumes.get(&(drum as u32)) {
            Some(v) => *v,
            None => self.volume,
        };
        self.emit(
            IrEvent::Note {
                start_steps: self.cursor,
                duration_steps: duration,
                note: number,
                velocity: velocity_from_source(volume),
                tone: self.tone,
                envelope: None,
                meta: NoteMeta::default(),
            },
        );
        if self.advance(length, false) {
            Some(end)
        } else {
            None
        }
    }

    fn rest(&mut self, env: &MmlEnv, s: &[char], pos: usize) -> (r: Option<usize>)
        requires
            pos < s@.len(),
        ensures
            pos_result(r, *final(self)) == rest_command(
                env.deep_view(),
                s@,
                pos as int,
                old(self).deep_view(),
            ),
            r matches Some(p) ==> pos < p <= s@.len(),
            r is None ==> stuck(old(self).deep_view(), final(self).deep_view()),
    {
        let first = next_pos(s, pos);
        let (length, end) = match self.plain_length(env, s, first, "slur after rest ignored") {
            Some(v) => v,
            None => {
                return None;
            },
        };
        if self.cursor.checked_add(length).is_none() {
            return None;
        }
        self.emit(IrEvent::Rest { start_steps: self.cursor, duration_steps: length });
        if self.advance(length, false) {
            Some(end)
        } else {
            None
        }
    }
}

// ---------------------------------------------------------------------------
// Volume
// ---------------------------------------------------------------------------
/// The volume changed by an amount, one where none is written at `pos`.
pub open spec fn volume_changed(s: Seq<char>, pos: int, m: MachineView, up: bool) -> MachineView {
    let delta = match text::i32_at(s, pos) {
        Some(v) => v as int,
        None => 1,
    };
    MachineView {
        volume: text::clamp_int(
            if up {
                m.volume + delta
            } else {
                m.volume - delta
            },
            0,
            15,
        ) as i32,
        ..m
    }
}

/// The volume command at `pos`.
pub open spec fn volume_command(env: EnvView, s: Seq<char>, pos: int, m: MachineView) -> (
    int,
    MachineView,
) {
    let p = pos + 1;
    if env.kind == TrackKind::Rhythm && p < s.len() && drum_note(text::lower(s[p])) is Some {
        (
            text::i32_end(s, p + 1),
            match text::i32_at(s, p + 1) {
                Some(v) => MachineView {
                    rhythm_volumes: m.rhythm_volumes.insert(
                        text::lower(s[p]) as u32,
                        text::clamp_int(v as int, 0, 15) as i32,
                    ),
                    ..m
                },
                None => m.warned(env, "rhythm v command without value"@),
            },
        )
    } else if text::at(s, p, '+') {
        (text::i32_end(s, p + 1), volume_changed(s, p + 1, m, true))
    } else if text::at(s, p, '-') {
        (text::i32_end(s, p + 1), volume_changed(s, p + 1, m, false))
    } else {
        (
            text::i32_end(s, p),
            match text::i32_at(s, p) {
                Some(v) => MachineView { volume: text::clamp_int(v as int, 0, 15) as i32, ..m },
                None => m.warned(env, "v command without value"@),
            },
        )
    }
}

// ---------------------------------------------------------------------------
// @ commands
// ---------------------------------------------------------------------------
/// The selection of an envelope by `@e` or `@r`.
pub open spec fn envelope_command(env: EnvView, s: Seq<char>, pos: int, m: MachineView) -> (
    int,
    MachineView,
) {
    let is_e = text::lower(s[pos]) == 'e';
    (
        text::u32_end(s, pos + 1),
        match text::u32_at(s, pos + 1) {
            Some(id) => {
                let number = text::min_int(id as int, 255) as u8;
                let reference = if is_e {
                    EnvelopeRef::E(number)
                } else {
                    EnvelopeRef::R(number)
                };
                let kind = if is_e {
                    EnvelopeKind::E
                } else {
                    EnvelopeKind::R
                };
                let a = MachineView { envelope: Some(reference), ..m }.with(
                    IrEventView::AtCommand {
                        track: env.track,
                        at: m.cursor,
                        family: env.family,
                        number,
                        spelling: if is_e {
                            AtSpelling::AtE
                        } else {
                            AtSpelling::AtR
                        },
                        context: AtContext::NormalMml,
                        span: env.span(),
                    },
                );
                let b = match env.family {
                    SourceFamily::Psg | SourceFamily::PsgNoise => a.with(
                        IrEventView::PsgEnvelopeSelect {
                            track: env.track,
                            at: m.cursor,
                            number,
                            kind,
                        },
                    ),
                    SourceFamily::Scc | SourceFamily::Opll => a.with(
                        IrEventView::EnvelopeApply {
                            track: env.track,
                            at: m.cursor,
                            family: env.family,
                            number,
                            kind,
                        },
                    ),
                    SourceFamily::Rhythm => a,
                };
                b.with(
                    IrEventView::Control { at: m.cursor, kind: ControlKind::Envelope(reference) },
                )
            },
            None => m.warned(env, "@e/@r without envelope number"@),
        },
    )
}

/// The plain `@n`: an envelope on PSG tracks, a tone on SCC and OPLL tracks.
pub open spec fn at_number(env: EnvView, m: MachineView, number: u8) -> MachineView {
    let a = m.with(
        IrEventView::AtCommand {
            track: env.track,
            at: m.cursor,
            family: env.family,
            number,
            spelling: AtSpelling::At,
            context: AtContext::NormalMml,
            span: env.span(),
        },
    );
    match env.family {
        SourceFamily::Psg | SourceFamily::PsgNoise => MachineView {
            envelope: Some(EnvelopeRef::E(number)),
            ..a.with(
                IrEventView::PsgEnvelopeSelect {
                    track: env.track,
                    at: m.cursor,
                    number,
                    kind: EnvelopeKind::At,
                },
            )
        },
        SourceFamily::Scc | SourceFamily::Opll => MachineView {
            tone: Some(number),
            ..a.with(
                IrEventView::ToneChange {
                    track: env.track,
                    at: m.cursor,
                    family: env.family,
                    tone: number,
                },
            )
        },
        SourceFamily::Rhythm => a,
    }
}

/// The `@` command at `pos`.
pub open spec fn at_command(env: EnvView, s: Seq<char>, pos: int, m: MachineView) -> (
    int,
    MachineView,
) {
    let p = pos + 1;
    if p >= s.len() {
        (p, m.warned(env, "@ command without body"@))
    } else if text::lower(s[p]) == 'e' || text::lower(s[p]) == 'r' {
        envelope_command(env, s, p, m)
    } else if text::lower(s[p]) == 'm' {
        (
            text::u32_end(s, p + 1),
            match text::u32_at(s, p + 1) {
                Some(id) => m.with(
                    IrEventView::Control {
                        at: m.cursor,
                        kind: ControlKind::Text(text::min_int(id as int, 255) as u8),
                    },
                ),
                None => m.warned(env, "@m without text number"@),
            },
        )
    } else {
        match text::u32_at(s, p) {
            Some(id) => (text::u32_end(s, p), at_number(env, m, text::min_int(id as int, 255) as u8)),
            None => {
                let start = text::u32_end(s, p);
                let end = tokens::unsupported_at_end(s, start);
                let command = "@"@ + s.subrange(start, end);
                (end, m.reported(env, command, tokens::policy(command)))
            },
        }
    }
}

/// The register write at `pos`.
pub open spec fn register_command(env: EnvView, s: Seq<char>, pos: int, m: MachineView) -> (
    int,
    MachineView,
) {
    let q = definitions::data_start(s, pos + 1);
    (
        text::i32_end(s, q),
        match (text::i32_at(s, pos + 1), text::i32_at(s, q)) {
            (Some(register), Some(data)) => m.with(
                IrEventView::RegisterWrite {
                    track: env.track,
                    at: m.cursor,
                    family: env.family,
                    register: definitions::byte(register),
                    data: definitions::byte(data),
                    context: RegisterContext::NormalMml,
                    span: env.span(),
                },
            ),
            _ => m.warned(env, "y register write without register/data"@),
        },
    )
}

/// What the comment at `pos` does: a manual request is carried out, anything
/// else passed over.
pub open spec fn comment_effect(env: EnvView, s: Seq<char>, pos: int, m: MachineView) -> Result<
    MachineView,
    Seq<char>,
> {
    let end = text::run_end(s, pos + 1, CharClass::LineRest);
    match statements::smf_comment(s.subrange(pos + 1, end)) {
        Some(directive) => match smf::smf_directive(
            directive,
            Some(env.track),
            m.cursor,
            env.line,
            env.programs,
            env.channels,
        ) {
            Ok(event) => Ok(m.with(event)),
            Err(message) => if env.unknown_fails && smf::is_unknown(message) {
                Err(smf::unknown_at(message, env.line))
            } else {
                Ok(m.warned(env, message))
            },
        },
        None => Ok(m),
    }
}

pub open spec fn simple_result(next: usize, m: Machine) -> (int, MachineView) {
    (next as int, m.deep_view())
}

impl Machine {
    fn change_volume(&mut self, s: &[char], pos: usize, up: bool) -> (next: usize)
        requires
            pos <= s@.len(),
        ensures
            final(self).deep_view() == volume_changed(s@, pos as int, old(self).deep_view(), up),
            next == text::i32_end(s@, pos as int),
            pos <= next <= s@.len(),
    {
        let (value, end) = scan_i32(s, pos);
        let delta: i64 = match value {
            Some(v) => v as i64,
            None => 1,
        };
        let sum: i64 = if up {
            self.volume as i64 + delta
        } else {
            self.volume as i64 - delta
        };
        self.volume = clamp_i64(sum, 0, 15) as i32;
        end
    }

    fn volume_command(&mut self, env: &MmlEnv, s: &[char], pos: usize) -> (next: usize)
        requires
            pos < s@.len(),
        ensures
            simple_result(next, *final(self)) == volume_command(
                env.deep_view(),
                s@,
                pos as int,
                old(self).deep_view(),
            ),
            pos < next <= s@.len(),
    {
        let p: usize = next_pos(s, pos);
        if env.kind == TrackKind::Rhythm && p < s.len() {
            let drum = char_lower(s[p]);
            if rhythm_drum_note(drum).is_some() {
                let (value, end) = scan_i32(s, p + 1);
                match value {
                    Some(v) => {
                        self.rhythm_volumes.insert(drum as u32, clamp_i64(v as i64, 0, 15) as i32);
                    },
                    None => {
                        self.warn(env, "rhythm v command without value");
                    },
                }
                return end;
            }
        }
        if char_at(s, p, '+') {
            return self.change_volume(s, p + 1, true);
        }
        if char_at(s, p, '-') {
            return self.change_volume(s, p + 1, false);
        }
        let (value, end) = scan_i32(s, p);
        match value {
            Some(v) => {
                self.volume = clamp_i64(v as i64, 0, 15) as i32;
            },
            None => {
                self.warn(env, "v command without value");
            },
        }
        end
    }

    fn envelope_command(&mut self, env: &MmlEnv, s: &[char], pos: usize) -> (next: usize)
        requires
            pos < s@.len(),
        ensures
            simple_result(next, *final(self)) == envelope_command(
                env.deep_view(),
                s@,
                pos as int,
                old(self).deep_view(),
            ),
            pos < next <= s@.len(),
    {
        let is_e = char_lower(s[pos]) == 'e';
        let (id, end) = scan_u32(s, pos + 1);
        let id: u32 = match id {
            Some(v) => v,
            None => {
                self.warn(env, "@e/@r without envelope number");
                return end;
            },
        };
        let number = capped(id);
        let reference = if is_e {
            EnvelopeRef::E(number)
        } else {
            EnvelopeRef::R(number)
        };
        let kind = if is_e {
            EnvelopeKind::E
        } else {
            EnvelopeKind::R
        };
        self.envelope = Some(reference);
        let at_steps = self.cursor;
        self.emit(
            IrEvent::AtCommand {
                source_track: copy_text(env.track),
                source_step: at_steps,
                family: env.family,
                number,
                spelling: if is_e {
                    AtSpelling::AtE
                } else {
                    AtSpelling::AtR
                },
                context: AtContext::NormalMml,
                source_span: env.span(),
            },
        );
        match env.family {
            SourceFamily::Psg | SourceFamily::PsgNoise => {
                self.emit(
                    IrEvent::PsgEnvelopeSelect {
                        source_track: copy_text(env.track),
                        source_step: at_steps,
                        envelope_number: number,
                        kind,
                    },
                );
            },
            SourceFamily::Scc | SourceFamily::Opll => {
                self.emit(
                    IrEvent::EnvelopeApply {
                        source_track: copy_text(env.track),
                        source_step: at_steps,
                        family: env.family,
                        envelope_number: number,
                        kind,
                    },
                );
            },
            SourceFamily::Rhythm => {},
        }
        self.emit(IrEvent::Control { at_steps, kind: ControlKind::Envelope(reference) });
        end
    }

    fn at_number(&mut self, env: &MmlEnv, number: u8)
        ensures
            final(self).deep_view() == at_number(env.deep_view(), old(self).deep_view(), number),
    {
        let at_steps = self.cursor;
        self.emit(
            IrEvent::AtCommand {
                source_track: copy_text(env.track),
                source_step: at_steps,
                family: env.family,
                number,
                spelling: AtSpelling::At,
                context: AtContext::NormalMml,
                source_span: env.span(),
            },
        );
        match env.family {
            SourceFamily::Psg | SourceFamily::PsgNoise => {
                self.envelope = Some(EnvelopeRef::E(number));
                self.emit(
                    IrEvent::PsgEnvelopeSelect {
                        source_track: copy_text(env.track),
                        source_step: at_steps,
                        envelope_number: number,
                        kind: EnvelopeKind::At,
                    },
                );
            },
            SourceFamily::Scc | SourceFamily::Opll => {
                self.tone = Some(number);
                self.emit(
                    IrEvent::ToneChange {
                        source_track: copy_text(env.track),
                        source_step: at_steps,
                        family: env.family,
                        tone_number: number,
                    },
                );
            },
            SourceFamily::Rhythm => {},
        }
    }

    fn at_command(&mut self, env: &MmlEnv, s: &[char], pos: usize) -> (next: usize)
        requires
            pos < s@.len(),
        ensures
            simple_result(next, *final(self)) == at_command(
                env.deep_view(),
                s@,
                pos as int,
                old(self).deep_view(),
            ),
            pos < next <= s@.len(),
    {
        let p: usize = next_pos(s, pos);
        if p >= s.len() {
            self.warn(env, "@ command without body");
            return p;
        }
        let c = char_lower(s[p]);
        if c == 'e' || c == 'r' {
            return self.envelope_command(env, s, p);
        }
        if c == 'm' {
            let (id, end) = scan_u32(s, p + 1);
            match id {
                Some(v) => {
                    self.emit(
                        IrEvent::Control {
                            at_steps: self.cursor,
                            kind: ControlKind::Text(capped(v)),
                        },
                    );
                },
                None => {
                    self.warn(env, "@m without text number");
                },
            }
            return end;
        }
        let (id, end) = scan_u32(s, p);
        match id {
            Some(v) => {
                self.at_number(env, capped(v));
                end
            },
            None => {
                let last = skip_unsupported_at(s, end);
                let suffix = substring(s, end, last);
                let command = join2("@", suffix.as_str());
                let shown = chars_of(command.as_str());
                let said = unsupported_mml_policy(&shown);
                self.report(env, command.as_str(), said);
                last
            },
        }
    }

    fn register_write(&mut self, env: &MmlEnv, s: &[char], pos: usize) -> (next: usize)
        requires
            pos < s@.len(),
        ensures
            simple_result(next, *final(self)) == register_command(
                env.deep_view(),
                s@,
                pos as int,
                old(self).deep_view(),
            ),
            pos < next <= s@.len(),
    {
        let first = next_pos(s, pos);
        let (register, data, end) = scan_register(s, first);
        match (register, data) {
            (Some(a), Some(b)) => {
                self.emit(
                    IrEvent::RegisterWrite {
                        source_track: copy_text(env.track),
                        source_step: self.cursor,
                        family: env.family,
                        register: to_byte(a),
                        data: to_byte(b),
                        context: RegisterContext::NormalMml,
                        source_span: env.span(),
                    },
                );
            },
            _ => {
                self.warn(env, "y register write without register/data");
            },
        }
        end
    }

    /// Carries out the comment at `pos`; the result is the end of its line.
    fn comment(&mut self, env: &MmlEnv, s: &[char], pos: usize) -> (r: Result<usize, String>)
        requires
            pos < s@.len(),
        ensures
            match comment_effect(env.deep_view(), s@, pos as int, old(self).deep_view()) {
                Ok(n) => {
                    &&& r matches Ok(end)
                    &&& final(self).deep_view() == n
                    &&& end == text::run_end(s@, pos + 1, CharClass::LineRest)
                    &&& pos < end <= s@.len()
                },
                Err(e) => {
                    &&& r matches Err(m)
                    &&& m@ == e
                    &&& final(self).deep_view() == old(self).deep_view()
                },
            },
    {
        let first = next_pos(s, pos);
        let end = skip_class(s, first, CharClass::LineRest);
        match smf_comment_body(slice_subrange(s, first, end)) {
            Some(directive) => {
                match parse_smf_directive(
                    directive,
                    Some(env.track),
                    self.cursor,
                    env.line,
                    env.programs,
                    env.channels,
                ) {
                    Ok(event) => {
                        self.emit(event);
                    },
                    Err(message) => {
                        if env.unknown_fails && names_unknown_command(message.as_str()) {
                            return Err(unknown_error(message.as_str(), env.line));
                        }
                        self.warn(env, message.as_str());
                    },
                }
            },
            None => {},
        }
        Ok(end)
    }
}

// ---------------------------------------------------------------------------
// Macro calls
// ---------------------------------------------------------------------------
/// A macro reference: the number called and how it was written.
#[verifier::ext_equal]
pub struct MacroCallView {
    pub origin: MacroOriginView,
    pub effective: u32,
}

/// The reference after a `*`, at `pos`. No call is made where the reference is
/// incomplete, which is warned of; a number out of range fails.
#[verifier::opaque]
pub open spec fn macro_reference(env: EnvView, s: Seq<char>, pos: int, m: MachineView) -> (
    int,
    MachineView,
    Result<Option<MacroCallView>, Seq<char>>,
) {
    if pos < s.len() && text::is_alphabetic(s[pos]) {
        let prefix = text::lower(s[pos]);
        let end = text::u32_end(s, pos + 1);
        match text::u32_at(s, pos + 1) {
            Some(id) => if !env.offsets.named.contains_key(prefix as u32) {
                (end, m.warned(env, "undefined #macro_offset prefix: "@ + seq![prefix]), Ok(None))
            } else {
                let base = env.offsets.named[prefix as u32];
                let token = "*"@ + seq![prefix] + text::decimal(id as nat);
                match definitions::offset_macro(id, base) {
                    Some(effective) => (
                        end,
                        m,
                        Ok(
                            Some(
                                MacroCallView {
                                    origin: MacroOriginView {
                                        token,
                                        symbol: Some(prefix),
                                        number: id,
                                        resolved_number: effective,
                                    },
                                    effective,
                                },
                            ),
                        ),
                    ),
                    None => (end, m, Err(macro_out_of_range(token, base, env.line))),
                }
            },
            None => (
                end,
                m.warned(env, "macro reference *"@ + seq![prefix] + " without number"@),
                Ok(None),
            ),
        }
    } else {
        let end = text::u32_end(s, pos);
        match text::u32_at(s, pos) {
            Some(id) => {
                let token = "*"@ + text::decimal(id as nat);
                match definitions::offset_macro(id, env.offsets.numeric) {
                    Some(effective) => (
                        end,
                        m,
                        Ok(
                            Some(
                                MacroCallView {
                                    origin: MacroOriginView {
                                        token,
                                        symbol: None,
                                        number: id,
                                        resolved_number: effective,
                                    },
                                    effective,
                                },
                            ),
                        ),
                    ),
                    None => (
                        end,
                        m,
                        Err(macro_out_of_range(token, env.offsets.numeric, env.line)),
                    ),
                }
            },
            None => (end, m.warned(env, "macro reference without number"@), Ok(None)),
        }
    }
}

pub open spec fn macro_out_of_range(token: Seq<char>, base: i32, line: usize) -> Seq<char> {
    "macro id out of range after #macro_offset: "@ + token + " + "@ + text::signed_decimal(base as int)
        + " at line "@ + text::decimal(line as nat)
}

pub open spec fn undefined_macro(call: MacroCallView, line: usize) -> Seq<char> {
    "undefined macro "@ + call.origin.token + " (effective *"@ + text::decimal(call.effective as nat)
        + ") at line "@ + text::decimal(line as nat)
}

pub struct MacroCall {
    pub origin: MacroOrigin,
    pub effective: u32,
}

impl DeepView for MacroCall {
    type V = MacroCallView;

    open spec fn deep_view(&self) -> MacroCallView {
        MacroCallView { origin: self.origin.deep_view(), effective: self.effective }
    }
}

pub open spec fn call_result(r: Result<Option<MacroCall>, String>) -> Result<
    Option<MacroCallView>,
    Seq<char>,
> {
    match r {
        Ok(c) => Ok(c.deep_view()),
        Err(e) => Err(e@),
    }
}

fn out_of_range_text(token: &str, base: i32, line: usize) -> (r: String)
    ensures
        r@ == macro_out_of_range(token@, base, line),
{
    let b = signed_text(base as i128);
    let l = number_text(line as u64);
    let mut m = join4("macro id out of range after #macro_offset: ", token, " + ", b.as_str());
    m.append(" at line ");
    m.append(l.as_str());
    m
}

impl Machine {
    fn macro_reference(&mut self, env: &MmlEnv, s: &[char], pos: usize) -> (r: (
        usize,
        Result<Option<MacroCall>, String>,
    ))
        requires
            pos <= s@.len(),
        ensures
            macro_reference(env.deep_view(), s@, pos as int, old(self).deep_view()) == (
                r.0 as int,
                final(self).deep_view(),
                call_result(r.1),
            ),
            pos <= r.0 <= s@.len(),
    {
        reveal(macro_reference);
        if pos < s.len() && char_is_alphabetic(s[pos]) {
            let prefix = char_lower(s[pos]);
            let shown = char_text(prefix);
            let (id, end) = scan_u32(s, pos + 1);
            let id: u32 = match id {
                Some(v) => v,
                None => {
                    let m = join3("macro reference *", shown.as_str(), " without number");
                    self.warn(env, m.as_str());
                    return (end, Ok(None));
                },
            };
            let base: i32 = match env.offsets.named.get(&(prefix as u32)) {
                Some(b) => *b,
                None => {
                    let m = join2("undefined #macro_offset prefix: ", shown.as_str());
                    self.warn(env, m.as_str());
                    return (end, Ok(None));
                },
            };
            let n = number_text(id as u64);
            let token = join3("*", shown.as_str(), n.as_str());
            return match apply_macro_offset(id, base) {
                Some(effective) => (
                    end,
                    Ok(
                        Some(
                            MacroCall {
                                origin: MacroOrigin {
                                    token,
                                    symbol: Some(prefix),
                                    number: id,
                                    resolved_number: effective,
                                },
                                effective,
                            },
                        ),
                    ),
                ),
                None => (end, Err(out_of_range_text(token.as_str(), base, env.line))),
            };
        }
        let (id, end) = scan_u32(s, pos);
        match id {
            Some(id) => {
                let n = number_text(id as u64);
                let token = join2("*", n.as_str());
                match apply_macro_offset(id, env.offsets.numeric) {
                    Some(effective) => (
                        end,
                        Ok(
                            Some(
                                MacroCall {
                                    origin: MacroOrigin {
                                        token,
                                        symbol: None,
                                        number: id,
                                        resolved_number: effective,
                                    },
                                    effective,
                                },
                            ),
                        ),
                    ),
                    None => (
                        end,
                        Err(out_of_range_text(token.as_str(), env.offsets.numeric, env.line)),
                    ),
                }
            },
            None => {
                self.warn(env, "macro reference without number");
                (end, Ok(None))
            },
        }
    }
}

// ---------------------------------------------------------------------------
// Commands
// ---------------------------------------------------------------------------
/// What a command does.
pub enum StepView {
    /// Reading goes on at a position.
    Next(int, MachineView),
    /// Nothing more is read of this piece.
    Stop(MachineView),
    /// A length or an octave cannot be held.
    TooLarge,
    /// A request cannot be carried out; nothing has changed.
    Refused(Seq<char>),
}

pub open spec fn step_of(r: Option<(int, MachineView)>) -> StepView {
    match r {
        Some((p, m)) => StepView::Next(p, m),
        None => StepView::TooLarge,
    }
}

pub open spec fn next_of(r: (int, MachineView)) -> StepView {
    StepView::Next(r.0, r.1)
}

pub open spec fn octave_moved(m: MachineView, pos: int, up: bool) -> StepView {
    let octave = if up {
        m.octave + 1
    } else {
        m.octave - 1
    };
    if octave < i32::MIN || octave > i32::MAX {
        StepView::TooLarge
    } else {
        StepView::Next(pos + 1, MachineView { octave: octave as i32, ..m })
    }
}

/// The default length, `l`.
pub open spec fn default_length_command(env: EnvView, s: Seq<char>, pos: int, m: MachineView) ->
    StepView {
    let scan = length_at(s, pos + 1, None);
    let n = if scan.zero {
        m.warned(env, "zero length denominator; using default length"@)
    } else {
        m
    };
    match scan.value {
        LengthView::Found(f) => StepView::Next(scan.end, MachineView { default_length: f, ..n }),
        LengthView::Missing => StepView::Next(
            scan.end,
            n.warned(env, "l command without length"@),
        ),
        LengthView::TooLarge => StepView::TooLarge,
    }
}

/// The tempo, `t`: an event of the track and an entry of the tempo map.
pub open spec fn tempo_command(env: EnvView, s: Seq<char>, pos: int, m: MachineView) -> (
    int,
    MachineView,
) {
    (
        text::u32_end(s, pos + 1),
        match text::u32_at(s, pos + 1) {
            Some(bpm) => MachineView {
                tempo_events: m.tempo_events.push(
                    TempoEventView {
                        at: m.cursor,
                        bpm,
                        source: "t:"@ + env.track,
                        line: Some(env.line),
                    },
                ),
                ..m.with(IrEventView::Tempo { at: m.cursor, bpm })
            },
            None => m.warned(env, "t command without BPM"@),
        },
    )
}

/// The command at `pos`, if it is neither a loop nor a macro call.
#[verifier::opaque]
pub open spec fn command(env: EnvView, s: Seq<char>, pos: int, m: MachineView) -> StepView {
    let c = text::lower(s[pos]);
    if env.kind == TrackKind::Rhythm && drum_note(c) is Some {
        step_of(drum_command(env, s, pos, m))
    } else if tokens::is_note_name(c) {
        step_of(note_command(env, s, pos, m))
    } else if c == 'r' {
        step_of(rest_command(env, s, pos, m))
    } else if c == 'o' {
        StepView::Next(
            text::i32_end(s, pos + 1),
            match text::i32_at(s, pos + 1) {
                Some(v) => MachineView { octave: v, ..m },
                None => m.warned(env, "o command without octave"@),
            },
        )
    } else if c == '<' {
        octave_moved(m, pos, false)
    } else if c == '>' {
        octave_moved(m, pos, true)
    } else if c == 'l' {
        default_length_command(env, s, pos, m)
    } else if c == 't' {
        next_of(tempo_command(env, s, pos, m))
    } else if c == 'v' {
        next_of(volume_command(env, s, pos, m))
    } else if c == ')' {
        StepView::Next(text::i32_end(s, pos + 1), volume_changed(s, pos + 1, m, true))
    } else if c == '(' {
        StepView::Next(text::i32_end(s, pos + 1), volume_changed(s, pos + 1, m, false))
    } else if c == 'q' {
        StepView::Next(
            text::i32_end(s, pos + 1),
            match text::i32_at(s, pos + 1) {
                Some(v) => MachineView { q: text::clamp_int(v as int, 0, 8) as i32, ..m },
                None => m.warned(env, "q command without value"@),
            },
        )
    } else if c == '@' {
        next_of(at_command(env, s, pos, m))
    } else if c == 'y' {
        next_of(register_command(env, s, pos, m))
    } else if c == ';' {
        let end = text::run_end(s, pos + 1, CharClass::LineRest);
        match comment_effect(env, s, pos, m) {
            Ok(n) => if end < s.len() {
                StepView::Next(end + 1, n)
            } else {
                StepView::Stop(n)
            },
            Err(e) => StepView::Refused(e),
        }
    } else if c == ']' {
        StepView::Next(pos + 1, m.warned(env, "unmatched loop end"@))
    } else if c == '|' {
        StepView::Next(pos + 1, m.warned(env, "loop alternative outside loop ignored"@))
    } else if c == '!' {
        StepView::Stop(m)
    } else if c == ',' {
        StepView::Next(pos + 1, m)
    } else if tokens::is_unsupported(c) {
        let end = tokens::unsupported_command_end(s, pos);
        let text = s.subrange(pos, end);
        StepView::Next(end, m.reported(env, text, tokens::policy(text)))
    } else {
        StepView::Next(pos + 1, m.warned(env, "ignored MML character: "@ + seq![s[pos]]))
    }
}

/// What a command did, in executable code.
pub enum Step {
    Next(usize),
    Stop,
    TooLarge,
    Refused(String),
}

pub open spec fn step_view(r: Step, m: Machine) -> StepView {
    match r {
        Step::Next(p) => StepView::Next(p as int, m.deep_view()),
        Step::Stop => StepView::Stop(m.deep_view()),
        Step::TooLarge => StepView::TooLarge,
        Step::Refused(e) => StepView::Refused(e@),
    }
}

fn to_step(r: Option<usize>) -> (q: Step)
    ensures
        q == match r {
            Some(p) => Step::Next(p),
            None => Step::TooLarge,
        },
{
    match r {
        Some(p) => Step::Next(p),
        None => Step::TooLarge,
    }
}

impl Machine {
    fn move_octave(&mut self, s: &[char], pos: usize, up: bool) -> (r: Step)
        requires
            pos < s@.len(),
        ensures
            step_view(r, *final(self)) == octave_moved(old(self).deep_view(), pos as int, up),
            r matches Step::Next(p) ==> pos < p <= s@.len(),
            r is TooLarge ==> stuck(old(self).deep_view(), final(self).deep_view()),
    {
        let next = next_pos(s, pos);
        if up {
            if self.octave == i32::MAX {
                return Step::TooLarge;
            }
            self.octave = self.octave + 1;
        } else {
            if self.octave == i32::MIN {
                return Step::TooLarge;
            }
            self.octave = self.octave - 1;
        }
        Step::Next(next)
    }

    fn set_default_length(&mut self, env: &MmlEnv, s: &[char], pos: usize) -> (r: Step)
        requires
            pos < s@.len(),
        ensures
            step_view(r, *final(self)) == default_length_command(
                env.deep_view(),
                s@,
                pos as int,
                old(self).deep_view(),
            ),
            r matches Step::Next(p) ==> pos < p <= s@.len(),
            r is TooLarge ==> stuck(old(self).deep_view(), final(self).deep_view()),
    {
        let first = next_pos(s, pos);
        let (l, end, zero) = scan_length(s, first, None);
        if zero {
            self.warn(env, "zero length denominator; using default length");
        }
        match l {
            Length::Found(f) => {
                self.default_length = f;
                Step::Next(end)
            },
            Length::Missing => {
                self.warn(env, "l command without length");
                Step::Next(end)
            },
            Length::TooLarge => Step::TooLarge,
        }
    }

    fn tempo(&mut self, env: &MmlEnv, s: &[char], pos: usize) -> (next: usize)
        requires
            pos < s@.len(),
        ensures
            simple_result(next, *final(self)) == tempo_command(
                env.deep_view(),
                s@,
                pos as int,
                old(self).deep_view(),
            ),
            pos < next <= s@.len(),
    {
        let first = next_pos(s, pos);
        let (bpm, end) = scan_u32(s, first);
        match bpm {
            Some(bpm) => {
                push_viewed(
                    &mut self.tempo_events,
                    TempoEvent {
                        at_steps: self.cursor,
                        bpm,
                        source: join2("t:", env.track),
                        line: Some(env.line),
                    },
                );
                self.emit(IrEvent::Tempo { at_steps: self.cursor, bpm });
            },
            None => {
                self.warn(env, "t command without BPM");
            },
        }
        end
    }

    fn set_octave(&mut self, env: &MmlEnv, s: &[char], pos: usize) -> (next: usize)
        requires
            pos < s@.len(),
        ensures
            next == text::i32_end(s@, pos + 1),
            pos < next <= s@.len(),
            final(self).deep_view() == match text::i32_at(s@, pos + 1) {
                Some(v) => MachineView { octave: v, ..old(self).deep_view() },
                None => old(self).deep_view().warned(env.deep_view(), "o command without octave"@),
            },
    {
        let first = next_pos(s, pos);
        let (value, end) = scan_i32(s, first);
        match value {
            Some(v) => {
                self.octave = v;
            },
            None => {
                self.warn(env, "o command without octave");
            },
        }
        end
    }

    fn set_gate(&mut self, env: &MmlEnv, s: &[char], pos: usize) -> (next: usize)
        requires
            pos < s@.len(),
        ensures
            next == text::i32_end(s@, pos + 1),
            pos < next <= s@.len(),
            final(self).deep_view() == match text::i32_at(s@, pos + 1) {
                Some(v) => MachineView {
                    q: text::clamp_int(v as int, 0, 8) as i32,
                    ..old(self).deep_view()
                },
                None => old(self).deep_view().warned(env.deep_view(), "q command without value"@),
            },
    {
        let first = next_pos(s, pos);
        let (value, end) = scan_i32(s, first);
        match value {
            Some(v) => {
                self.q = clamp_i64(v as i64, 0, 8) as i32;
            },
            None => {
                self.warn(env, "q command without value");
            },
        }
        end
    }

    /// Carries out the command at `pos`.
    fn command(&mut self, env: &MmlEnv, s: &[char], pos: usize) -> (r: Step)
        requires
            pos < s@.len(),
        ensures
            step_view(r, *final(self)) == command(
                env.deep_view(),
                s@,
                pos as int,
                old(self).deep_view(),
            ),
            r matches Step::Next(p) ==> pos < p <= s@.len(),
            r is TooLarge ==> stuck(old(self).deep_view(), final(self).deep_view()),
            r is Refused ==> final(self).deep_view() == old(self).deep_view(),
    {
        reveal(command);
        let c = char_lower(s[pos]);
        let first = next_pos(s, pos);
        if env.kind == TrackKind::Rhythm && rhythm_drum_note(c).is_some() {
            to_step(self.drum(env, s, pos))
        } else if 'a' <= c && c <= 'g' {
            to_step(self.note(env, s, pos))
        } else if c == 'r' {
            to_step(self.rest(env, s, pos))
        } else if c == 'o' {
            Step::Next(self.set_octave(env, s, pos))
        } else if c == '<' {
            self.move_octave(s, pos, false)
        } else if c == '>' {
            self.move_octave(s, pos, true)
        } else if c == 'l' {
            self.set_default_length(env, s, pos)
        } else if c == 't' {
            Step::Next(self.tempo(env, s, pos))
        } else if c == 'v' {
            Step::Next(self.volume_command(env, s, pos))
        } else if c == ')' {
            Step::Next(self.change_volume(s, first, true))
        } else if c == '(' {
            Step::Next(self.change_volume(s, first, false))
        } else if c == 'q' {
            Step::Next(self.set_gate(env, s, pos))
        } else if c == '@' {
            Step::Next(self.at_command(env, s, pos))
        } else if c == 'y' {
            Step::Next(self.register_write(env, s, pos))
        } else if c == ';' {
            match self.comment(env, s, pos) {
                Ok(end) => if end < s.len() {
                    Step::Next(end + 1)
                } else {
                    Step::Stop
                },
                Err(e) => Step::Refused(e),
            }
        } else if c == ']' {
            self.warn(env, "unmatched loop end");
            Step::Next(first)
        } else if c == '|' {
            self.warn(env, "loop alternative outside loop ignored");
            Step::Next(first)
        } else if c == '!' {
            Step::Stop
        } else if c == ',' {
            Step::Next(first)
        } else if is_unsupported_mml_command(c) {
            let end = skip_unsupported_command(s, pos);
            self.report_command(env, s, pos, end);
            Step::Next(end)
        } else {
            let shown = char_text(s[pos]);
            let m = join2("ignored MML character: ", shown.as_str());
            self.warn(env, m.as_str());
            Step::Next(first)
        }
    }
}

// ---------------------------------------------------------------------------
// Loops, macro calls and whole pieces
// ---------------------------------------------------------------------------
/// The position of the bracket that closes a loop, at `level` brackets deep.
pub open spec fn loop_close(s: Seq<char>, pos: int, level: int) -> Option<int>
    decreases s.len() - pos,
{
    if pos < 0 || pos >= s.len() {
        None
    } else if s[pos] == '[' {
        loop_close(s, pos + 1, level + 1)
    } else if s[pos] == ']' {
        if level == 1 {
            Some(pos)
        } else {
            loop_close(s, pos + 1, level - 1)
        }
    } else {
        loop_close(s, pos + 1, level)
    }
}

/// The position of the bar that parts the last round of a loop.
pub open spec fn alternative_bar(s: Seq<char>, pos: int, level: int) -> Option<int>
    decreases s.len() - pos,
{
    if pos < 0 || pos >= s.len() {
        None
    } else if s[pos] == '[' {
        alternative_bar(s, pos + 1, level + 1)
    } else if s[pos] == ']' {
        alternative_bar(s, pos + 1, level - 1)
    } else if s[pos] == '|' && level == 0 {
        Some(pos)
    } else {
        alternative_bar(s, pos + 1, level)
    }
}

/// How often a loop is played: the count before its body or after it, else two.
pub open spec fn repeat_count(s: Seq<char>, pos: int, close: int) -> u32 {
    match text::u32_at(s, pos + 1) {
        Some(n) => n,
        None => match text::u32_at(s, close + 1) {
            Some(n) => n,
            None => 2,
        },
    }
}

pub open spec fn too_deep(line: usize) -> Seq<char> {
    "macro/loop expansion exceeded depth at line "@ + text::decimal(line as nat)
}

pub open spec fn too_large(line: usize) -> Seq<char> {
    "source steps out of range at line "@ + text::decimal(line as nat)
}

pub open spec fn unterminated_loop(line: usize) -> Seq<char> {
    "unterminated loop at line "@ + text::decimal(line as nat)
}

/// Reading that stopped on an error: the message and the state reached. Where a
/// number of steps is too large, the state is the one before that command, whose
/// octave marks and warnings may already count.
#[verifier::ext_equal]
pub struct Halt {
    pub machine: MachineView,
    pub message: Seq<char>,
    pub exact: bool,
}

pub open spec fn halt(machine: MachineView, message: Seq<char>) -> Halt {
    Halt { machine, message, exact: true }
}

/// A state that reading can be in after it stopped.
pub open spec fn halted(h: Halt, n: MachineView) -> bool {
    if h.exact {
        n == h.machine
    } else {
        stuck(h.machine, n)
    }
}

/// How far a piece `depth` expansions deep can still expand.
pub open spec fn room(depth: int) -> int {
    if depth > 9 {
        0
    } else {
        10 - depth
    }
}

/// A piece of MML from `pos` on, `depth` expansions deep.
pub open spec fn run_mml(env: EnvView, s: Seq<char>, pos: int, m: MachineView, depth: int) -> Result<
    MachineView,
    Halt,
>
    decreases room(depth), 1int, s.len() - pos,
    when 0 <= pos <= s.len()
{
    let p = text::ws_end(s, pos);
    if depth > 8 {
        Err(halt(m, too_deep(env.line)))
    } else if p >= s.len() {
        Ok(m)
    } else if s[p] == '[' {
        match run_loop(env, s, p, m, depth) {
            Ok((next, n)) => if pos < next <= s.len() {
                run_mml(env, s, next, n, depth)
            } else {
                Ok(n)
            },
            Err(e) => Err(e),
        }
    } else if s[p] == '*' {
        let (next, n, call) = macro_reference(env, s, p + 1, m);
        match call {
            Ok(Some(c)) => match run_macro(env, c, n, depth) {
                Ok(k) => if pos < next <= s.len() {
                    run_mml(env, s, next, k, depth)
                } else {
                    Ok(k)
                },
                Err(e) => Err(e),
            },
            Ok(None) => if pos < next <= s.len() {
                run_mml(env, s, next, n, depth)
            } else {
                Ok(n)
            },
            Err(e) => Err(halt(n, e)),
        }
    } else {
        match command(env, s, p, m) {
            StepView::Next(next, n) => if pos < next <= s.len() {
                run_mml(env, s, next, n, depth)
            } else {
                Ok(n)
            },
            StepView::Stop(n) => Ok(n),
            StepView::TooLarge => Err(
                Halt { machine: m, message: too_large(env.line), exact: false },
            ),
            StepView::Refused(e) => Err(halt(m, e)),
        }
    }
}

/// The calls without the innermost one.
pub open spec fn popped(stack: Seq<FrameView>) -> Seq<FrameView> {
    if stack.len() == 0 {
        stack
    } else {
        stack.drop_last()
    }
}

/// A macro call: its body, one expansion deeper.
pub open spec fn run_macro(env: EnvView, call: MacroCallView, m: MachineView, depth: int) -> Result<
    MachineView,
    Halt,
>
    decreases room(depth), 0int, 0int,
    when depth <= 8
{
    if env.macros.contains_key(call.effective) {
        let called = MachineView {
            macro_stack: m.macro_stack.push(
                FrameView { origin: call.origin, note_seen: false },
            ),
            ..m
        };
        match run_mml(env, env.macros[call.effective], 0, called, depth + 1) {
            Ok(n) => Ok(MachineView { macro_stack: popped(n.macro_stack), ..n }),
            Err(h) => Err(
                Halt {
                    machine: MachineView {
                        macro_stack: popped(h.machine.macro_stack),
                        ..h.machine
                    },
                    ..h
                },
            ),
        }
    } else {
        Err(halt(m, undefined_macro(call, env.line)))
    }
}

/// A piece of MML a number of times.
pub open spec fn run_times(env: EnvView, body: Seq<char>, n: nat, m: MachineView, depth: int) ->
    Result<MachineView, Halt>
    decreases room(depth), 2int, n,
{
    if n == 0 {
        Ok(m)
    } else {
        match run_mml(env, body, 0, m, depth) {
            Ok(k) => run_times(env, body, (n - 1) as nat, k, depth),
            Err(e) => Err(e),
        }
    }
}

/// Both parts a number of times, and the first part once more.
pub open spec fn run_rounds(
    env: EnvView,
    first: Seq<char>,
    second: Seq<char>,
    n: nat,
    m: MachineView,
    depth: int,
) -> Result<MachineView, Halt>
    decreases room(depth), 2int, n,
{
    match run_mml(env, first, 0, m, depth) {
        Ok(k) => if n == 0 {
            Ok(k)
        } else {
            match run_mml(env, second, 0, k, depth) {
                Ok(l) => run_rounds(env, first, second, (n - 1) as nat, l, depth),
                Err(e) => Err(e),
            }
        },
        Err(e) => Err(e),
    }
}

/// The loop at `pos`: the position after it and the state then. A count of zero
/// is an endless loop: it is marked, and played as often as asked for.
pub open spec fn run_loop(env: EnvView, s: Seq<char>, pos: int, m: MachineView, depth: int) ->
    Result<(int, MachineView), Halt>
    decreases room(depth), 0int, 0int,
    when depth <= 8
{
    let start = text::u32_end(s, pos + 1);
    match loop_close(s, start, 1) {
        Some(close) => {
            let body = s.subrange(start, close);
            let next = text::u32_end(s, close + 1);
            let count = repeat_count(s, pos, close);
            let result = if count == 0 {
                let marked = m.with(
                    IrEventView::LoopMarker { at: m.cursor, kind: LoopMarkerKind::Start },
                );
                let rounds = match env.loop_count {
                    Some(n) => n as nat,
                    None => 1,
                };
                match run_times(env, body, rounds, marked, depth + 1) {
                    Ok(n) => {
                        let k = n.with(
                            IrEventView::LoopMarker { at: n.cursor, kind: LoopMarkerKind::End },
                        );
                        Ok(
                            MachineView {
                                diagnostics: k.diagnostics.with_loop_marker(
                                    env.track,
                                    m.cursor,
                                    n.cursor,
                                    "infinite"@,
                                ),
                                ..k
                            },
                        )
                    },
                    Err(e) => Err(e),
                }
            } else {
                match alternative_bar(body, 0, 0) {
                    Some(bar) => run_rounds(
                        env,
                        body.take(bar),
                        body.skip(bar + 1),
                        (count - 1) as nat,
                        m,
                        depth + 1,
                    ),
                    None => run_times(env, body, count as nat, m, depth + 1),
                }
            };
            match result {
                Ok(n) => Ok((next, n)),
                Err(e) => Err(e),
            }
        },
        None => Err(halt(m, unterminated_loop(env.line))),
    }
}

fn find_loop_close(s: &[char], pos: usize) -> (r: Option<usize>)
    requires
        pos <= s@.len(),
    ensures
        text::opt_pos(r) == loop_close(s@, pos as int, 1),
        r matches Some(p) ==> pos <= p < s@.len(),
{
    let mut level: i128 = 1;
    let mut p: usize = pos;
    while p < s.len()
        invariant
            pos <= p <= s@.len(),
            1 <= level <= 1 + (p - pos),
            loop_close(s@, pos as int, 1) == loop_close(s@, p as int, level as int),
        decreases s@.len() - p,
    {
        if s[p] == '[' {
            level += 1;
        } else if s[p] == ']' {
            if level == 1 {
                return Some(p);
            }
            level -= 1;
        }
        p += 1;
    }
    None
}

fn split_alternative(s: &[char]) -> (r: Option<usize>)
    ensures
        text::opt_pos(r) == alternative_bar(s@, 0, 0),
        r matches Some(p) ==> p < s@.len(),
{
    let mut level: i128 = 0;
    let mut p: usize = 0;
    while p < s.len()
        invariant
            p <= s@.len(),
            -p <= level <= p,
            alternative_bar(s@, 0, 0) == alternative_bar(s@, p as int, level as int),
        decreases s@.len() - p,
    {
        if s[p] == '[' {
            level += 1;
        } else if s[p] == ']' {
            level -= 1;
        } else if s[p] == '|' && level == 0 {
            return Some(p);
        }
        p += 1;
    }
    None
}

/// That a run ended as expected.
pub open spec fn run_is(
    expected: Result<MachineView, Halt>,
    r: Result<(), String>,
    after: MachineView,
) -> bool {
    match r {
        Ok(_) => expected == Ok::<MachineView, Halt>(after),
        Err(e) => expected matches Err(h) && e@ == h.message && halted(h, after),
    }
}

/// That the reading of a loop ended as expected.
pub open spec fn loop_is(
    expected: Result<(int, MachineView), Halt>,
    r: Result<usize, String>,
    after: MachineView,
) -> bool {
    match r {
        Ok(p) => expected == Ok::<(int, MachineView), Halt>((p as int, after)),
        Err(e) => expected matches Err(h) && e@ == h.message && halted(h, after),
    }
}

fn at_line(text: &str, line: usize) -> (r: String)
    ensures
        r@ == text@ + text::decimal(line as nat),
{
    let n = number_text(line as u64);
    join2(text, n.as_str())
}

/// Reads a piece of MML.
pub fn parse_mml(env: &MmlEnv, s: &[char], m: &mut Machine, depth: usize) -> (r: Result<(), String>)
    ensures
        run_is(
            run_mml(
                env.deep_view(),
                s@,
                0,
                old(m).deep_view(),
                depth as int,
            ),
            r,
            final(m).deep_view(),
        ),
    decreases room(depth as int), 1int,
{
    if depth > 8 {
        return Err(at_line("macro/loop expansion exceeded depth at line ", env.line));
    }
    let ghost goal = run_mml(env.deep_view(), s@, 0, m.deep_view(), depth as int);
    let mut pos: usize = 0;
    loop
        invariant
            pos <= s@.len(),
            depth <= 8,
            goal == run_mml(env.deep_view(), s@, 0, old(m).deep_view(), depth as int),
            goal == run_mml(env.deep_view(), s@, pos as int, m.deep_view(), depth as int),
        decreases s@.len() - pos,
    {
        let p = skip_ws(s, pos);
        if p >= s.len() {
            return Ok(());
        }
        let c = s[p];
        if c == '[' {
            match parse_loop(env, s, p, m, depth) {
                Ok(next) => {
                    pos = next;
                },
                Err(e) => {
                    return Err(e);
                },
            }
        } else if c == '*' {
            let (next, call) = m.macro_reference(env, s, p + 1);
            match call {
                Ok(Some(call)) => {
                    match call_macro(env, call, m, depth) {
                        Ok(_) => {},
                        Err(e) => {
                            return Err(e);
                        },
                    }
                },
                Ok(None) => {},
                Err(e) => {
                    return Err(e);
                },
            }
            pos = next;
        } else {
            match m.command(env, s, p) {
                Step::Next(next) => {
                    pos = next;
                },
                Step::Stop => {
                    return Ok(());
                },
                Step::TooLarge => {
                    return Err(at_line("source steps out of range at line ", env.line));
                },
                Step::Refused(e) => {
                    return Err(e);
                },
            }
        }
    }
}

fn call_macro(env: &MmlEnv, call: MacroCall, m: &mut Machine, depth: usize) -> (r: Result<
    (),
    String,
>)
    requires
        depth <= 8,
    ensures
        run_is(
            run_macro(
                env.deep_view(),
                call.deep_view(),
                old(m).deep_view(),
                depth as int,
            ),
            r,
            final(m).deep_view(),
        ),
    decreases room(depth as int), 0int,
{
    match env.macros.get(&call.effective) {
        Some(body) => {
            let chars = chars_of(body.as_str());
            push_viewed(
                &mut m.macro_stack,
                MacroFrame { origin: call.origin, note_seen: false },
            );
            let r = parse_mml(env, &chars, m, depth + 1);
            let ghost before = m.macro_stack@;
            let _ = m.macro_stack.pop();
            assert(views::all_views(m.macro_stack@) =~= popped(views::all_views(before)));
            r
        },
        None => {
            let n = number_text(call.effective as u64);
            let l = number_text(env.line as u64);
            let mut t = join4(
                "undefined macro ",
                call.origin.token.as_str(),
                " (effective *",
                n.as_str(),
            );
            t.append(") at line ");
            t.append(l.as_str());
            Err(t)
        },
    }
}

fn repeat_mml(env: &MmlEnv, body: &[char], n: u32, m: &mut Machine, depth: usize) -> (r: Result<
    (),
    String,
>)
    requires
        depth <= 9,
    ensures
        run_is(
            run_times(
                env.deep_view(),
                body@,
                n as nat,
                old(m).deep_view(),
                depth as int,
            ),
            r,
            final(m).deep_view(),
        ),
    decreases room(depth as int), 2int,
{
    let mut left: u32 = n;
    while left > 0
        invariant
            depth <= 9,
            run_times(env.deep_view(), body@, n as nat, old(m).deep_view(), depth as int)
                == run_times(env.deep_view(), body@, left as nat, m.deep_view(), depth as int),
        decreases left,
    {
        match parse_mml(env, body, m, depth) {
            Ok(_) => {},
            Err(e) => {
                return Err(e);
            },
        }
        left -= 1;
    }
    Ok(())
}

fn repeat_rounds(
    env: &MmlEnv,
    first: &[char],
    second: &[char],
    n: u32,
    m: &mut Machine,
    depth: usize,
) -> (r: Result<(), String>)
    requires
        depth <= 9,
    ensures
        run_is(
            run_rounds(
                env.deep_view(),
                first@,
                second@,
                n as nat,
                old(m).deep_view(),
                depth as int,
            ),
            r,
            final(m).deep_view(),
        ),
    decreases room(depth as int), 2int,
{
    let mut left: u32 = n;
    loop
        invariant
            depth <= 9,
            run_rounds(
                env.deep_view(),
                first@,
                second@,
                n as nat,
                old(m).deep_view(),
                depth as int,
            ) == run_rounds(
                env.deep_view(),
                first@,
                second@,
                left as nat,
                m.deep_view(),
                depth as int,
            ),
        decreases left,
    {
        match parse_mml(env, first, m, depth) {
            Ok(_) => {},
            Err(e) => {
                return Err(e);
            },
        }
        if left == 0 {
            return Ok(());
        }
        match parse_mml(env, second, m, depth) {
            Ok(_) => {},
            Err(e) => {
                return Err(e);
            },
        }
        left -= 1;
    }
}

fn parse_loop(env: &MmlEnv, s: &[char], pos: usize, m: &mut Machine, depth: usize) -> (r: Result<
    usize,
    String,
>)
    requires
        pos < s@.len(),
        depth <= 8,
    ensures
        loop_is(
            run_loop(
                env.deep_view(),
                s@,
                pos as int,
                old(m).deep_view(),
                depth as int,
            ),
            r,
            final(m).deep_view(),
        ),
        r matches Ok(p) ==> pos < p <= s@.len(),
    decreases room(depth as int), 0int,
{
    let loop_start = m.cursor;
    let first = next_pos(s, pos);
    let (prefix, start) = scan_u32(s, first);
    let close = match find_loop_close(s, start) {
        Some(c) => c,
        None => {
            return Err(at_line("unterminated loop at line ", env.line));
        },
    };
    let body = slice_subrange(s, start, close);
    let (suffix, next) = scan_u32(s, next_pos(s, close));
    let count: u32 = match prefix {
        Some(n) => n,
        None => match suffix {
            Some(n) => n,
            None => 2,
        },
    };
    if count == 0 {
        m.emit(IrEvent::LoopMarker { at_steps: loop_start, kind: LoopMarkerKind::Start });
        let rounds: u32 = match env.loop_count {
            Some(n) => n,
            None => 1,
        };
        match repeat_mml(env, body, rounds, m, depth + 1) {
            Ok(_) => {},
            Err(e) => {
                return Err(e);
            },
        }
        let loop_end = m.cursor;
        m.emit(IrEvent::LoopMarker { at_steps: loop_end, kind: LoopMarkerKind::End });
        m.diagnostics.add_loop_marker(copy_text(env.track), loop_start, loop_end, "infinite");
        return Ok(next);
    }
    let result = match split_alternative(body) {
        Some(bar) => {
            let before = slice_subrange(body, 0, bar);
            assert(before@ =~= body@.take(bar as int));
            repeat_rounds(env, before, after(body, bar + 1), count - 1, m, depth + 1)
        },
        None => repeat_mml(env, body, count, m, depth + 1),
    };
    match result {
        Ok(_) => Ok(next),
        Err(e) => Err(e),
    }
}

/// On a PSG track `@n` selects an envelope: it adds no change of tone, and the
/// tone stays.
pub proof fn psg_numbers_select_envelopes(env: EnvView, m: MachineView, number: u8)
    requires
        env.family == SourceFamily::Psg || env.family == SourceFamily::PsgNoise,
    ensures
        ({
            let r = at_number(env, m, number);
            &&& r.envelope == Some(EnvelopeRef::E(number))
            &&& r.tone == m.tone
            &&& r.events.len() == m.events.len() + 2
            &&& forall|i: int|
                m.events.len() <= i < r.events.len() ==> !(#[trigger] r.events[i] is ToneChange)
        }),
{
}

} // verus!
