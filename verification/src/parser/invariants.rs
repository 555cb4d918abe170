//! What every piece of MML keeps: notes stay in the range of MIDI, and time does
//! not run back.

use vstd::prelude::*;

use crate::fraction;
use crate::fraction::Frac;
use crate::ir;
use crate::ir::{
    AtContext, AtSpelling, ControlKind, EnvelopeKind, EnvelopeRef, IrEventView, LoopMarkerKind,
    NoteMetaView, OptionsView, RegisterContext, SourceFamily, TrackIrView, TrackKind,
};
use crate::parser;
use crate::parser::Effect;
use crate::parser::definitions;
use crate::parser::definitions::{ChunkView, MacroOffsetsView, TopView, TrackRequestView};
use crate::parser::loops;
use crate::parser::mml;
use crate::parser::mml::{
    EnvView, FrameView, GlideView, Halt, LengthView, MachineView, MacroCallView, StepView,
};
use crate::parser::smf;
use crate::parser::statements;
use crate::parser::statements::StatementView;
use crate::parser::tokens;
use crate::parser::tracks;
use crate::parser::tracks::ReadTracks;
use crate::text;
use crate::text::CharClass;

verus! {

// ---------------------------------------------------------------------------
// States
// ---------------------------------------------------------------------------
/// The position of an event.
pub open spec fn stands_at(e: IrEventView) -> Frac {
    match e {
        IrEventView::LoopMarker { at, .. } => at,
        _ => loops::event_at(e)->0,
    }
}

/// An event that MIDI can play: no length is negative, and the numbers of notes
/// are in range.
pub open spec fn playable(e: IrEventView) -> bool {
    &&& fraction::not_negative(loops::event_length(e))
    &&& match e {
        IrEventView::Note { note, velocity, meta, .. } => {
            &&& note <= 127
            &&& 1 <= velocity <= 127
            &&& meta.pitch_glide matches Some(g) ==> g.target_midi_note <= 127
        },
        _ => true,
    }
}

/// Events that can be played, in the order of their positions, none of them
/// behind the cursor.
pub open spec fn recorded(events: Seq<IrEventView>, cursor: Frac) -> bool {
    &&& forall|i: int|
        #![trigger events[i]]
        0 <= i < events.len() ==> playable(events[i]) && fraction::not_negative(stands_at(events[i]))
            && !fraction::less(cursor, stands_at(events[i]))
    &&& forall|i: int, j: int|
        #![trigger events[i], events[j]]
        0 <= i < j < events.len() ==> !fraction::less(stands_at(events[j]), stands_at(events[i]))
}

/// A state that can come about.
pub open spec fn sensible(m: MachineView) -> bool {
    &&& fraction::not_negative(m.cursor)
    &&& fraction::not_negative(m.default_length)
    &&& 0 <= m.volume <= 15
    &&& 0 <= m.q <= 8
    &&& recorded(m.events, m.cursor)
}

/// The same calls are being expanded.
pub open spec fn same_calls(a: Seq<FrameView>, b: Seq<FrameView>) -> bool {
    a.len() == b.len() && forall|i: int|
        #![trigger a[i]]
        #![trigger b[i]]
        0 <= i < a.len() ==> a[i].origin == b[i].origin
}

/// The same event, or the same note held longer.
pub open spec fn kept(e: IrEventView, f: IrEventView) -> bool {
    f == e || {
        &&& e is Note
        &&& f == loops::placed(e, stands_at(e), loops::event_length(f))
        &&& !fraction::less(loops::event_length(f), loops::event_length(e))
    }
}

/// Earlier events stay, but that the last one may be held longer; those added
/// stand at the cursor of before, or after it.
pub open spec fn grown(a: Seq<IrEventView>, b: Seq<IrEventView>, cursor: Frac) -> bool {
    &&& a.len() <= b.len()
    &&& forall|i: int| 0 <= i < a.len() ==> kept(a[i], #[trigger] b[i])
    &&& forall|i: int| 0 <= i < a.len() - 1 ==> a[i] == #[trigger] b[i]
    &&& forall|i: int| a.len() <= i < b.len() ==> !fraction::less(stands_at(#[trigger] b[i]), cursor)
}

/// A state that can come about after another.
pub open spec fn follows(m: MachineView, n: MachineView) -> bool {
    &&& sensible(n)
    &&& !fraction::less(n.cursor, m.cursor)
    &&& same_calls(m.macro_stack, n.macro_stack)
    &&& grown(m.events, n.events, m.cursor)
}

proof fn follows_on(m: MachineView, n: MachineView, k: MachineView)
    requires
        sensible(m),
        follows(m, n),
        follows(n, k),
    ensures
        follows(m, k),
{
    fraction::order_is_transitive(k.cursor, n.cursor, m.cursor);
    assert forall|i: int|
        #![trigger m.macro_stack[i]]
        #![trigger k.macro_stack[i]]
        0 <= i < m.macro_stack.len() implies m.macro_stack[i].origin == k.macro_stack[i].origin by {
        assert(m.macro_stack[i].origin == n.macro_stack[i].origin);
    }
    assert forall|i: int| 0 <= i < m.events.len() implies kept(
        m.events[i],
        #[trigger] k.events[i],
    ) by {
        let (e, f, g) = (m.events[i], n.events[i], k.events[i]);
        assert(kept(e, f) && kept(f, g));
        assert(playable(e) && playable(f) && playable(g));
        fraction::order_is_transitive(loops::event_length(g), loops::event_length(f), loops::event_length(e));
    }
    assert forall|i: int| 0 <= i < m.events.len() - 1 implies m.events[i]
        == #[trigger] k.events[i] by {
        assert(m.events[i] == n.events[i]);
    }
    assert forall|i: int| m.events.len() <= i < k.events.len() implies !fraction::less(
        stands_at(#[trigger] k.events[i]),
        m.cursor,
    ) by {
        if i < n.events.len() {
            assert(kept(n.events[i], k.events[i]));
            assert(playable(n.events[i]));
        } else {
            fraction::order_is_transitive(stands_at(k.events[i]), n.cursor, m.cursor);
        }
    }
}

/// Only what is reported differs.
pub open spec fn same_but_reports(m: MachineView, n: MachineView) -> bool {
    n == MachineView { diagnostics: n.diagnostics, ..m }
}

proof fn recorded_now(m: MachineView, e: IrEventView)
    requires
        sensible(m),
        playable(e),
        stands_at(e) == m.cursor,
    ensures
        follows(m, m.with(e)),
{
    let events = m.events.push(e);
    assert forall|i: int|
        #![trigger events[i]]
        0 <= i < events.len() implies playable(events[i]) && fraction::not_negative(stands_at(events[i]))
        && !fraction::less(m.cursor, stands_at(events[i])) by {
        if i < m.events.len() {
            assert(events[i] == m.events[i]);
        }
    }
    assert forall|i: int, j: int|
        #![trigger events[i], events[j]]
        0 <= i < j < events.len() implies !fraction::less(stands_at(events[j]), stands_at(events[i])) by {
        assert(events[i] == m.events[i]);
        if j < m.events.len() {
            assert(events[j] == m.events[j]);
        }
    }
}

proof fn moved_on(m: MachineView, length: Frac, slur: bool)
    requires
        sensible(m),
        fraction::not_negative(length),
        m.moved(length, slur) is Some,
    ensures
        follows(m, m.moved(length, slur)->0),
{
    fraction::plus_goes_on(m.cursor, length);
    let cursor = fraction::plus(m.cursor, length)->0;
    let events = m.events;
    assert forall|i: int|
        #![trigger events[i]]
        0 <= i < events.len() implies playable(events[i]) && fraction::not_negative(stands_at(events[i]))
        && !fraction::less(cursor, stands_at(events[i])) by {
        fraction::order_is_transitive(cursor, m.cursor, stands_at(events[i]));
    }
}

// ---------------------------------------------------------------------------
// Lengths
// ---------------------------------------------------------------------------
proof fn length_goes_on(s: Seq<char>, pos: int, default: Option<Frac>)
    requires
        0 <= pos <= s.len(),
        default is Some ==> fraction::not_negative(default->0),
    ensures
        pos <= mml::length_at(s, pos, default).end <= s.len(),
        mml::length_at(s, pos, default).value matches LengthView::Found(f) ==> fraction::not_negative(f),
{
    text::run_end_is_longest(s, pos, CharClass::Space);
    let p = text::ws_end(s, pos);
    let end = if text::at(s, p, '%') {
        text::u32_end(s, p + 1)
    } else {
        text::u32_end(s, p)
    };
    text::u32_end_bounds(s, text::ws_end(s, pos));
    if text::at(s, p, '%') {
        text::u32_end_bounds(s, p + 1);
    }
    text::run_end_is_longest(s, end, CharClass::Dot);
    let dots = (text::run_end(s, end, CharClass::Dot) - end) as nat;
    let base = if text::at(s, p, '%') {
        match text::u32_at(s, p + 1) {
            Some(steps) => Some(fraction::whole(steps as int)),
            None => None,
        }
    } else {
        match text::u32_at(s, p) {
            Some(d) => match ir::denominator_steps(d) {
                Some(b) => Some(b),
                None => default,
            },
            None => default,
        }
    };
    match text::u32_at(s, p) {
        Some(d) => {
            if d != 0 {
                fraction::reduced_is_not_negative(192, d as int);
            }
        },
        None => {},
    }
    if let Some(b) = base {
        if fraction::dotted(b, b, dots) is Some {
            fraction::dots_go_on(b, b, dots);
        }
    }
}

proof fn length_read(env: EnvView, s: Seq<char>, pos: int, m: MachineView)
    requires
        0 <= pos <= s.len(),
        sensible(m),
    ensures
        mml::read_length(env, s, pos, m) matches Some(r) ==> {
            &&& fraction::not_negative(r.0)
            &&& pos <= r.1 <= s.len()
            &&& same_but_reports(m, r.2)
        },
{
    length_goes_on(s, pos, Some(m.default_length));
}

proof fn ties_read(env: EnvView, s: Seq<char>, pos: int, m: MachineView, length: Frac)
    requires
        0 <= pos <= s.len(),
        sensible(m),
        fraction::not_negative(length),
    ensures
        mml::read_ties(env, s, pos, m, length) matches Some(r) ==> {
            &&& fraction::not_negative(r.0)
            &&& same_but_reports(m, r.2)
        },
    decreases s.len() - pos,
{
    let p = text::ws_end(s, pos);
    if text::at(s, p, '^') {
        text::run_end_is_longest(s, p + 1, CharClass::Space);
        length_read(env, s, text::ws_end(s, p + 1), m);
        match mml::read_length(env, s, text::ws_end(s, p + 1), m) {
            Some((extra, end, n)) => match fraction::plus(length, extra) {
                Some(sum) => {
                    fraction::plus_goes_on(length, extra);
                    if pos < end <= s.len() {
                        ties_read(env, s, end, n, sum);
                    }
                },
                None => {},
            },
            None => {},
        }
    }
}

// ---------------------------------------------------------------------------
// Notes and rests
// ---------------------------------------------------------------------------
proof fn gate_keeps(env: EnvView, m: MachineView, length: Frac)
    requires
        sensible(m),
        fraction::not_negative(length),
    ensures
        mml::gated(env, m, length) matches Some(r) ==> {
            &&& fraction::not_negative(r.0)
            &&& sensible(r.1)
            &&& r.1.cursor == m.cursor
            &&& r.1.events == m.events
            &&& r.1.macro_stack == m.macro_stack
        },
{
    if 0 < m.q < 8 {
        if let Some(part) = fraction::times(length, m.q as int) {
            fraction::times_is_not_negative(length, m.q as int);
            if fraction::over(part, 8) is Some {
                fraction::over_is_not_negative(part, 8);
            }
        }
    }
}

proof fn longer_note_keeps(m: MachineView, pitch: u8, length: Frac)
    requires
        sensible(m),
        fraction::not_negative(length),
        mml::extended(m.events, pitch, length) matches Some(Some(_)),
    ensures
        follows(m, MachineView { events: mml::extended(m.events, pitch, length)->0->0, ..m }),
{
    let old_events = m.events;
    let events = mml::extended(old_events, pitch, length)->0->0;
    assert(events.len() == old_events.len());
    assert forall|i: int| 0 <= i < events.len() implies stands_at(#[trigger] events[i])
        == stands_at(old_events[i]) && playable(events[i]) && kept(old_events[i], events[i]) by {
        assert(playable(old_events[i]));
        if i < events.len() - 1 {
            assert(events[i] == old_events[i]);
        } else {
            assert(old_events[i] == old_events.last());
            fraction::plus_goes_on(loops::event_length(old_events[i]), length);
        }
    }
    assert forall|i: int|
        #![trigger events[i]]
        0 <= i < events.len() implies playable(events[i]) && fraction::not_negative(stands_at(events[i]))
        && !fraction::less(m.cursor, stands_at(events[i])) by {
        assert(playable(old_events[i]));
    }
    assert forall|i: int, j: int|
        #![trigger events[i], events[j]]
        0 <= i < j < events.len() implies !fraction::less(stands_at(events[j]), stands_at(events[i])) by {
        assert(stands_at(events[i]) == stands_at(old_events[i]));
        assert(stands_at(events[j]) == stands_at(old_events[j]));
    }
}

proof fn note_keeps(
    env: EnvView,
    m: MachineView,
    name: char,
    octave: i32,
    pitch: int,
    glide: Option<GlideView>,
    length: Frac,
    slur: bool,
)
    requires
        sensible(m),
        fraction::not_negative(length),
        glide is Some && (glide->0).meta is Some ==> ((glide->0).meta->0).target_midi_note <= 127,
    ensures
        mml::play_note(env, m, name, octave, pitch, glide, length, slur) matches Some(n) ==> follows(
            m,
            n,
        ),
{
    if mml::play_note(env, m, name, octave, pitch, glide, length, slur) is Some {
        if pitch < 0 || pitch > 127 {
            let n = m.warned(env, "MIDI note out of range and skipped: "@ + text::signed_decimal(pitch));
            moved_on(n, length, n.slur_from_previous);
        } else {
            let tied = if m.slur_from_previous && glide is None {
                mml::extended(m.events, pitch as u8, length)
            } else {
                None
            };
            match tied {
                Some(Some(events)) => {
                    longer_note_keeps(m, pitch as u8, length);
                    moved_on(MachineView { events, ..m }, length, slur);
                },
                Some(None) => {},
                None => {
                    gate_keeps(env, m, length);
                    let n = if slur {
                        m
                    } else {
                        (mml::gated(env, m, length)->0).1
                    };
                    let duration = if slur {
                        length
                    } else {
                        (mml::gated(env, m, length)->0).0
                    };
                    let note = IrEventView::Note {
                        start: n.cursor,
                        duration,
                        note: pitch as u8,
                        velocity: ir::source_velocity(n.volume as int) as u8,
                        tone: n.tone,
                        envelope: n.envelope,
                        meta: NoteMetaView {
                            note_name: Some(name),
                            source_octave: Some(octave),
                            source_midi_note: Some(pitch as u8),
                            pitch_glide: match glide {
                                Some(g) => g.meta,
                                None => None,
                            },
                            macro_origin: mml::origins(n.macro_stack),
                            macro_call_start: mml::starts_call(n.macro_stack),
                            slur_from_previous: n.slur_from_previous,
                            slur_to_next: slur,
                        },
                    };
                    recorded_now(n, note);
                    let k = MachineView { macro_stack: mml::all_seen(n.macro_stack), ..n.with(note) };
                    moved_on(k, length, slur);
                },
            }
        }
    }
}

proof fn octave_marks_end(s: Seq<char>, pos: int, octave: int)
    requires
        0 <= pos <= s.len(),
    ensures
        pos <= mml::octave_marks(s, pos, octave).0 <= s.len(),
    decreases s.len() - pos,
{
    if pos < s.len() && (s[pos] == '<' || s[pos] == '>') {
        text::run_end_is_longest(s, pos + 1, CharClass::Space);
        octave_marks_end(
            s,
            text::ws_end(s, pos + 1),
            if s[pos] == '<' {
                octave - 1
            } else {
                octave + 1
            },
        );
    }
}

proof fn glide_keeps(env: EnvView, s: Seq<char>, pos: int, m: MachineView)
    requires
        0 <= pos <= s.len(),
        sensible(m),
    ensures
        mml::glide_suffix(env, s, pos, m) matches Some(r) ==> {
            &&& sensible(r.2)
            &&& pos <= r.1 <= s.len()
            &&& r.2.cursor == m.cursor
            &&& r.2.events == m.events
            &&& r.2.macro_stack == m.macro_stack
            &&& r.0 matches Some(g) ==> fraction::not_negative(g.length) && (g.meta is Some
                ==> g.meta->0.target_midi_note <= 127)
        },
{
    text::run_end_is_longest(s, pos, CharClass::Space);
    let start = text::ws_end(s, pos);
    if text::at(s, start, '_') {
        text::run_end_is_longest(s, start + 1, CharClass::Space);
        octave_marks_end(s, text::ws_end(s, start + 1), m.octave as int);
        let (p, octave) = mml::octave_marks(s, text::ws_end(s, start + 1), m.octave as int);
        if i32::MIN <= octave <= i32::MAX {
            let n = MachineView { octave: octave as i32, ..m };
            assert(sensible(n));
            if p < s.len() && tokens::is_note_name(text::lower(s[p])) {
                text::run_end_is_longest(s, p + 1, CharClass::Accidental);
                length_read(env, s, text::run_end(s, p + 1, CharClass::Accidental), n);
            }
        }
    }
}

proof fn note_command_keeps(env: EnvView, s: Seq<char>, pos: int, m: MachineView)
    requires
        0 <= pos < s.len(),
        sensible(m),
    ensures
        mml::note_command(env, s, pos, m) matches Some(r) ==> follows(m, r.1),
{
    let name = text::lower(s[pos]);
    let pitch = mml::midi_note(m.octave_base, m.octave, name, mml::accidentals(s, pos + 1));
    text::run_end_is_longest(s, pos + 1, CharClass::Accidental);
    let a = text::run_end(s, pos + 1, CharClass::Accidental);
    glide_keeps(env, s, a, m);
    if let Some((glide, p, n)) = mml::glide_suffix(env, s, a, m) {
        length_read(env, s, p, n);
        let base = match glide {
            Some(g) => Some((g.length, p, n)),
            None => mml::read_length(env, s, p, n),
        };
        if let Some((length, q, k)) = base {
            ties_read(env, s, q, k, length);
            if let Some((total, e, l)) = mml::read_ties(env, s, q, k, length) {
                note_keeps(env, l, name, m.octave, pitch, glide, total, mml::has_slur(s, e));
            }
        }
    }
}

proof fn plain_length_keeps(
    env: EnvView,
    s: Seq<char>,
    pos: int,
    m: MachineView,
    slur_warning: Seq<char>,
)
    requires
        0 <= pos <= s.len(),
        sensible(m),
    ensures
        mml::plain_length(env, s, pos, m, slur_warning) matches Some(r) ==> fraction::not_negative(r.0)
            && same_but_reports(m, r.2),
{
    length_read(env, s, pos, m);
    if let Some((length, q, k)) = mml::read_length(env, s, pos, m) {
        ties_read(env, s, q, k, length);
    }
}

proof fn drum_keeps(env: EnvView, s: Seq<char>, pos: int, m: MachineView)
    requires
        0 <= pos < s.len(),
        mml::drum_note(text::lower(s[pos])) is Some,
        sensible(m),
    ensures
        mml::drum_command(env, s, pos, m) matches Some(r) ==> follows(m, r.1),
{
    let drum = text::lower(s[pos]);
    let warning = "slur after rhythm note ignored"@;
    plain_length_keeps(env, s, pos + 1, m, warning);
    if let Some((length, end, n)) = mml::plain_length(env, s, pos + 1, m, warning) {
        gate_keeps(env, n, length);
        if let Some((duration, k)) = mml::gated(env, n, length) {
            let volume = if k.rhythm_volumes.contains_key(drum as u32) {
                k.rhythm_volumes[drum as u32]
            } else {
                k.volume
            };
            let note = IrEventView::Note {
                start: k.cursor,
                duration,
                note: mml::drum_note(drum)->0,
                velocity: ir::source_velocity(volume as int) as u8,
                tone: k.tone,
                envelope: None,
                meta: NoteMetaView::none(),
            };
            recorded_now(k, note);
            if k.with(note).moved(length, false) is Some {
                moved_on(k.with(note), length, false);
            }
        }
    }
}

proof fn rest_keeps(env: EnvView, s: Seq<char>, pos: int, m: MachineView)
    requires
        0 <= pos < s.len(),
        sensible(m),
    ensures
        mml::rest_command(env, s, pos, m) matches Some(r) ==> follows(m, r.1),
{
    let warning = "slur after rest ignored"@;
    plain_length_keeps(env, s, pos + 1, m, warning);
    if let Some((length, end, n)) = mml::plain_length(env, s, pos + 1, m, warning) {
        let rest = IrEventView::Rest { start: n.cursor, duration: length };
        recorded_now(n, rest);
        if n.with(rest).moved(length, false) is Some {
            moved_on(n.with(rest), length, false);
        }
    }
}

// ---------------------------------------------------------------------------
// Other commands
// ---------------------------------------------------------------------------
proof fn envelope_command_keeps(env: EnvView, s: Seq<char>, pos: int, m: MachineView)
    requires
        sensible(m),
    ensures
        follows(m, mml::envelope_command(env, s, pos, m).1),
{
    let n = mml::envelope_command(env, s, pos, m).1;
    if let Some(id) = text::u32_at(s, pos + 1) {
        let is_e = text::lower(s[pos]) == 'e';
        let number = text::min_int(id as int, 255) as u8;
        let reference = if is_e {
            EnvelopeRef::E(number)
        } else {
            EnvelopeRef::R(number)
        };
        let kind = if is_e {
            EnvelopeKind::E
        } else {
            EnvelopeKind::R
        };
        let start = MachineView { envelope: Some(reference), ..m };
        let command = IrEventView::AtCommand {
            track: env.track,
            at: m.cursor,
            family: env.family,
            number,
            spelling: if is_e {
                AtSpelling::AtE
            } else {
                AtSpelling::AtR
            },
            context: AtContext::NormalMml,
            span: env.span(),
        };
        recorded_now(start, command);
        let a = start.with(command);
        let select = IrEventView::PsgEnvelopeSelect {
            track: env.track,
            at: m.cursor,
            number,
            kind,
        };
        let apply = IrEventView::EnvelopeApply {
            track: env.track,
            at: m.cursor,
            family: env.family,
            number,
            kind,
        };
        recorded_now(a, select);
        recorded_now(a, apply);
        let b = match env.family {
            SourceFamily::Psg | SourceFamily::PsgNoise => a.with(select),
            SourceFamily::Scc | SourceFamily::Opll => a.with(apply),
            SourceFamily::Rhythm => a,
        };
        let control = IrEventView::Control {
            at: m.cursor,
            kind: ControlKind::Envelope(reference),
        };
        recorded_now(b, control);
        assert(n == b.with(control));
    }
}

proof fn at_number_keeps(env: EnvView, m: MachineView, number: u8)
    requires
        sensible(m),
    ensures
        follows(m, mml::at_number(env, m, number)),
{
    let command = IrEventView::AtCommand {
        track: env.track,
        at: m.cursor,
        family: env.family,
        number,
        spelling: AtSpelling::At,
        context: AtContext::NormalMml,
        span: env.span(),
    };
    recorded_now(m, command);
    let a = m.with(command);
    recorded_now(
        a,
        IrEventView::PsgEnvelopeSelect {
            track: env.track,
            at: m.cursor,
            number,
            kind: EnvelopeKind::At,
        },
    );
    recorded_now(
        a,
        IrEventView::ToneChange {
            track: env.track,
            at: m.cursor,
            family: env.family,
            tone: number,
        },
    );
}

proof fn at_command_keeps(env: EnvView, s: Seq<char>, pos: int, m: MachineView)
    requires
        sensible(m),
    ensures
        follows(m, mml::at_command(env, s, pos, m).1),
{
    let p = pos + 1;
    if p < s.len() {
        envelope_command_keeps(env, s, p, m);
        if let Some(id) = text::u32_at(s, p + 1) {
            recorded_now(
                m,
                IrEventView::Control {
                    at: m.cursor,
                    kind: ControlKind::Text(text::min_int(id as int, 255) as u8),
                },
            );
        }
        if let Some(id) = text::u32_at(s, p) {
            at_number_keeps(env, m, text::min_int(id as int, 255) as u8);
        }
    }
}

proof fn register_command_keeps(env: EnvView, s: Seq<char>, pos: int, m: MachineView)
    requires
        sensible(m),
    ensures
        follows(m, mml::register_command(env, s, pos, m).1),
{
    let q = definitions::data_start(s, pos + 1);
    match (text::i32_at(s, pos + 1), text::i32_at(s, q)) {
        (Some(register), Some(data)) => {
            recorded_now(
                m,
                IrEventView::RegisterWrite {
                    track: env.track,
                    at: m.cursor,
                    family: env.family,
                    register: definitions::byte(register),
                    data: definitions::byte(data),
                    context: RegisterContext::NormalMml,
                    span: env.span(),
                },
            );
        },
        _ => {},
    }
}

proof fn comment_keeps(env: EnvView, s: Seq<char>, pos: int, m: MachineView)
    requires
        sensible(m),
    ensures
        mml::comment_effect(env, s, pos, m) matches Ok(n) ==> follows(m, n),
{
    let end = text::run_end(s, pos + 1, CharClass::LineRest);
    if let Some(directive) = statements::smf_comment(s.subrange(pos + 1, end)) {
        match smf::smf_directive(
            directive,
            Some(env.track),
            m.cursor,
            env.line,
            env.programs,
            env.channels,
        ) {
            Ok(event) => {
                recorded_now(m, event);
            },
            Err(message) => {},
        }
    }
}

proof fn tempo_keeps(env: EnvView, s: Seq<char>, pos: int, m: MachineView)
    requires
        sensible(m),
    ensures
        follows(m, mml::tempo_command(env, s, pos, m).1),
{
    if let Some(bpm) = text::u32_at(s, pos + 1) {
        recorded_now(m, IrEventView::Tempo { at: m.cursor, bpm });
    }
}

/// The state after a command that can be carried out.
pub open spec fn state_after(r: StepView) -> Option<MachineView> {
    match r {
        StepView::Next(_, n) => Some(n),
        StepView::Stop(n) => Some(n),
        _ => None,
    }
}

proof fn command_keeps(env: EnvView, s: Seq<char>, pos: int, m: MachineView)
    requires
        0 <= pos < s.len(),
        sensible(m),
    ensures
        state_after(mml::command(env, s, pos, m)) matches Some(n) ==> follows(m, n),
{
    reveal(mml::command);
    let c = text::lower(s[pos]);
    if env.kind == TrackKind::Rhythm && mml::drum_note(c) is Some {
        drum_keeps(env, s, pos, m);
    } else if tokens::is_note_name(c) {
        note_command_keeps(env, s, pos, m);
    } else if c == 'r' {
        rest_keeps(env, s, pos, m);
    } else if c == 'l' {
        length_goes_on(s, pos + 1, None);
    } else if c == 't' {
        tempo_keeps(env, s, pos, m);
    } else if c == '@' {
        at_command_keeps(env, s, pos, m);
    } else if c == 'y' {
        register_command_keeps(env, s, pos, m);
    } else if c == ';' {
        comment_keeps(env, s, pos, m);
    }
}

// ---------------------------------------------------------------------------
// Whole pieces
// ---------------------------------------------------------------------------
proof fn called_keeps(m: MachineView, frame: FrameView)
    requires
        sensible(m),
    ensures
        sensible(MachineView { macro_stack: m.macro_stack.push(frame), ..m }),
{
}

/// The state at the end, or where reading stopped.
pub open spec fn end_of(r: Result<MachineView, Halt>) -> MachineView {
    match r {
        Ok(n) => n,
        Err(h) => h.machine,
    }
}

/// Whatever is read, to its end or to an error, the state stays one that can come
/// about: volume and gate time stay in range, time does not run back, earlier
/// events stay where they are, later ones stand between the cursor of before and
/// that of after, and every macro call that was begun has ended.
pub proof fn mml_keeps(env: EnvView, s: Seq<char>, pos: int, m: MachineView, depth: int)
    requires
        0 <= pos <= s.len(),
        sensible(m),
    ensures
        follows(m, end_of(mml::run_mml(env, s, pos, m, depth))),
    decreases mml::room(depth), 1int, s.len() - pos,
{
    text::run_end_is_longest(s, pos, CharClass::Space);
    let p = text::ws_end(s, pos);
    if depth > 8 || p >= s.len() {
    } else if s[p] == '[' {
        loop_keeps(env, s, p, m, depth);
        match mml::run_loop(env, s, p, m, depth) {
            Ok((next, n)) => {
                if pos < next <= s.len() {
                    mml_keeps(env, s, next, n, depth);
                    follows_on(m, n, end_of(mml::run_mml(env, s, next, n, depth)));
                }
            },
            Err(e) => {},
        }
    } else if s[p] == '*' {
        let (next, n, call) = mml::macro_reference(env, s, p + 1, m);
        assert(same_but_reports(m, n)) by {
            reveal(mml::macro_reference);
        }
        match call {
            Ok(Some(c)) => {
                macro_keeps(env, c, n, depth);
                if let Ok(k) = mml::run_macro(env, c, n, depth) {
                    if pos < next <= s.len() {
                        mml_keeps(env, s, next, k, depth);
                        follows_on(n, k, end_of(mml::run_mml(env, s, next, k, depth)));
                    }
                }
            },
            Ok(None) => {
                if pos < next <= s.len() {
                    mml_keeps(env, s, next, n, depth);
                }
            },
            Err(e) => {},
        }
    } else {
        command_keeps(env, s, p, m);
        match mml::command(env, s, p, m) {
            StepView::Next(next, n) => {
                if pos < next <= s.len() {
                    mml_keeps(env, s, next, n, depth);
                    follows_on(m, n, end_of(mml::run_mml(env, s, next, n, depth)));
                }
            },
            StepView::Stop(n) => {},
            _ => {},
        }
    }
}

/// A piece that cannot be read to its end leaves a state that can come about too.
pub proof fn errors_keep(
    env: EnvView,
    s: Seq<char>,
    pos: int,
    m: MachineView,
    depth: int,
    n: MachineView,
)
    requires
        0 <= pos <= s.len(),
        sensible(m),
        mml::run_mml(env, s, pos, m, depth) matches Err(h) && mml::halted(h, n),
    ensures
        follows(m, n),
{
    mml_keeps(env, s, pos, m, depth);
}

/// A loop that is not closed changes nothing.
pub proof fn unclosed_loops_change_nothing(
    env: EnvView,
    s: Seq<char>,
    pos: int,
    m: MachineView,
    depth: int,
)
    requires
        0 <= pos < s.len(),
        depth <= 8,
        mml::loop_close(s, text::u32_end(s, pos + 1), 1) is None,
    ensures
        mml::run_loop(env, s, pos, m, depth) == Err::<(int, MachineView), Halt>(
            mml::halt(m, mml::unterminated_loop(env.line)),
        ),
{
}

proof fn macro_keeps(env: EnvView, call: MacroCallView, m: MachineView, depth: int)
    requires
        depth <= 8,
        sensible(m),
    ensures
        follows(m, end_of(mml::run_macro(env, call, m, depth))),
    decreases mml::room(depth), 0int, 0int,
{
    if env.macros.contains_key(call.effective) {
        let frame = FrameView { origin: call.origin, note_seen: false };
        let called = MachineView { macro_stack: m.macro_stack.push(frame), ..m };
        called_keeps(m, frame);
        let body = env.macros[call.effective];
        mml_keeps(env, body, 0, called, depth + 1);
        let n = end_of(mml::run_mml(env, body, 0, called, depth + 1));
        let before = m.macro_stack;
        let after = mml::popped(n.macro_stack);
        assert forall|i: int|
            #![trigger before[i]]
            #![trigger after[i]]
            0 <= i < before.len() implies before[i].origin == after[i].origin by {
            assert(called.macro_stack[i].origin == n.macro_stack[i].origin);
        }
    }
}

proof fn times_keep(env: EnvView, body: Seq<char>, n: nat, m: MachineView, depth: int)
    requires
        sensible(m),
    ensures
        follows(m, end_of(mml::run_times(env, body, n, m, depth))),
    decreases mml::room(depth), 2int, n,
{
    if n > 0 {
        mml_keeps(env, body, 0, m, depth);
        if let Ok(k) = mml::run_mml(env, body, 0, m, depth) {
            times_keep(env, body, (n - 1) as nat, k, depth);
            follows_on(m, k, end_of(mml::run_times(env, body, (n - 1) as nat, k, depth)));
        }
    }
}

proof fn rounds_keep(
    env: EnvView,
    first: Seq<char>,
    second: Seq<char>,
    n: nat,
    m: MachineView,
    depth: int,
)
    requires
        sensible(m),
    ensures
        follows(m, end_of(mml::run_rounds(env, first, second, n, m, depth))),
    decreases mml::room(depth), 2int, n,
{
    mml_keeps(env, first, 0, m, depth);
    if let Ok(k) = mml::run_mml(env, first, 0, m, depth) {
        if n > 0 {
            mml_keeps(env, second, 0, k, depth);
            follows_on(m, k, end_of(mml::run_mml(env, second, 0, k, depth)));
            if let Ok(l) = mml::run_mml(env, second, 0, k, depth) {
                rounds_keep(env, first, second, (n - 1) as nat, l, depth);
                follows_on(
                    m,
                    l,
                    end_of(mml::run_rounds(env, first, second, (n - 1) as nat, l, depth)),
                );
            }
        }
    }
}

proof fn loop_keeps(env: EnvView, s: Seq<char>, pos: int, m: MachineView, depth: int)
    requires
        depth <= 8,
        sensible(m),
    ensures
        match mml::run_loop(env, s, pos, m, depth) {
            Ok((_, n)) => follows(m, n),
            Err(h) => follows(m, h.machine),
        },
    decreases mml::room(depth), 0int, 0int,
{
    let start = text::u32_end(s, pos + 1);
    if let Some(close) = mml::loop_close(s, start, 1) {
        let body = s.subrange(start, close);
        let count = mml::repeat_count(s, pos, close);
        if count == 0 {
            let begin = IrEventView::LoopMarker { at: m.cursor, kind: LoopMarkerKind::Start };
            recorded_now(m, begin);
            let marked = m.with(begin);
            let rounds = match env.loop_count {
                Some(n) => n as nat,
                None => 1,
            };
            times_keep(env, body, rounds, marked, depth + 1);
            follows_on(m, marked, end_of(mml::run_times(env, body, rounds, marked, depth + 1)));
            if let Ok(n) = mml::run_times(env, body, rounds, marked, depth + 1) {
                let end = IrEventView::LoopMarker { at: n.cursor, kind: LoopMarkerKind::End };
                recorded_now(n, end);
                follows_on(m, n, n.with(end));
            }
        } else {
            match mml::alternative_bar(body, 0, 0) {
                Some(bar) => {
                    rounds_keep(
                        env,
                        body.take(bar),
                        body.skip(bar + 1),
                        (count - 1) as nat,
                        m,
                        depth + 1,
                    );
                },
                None => {
                    times_keep(env, body, count as nat, m, depth + 1);
                },
            }
        }
    }
}

// ---------------------------------------------------------------------------
// The top level
// ---------------------------------------------------------------------------
/// Requests of the top level stand at the start of their tracks.
pub open spec fn at_the_start(requests: Seq<TrackRequestView>) -> bool {
    forall|i: int|
        #![trigger requests[i]]
        0 <= i < requests.len() ==> requests[i].event is ManualSmf && stands_at(requests[i].event)
            == fraction::whole(0)
}

proof fn offsets_keep_requests(s: Seq<char>, pos: int, t: TopView, line: usize, found: bool)
    requires
        0 <= pos <= s.len(),
    ensures
        definitions::offset_entries(s, pos, t, line, found).0.requests == t.requests,
        definitions::offset_entries(s, pos, t, line, found).0.loop_count == t.loop_count,
    decreases s.len() - pos,
{
    text::run_end_is_longest(s, pos, CharClass::SpaceComma);
    let start = text::run_end(s, pos, CharClass::SpaceComma);
    if start < s.len() {
        let key = text::lower(s[start]);
        text::run_end_is_longest(s, start + 1, CharClass::Space);
        let eq = text::ws_end(s, start + 1);
        if !text::is_alphabetic(key) {
            let u = t.warned(line, "ignored #macro_offset map character: "@ + seq![s[start]]);
            offsets_keep_requests(s, start + 1, u, line, found);
        } else if !text::at(s, eq, '=') {
            text::run_end_is_longest(s, eq, CharClass::EntryValue);
            let u = t.warned(line, "#macro_offset map entry '"@ + seq![key] + "' without '='"@);
            offsets_keep_requests(s, text::run_end(s, eq, CharClass::EntryValue), u, line, found);
        } else {
            text::i32_end_bounds(s, eq + 1);
            let end = text::i32_end(s, eq + 1);
            match text::i32_at(s, eq + 1) {
                Some(v) => {
                    let offsets = MacroOffsetsView {
                        named: t.offsets.named.insert(key as u32, v),
                        ..t.offsets
                    };
                    offsets_keep_requests(s, end, TopView { offsets, ..t }, line, true);
                },
                None => {
                    let u = t.warned(
                        line,
                        "#macro_offset map entry '"@ + seq![key] + "' without value"@,
                    );
                    offsets_keep_requests(s, end, u, line, found);
                },
            }
        }
    }
}

proof fn directive_keeps_requests(s: Seq<char>, t: TopView, line: usize)
    ensures
        definitions::directive(s, t, line).requests == t.requests,
        definitions::directive(s, t, line).loop_count == t.loop_count,
{
    let end = text::run_end(s, 0, CharClass::Word);
    let rest = if end < s.len() {
        text::trim(s.skip(end + 1))
    } else {
        Seq::empty()
    };
    if let Some(content) = definitions::braced(rest) {
        offsets_keep_requests(content, 0, t, line, false);
    }
}

/// A definition adds no request and does not change the loop count.
pub proof fn definitions_leave_requests(t: TopView, s: Seq<char>, line: usize)
    ensures
        parser::definition(t, s, line) matches Effect::Go(u) ==> u.requests == t.requests && u.loop_count
            == t.loop_count,
{
    directive_keeps_requests(s, t, line);
}

/// A track line adds no request and does not change the loop count.
pub proof fn chunks_leave_requests(
    t: TopView,
    selectors: Seq<char>,
    n: int,
    body: Seq<char>,
    line: usize,
    o: OptionsView,
)
    ensures
        parser::with_chunks(t, selectors, n, body, line, o).requests == t.requests,
        parser::with_chunks(t, selectors, n, body, line, o).loop_count == t.loop_count,
    decreases n,
{
    if 0 < n <= selectors.len() {
        chunks_leave_requests(t, selectors, n - 1, body, line, o);
    }
}

proof fn comment_keeps_requests(t: TopView, body: Seq<char>, line: usize, o: OptionsView)
    requires
        at_the_start(t.requests),
    ensures
        parser::comment_statement(t, body, line, o) matches Ok(u) ==> at_the_start(u.requests),
{
}

proof fn statement_keeps_requests(t: TopView, st: StatementView, o: OptionsView)
    requires
        at_the_start(t.requests),
    ensures
        parser::statement(t, st, o) matches Effect::Go(u) ==> at_the_start(u.requests),
{
    let raw = text::trim(st.text);
    match statements::leading_comment(raw) {
        Some(body) => {
            comment_keeps_requests(t, body, st.line, o);
        },
        None => match statements::track_line(raw) {
            Some((selectors, body)) => {
                chunks_leave_requests(t, selectors, selectors.len() as int, body, st.line, o);
            },
            None => {
                definitions_leave_requests(t, text::trim(statements::without_comment(raw)), st.line);
            },
        },
    }
}

proof fn statements_keep_requests(all: Seq<StatementView>, i: int, t: TopView, o: OptionsView)
    requires
        at_the_start(t.requests),
    ensures
        parser::run_statements(all, i, t, o) matches Ok(u) ==> at_the_start(u.requests),
    decreases all.len() - i,
{
    if 0 <= i < all.len() {
        statement_keeps_requests(t, all[i], o);
        if let Effect::Go(u) = parser::statement(t, all[i], o) {
            statements_keep_requests(all, i + 1, u, o);
        }
    }
}

// ---------------------------------------------------------------------------
// Tracks
// ---------------------------------------------------------------------------
/// A track with events that can be played, in the order of their positions, none
/// of them behind its end.
pub open spec fn well_read(t: TrackIrView) -> bool {
    fraction::not_negative(t.length) && recorded(t.events, t.length)
}

proof fn requests_are_recorded(requests: Seq<TrackRequestView>, n: int, track: Seq<char>)
    requires
        at_the_start(requests),
    ensures
        ({
            let events = tracks::requests_for(requests, n, track);
            &&& recorded(events, fraction::whole(0))
            &&& forall|i: int|
                #![trigger events[i]]
                0 <= i < events.len() ==> stands_at(events[i]) == fraction::whole(0)
        }),
    decreases n,
{
    if 0 < n <= requests.len() {
        requests_are_recorded(requests, n - 1, track);
        let events = tracks::requests_for(requests, n, track);
        let before = tracks::requests_for(requests, n - 1, track);
        assert(at_the_start(requests));
        assert(requests[n - 1].event is ManualSmf);
        if requests[n - 1].track == track {
            assert forall|i: int|
                #![trigger events[i]]
                0 <= i < events.len() implies stands_at(events[i]) == fraction::whole(0) && playable(
                events[i],
            ) by {
                if i < before.len() {
                    assert(events[i] == before[i]);
                }
            }
        }
    }
}

proof fn segments_keep(
    t: TopView,
    o: OptionsView,
    track: Seq<char>,
    segments: Seq<ChunkView>,
    i: int,
    m: MachineView,
)
    requires
        sensible(m),
    ensures
        tracks::run_segments(t, o, track, segments, i, m) matches Ok(n) ==> sensible(n),
    decreases segments.len() - i,
{
    if 0 <= i < segments.len() {
        let env = tracks::segment_env(t, o, track, segments[i]);
        let fresh = MachineView { macro_stack: Seq::empty(), ..m };
        mml_keeps(env, segments[i].body, 0, fresh, 0);
        if let Ok(n) = mml::run_mml(env, segments[i].body, 0, fresh, 0) {
            segments_keep(t, o, track, segments, i + 1, n);
        }
    }
}

proof fn track_is_well_read(t: TopView, o: OptionsView, track: Seq<char>, r: ReadTracks)
    requires
        at_the_start(t.requests),
    ensures
        tracks::read_track(t, o, track, r) matches Ok(q) ==> {
            &&& q.tracks.len() == r.tracks.len() + 1
            &&& q.tracks.drop_last() == r.tracks
            &&& well_read(q.tracks.last())
        },
{
    let n = t.requests.len() as int;
    requests_are_recorded(t.requests, n, track);
    fraction::reduced_is_not_negative(192, 4);
    let start = MachineView::start(
        o.octave_base,
        tracks::requests_for(t.requests, n, track),
        r.tempo_events,
        r.diagnostics,
    );
    segments_keep(t, o, track, tracks::segments_from(t.chunks, 0, track, None, 0), 0, start);
    if let Ok(q) = tracks::read_track(t, o, track, r) {
        assert(q.tracks.drop_last() =~= r.tracks);
    }
}

/// Every track of a source is read into events that can be played, in the order
/// of their positions, none of them behind the end of the track.
pub proof fn tracks_are_well_read(
    t: TopView,
    o: OptionsView,
    order: Seq<Seq<char>>,
    i: int,
    r: ReadTracks,
)
    requires
        at_the_start(t.requests),
        forall|k: int| 0 <= k < r.tracks.len() ==> well_read(#[trigger] r.tracks[k]),
    ensures
        tracks::read_tracks(t, o, order, i, r) matches Ok(q) ==> forall|k: int|
            0 <= k < q.tracks.len() ==> well_read(#[trigger] q.tracks[k]),
    decreases order.len() - i,
{
    if 0 <= i < order.len() {
        track_is_well_read(t, o, order[i], r);
        if let Ok(q) = tracks::read_track(t, o, order[i], r) {
            assert forall|k: int| 0 <= k < q.tracks.len() implies well_read(
                #[trigger] q.tracks[k],
            ) by {
                if k < r.tracks.len() {
                    assert(q.tracks[k] == q.tracks.drop_last()[k]);
                    assert(well_read(r.tracks[k]));
                }
            }
            tracks_are_well_read(t, o, order, i + 1, q);
        }
    }
}

// ---------------------------------------------------------------------------
// Songs
// ---------------------------------------------------------------------------
/// Every event of a list can be played.
pub open spec fn all_playable(events: Seq<IrEventView>) -> bool {
    forall|i: int| 0 <= i < events.len() ==> playable(#[trigger] events[i])
}

proof fn round_is_playable(
    events: Seq<IrEventView>,
    original: Seq<IrEventView>,
    n: int,
    start: Frac,
    stop: Frac,
    shift: Frac,
    horizon: Frac,
)
    requires
        n <= original.len(),
        all_playable(events),
        all_playable(original),
    ensures
        loops::with_round(events, original, n, start, stop, shift, horizon) matches Some(more)
            ==> all_playable(more),
    decreases n,
{
    if n > 0 {
        round_is_playable(events, original, n - 1, start, stop, shift, horizon);
        assert(playable(original[n - 1]));
        if let Some(step) = loops::event_at(original[n - 1]) {
            if let Some(begin) = fraction::plus(step, shift) {
                if fraction::less(begin, horizon) && fraction::minus(horizon, begin) is Some {
                    fraction::minus_is_positive(horizon, begin);
                }
            }
        }
    }
}

proof fn rounds_are_playable(
    events: Seq<IrEventView>,
    original: Seq<IrEventView>,
    start: Frac,
    stop: Frac,
    length: Frac,
    shift: Frac,
    horizon: Frac,
)
    requires
        all_playable(events),
        all_playable(original),
    ensures
        loops::with_rounds(events, original, start, stop, length, shift, horizon) matches Some(more)
            ==> all_playable(more),
    decreases loops::rounds_measure(start, shift, length, horizon),
{
    if loops::with_rounds(events, original, start, stop, length, shift, horizon) is Some && fraction::less(
        fraction::plus(start, shift)->0,
        horizon,
    ) {
        let n = original.len() as int;
        round_is_playable(events, original, n, start, stop, shift, horizon);
        let more = loops::with_round(events, original, n, start, stop, shift, horizon)->0;
        loops::rounds_decrease(start, shift, length, horizon);
        let next = fraction::plus(shift, length)->0;
        rounds_are_playable(more, original, start, stop, length, next, horizon);
    }
}

proof fn track_stays_playable(t: TrackIrView, horizon: Frac, loop_count: Option<u32>)
    requires
        all_playable(t.events),
        fraction::not_negative(t.length),
        fraction::not_negative(horizon),
    ensures
        loops::to_horizon(t, horizon, loop_count) matches Some(u) ==> all_playable(u.events)
            && fraction::not_negative(u.length),
{
    if let Some((start, end)) = loops::region(t) {
        if let Some(expanded) = fraction::minus(end, start) {
            if let Some(length) = loops::single_loop(expanded, loop_count) {
                if let Some(stop) = fraction::plus(start, length) {
                    rounds_are_playable(
                        t.events,
                        t.events,
                        start,
                        stop,
                        length,
                        expanded,
                        horizon,
                    );
                }
            }
        }
    }
}

proof fn tracks_stay_playable(
    tracks: Seq<TrackIrView>,
    n: int,
    horizon: Frac,
    loop_count: Option<u32>,
)
    requires
        n <= tracks.len(),
        fraction::not_negative(horizon),
        forall|k: int|
            0 <= k < tracks.len() ==> all_playable((#[trigger] tracks[k]).events) && fraction::not_negative(
                tracks[k].length,
            ),
    ensures
        loops::all_to_horizon(tracks, n, horizon, loop_count) matches Some(done) ==> forall|k: int|
            0 <= k < done.len() ==> all_playable((#[trigger] done[k]).events) && fraction::not_negative(
                done[k].length,
            ),
    decreases n,
{
    if n > 0 {
        tracks_stay_playable(tracks, n - 1, horizon, loop_count);
        track_stays_playable(tracks[n - 1], horizon, loop_count);
    }
}

proof fn longest_is_not_negative(tracks: Seq<TrackIrView>, n: int)
    requires
        0 < n <= tracks.len(),
        forall|k: int| 0 <= k < tracks.len() ==> fraction::not_negative((#[trigger] tracks[k]).length),
    ensures
        fraction::not_negative(loops::longest(tracks, n)),
    decreases n,
{
    assert(fraction::not_negative(tracks[n - 1].length));
    if n > 1 {
        longest_is_not_negative(tracks, n - 1);
    }
}

/// Every event of a song can be played: no length is negative, and the pitches,
/// the velocities and the targets of glides are in the range of MIDI.
pub proof fn songs_are_playable(text: Seq<char>, o: OptionsView)
    ensures
        parser::parsed(text, o) matches Ok(song) ==> forall|k: int|
            0 <= k < song.tracks.len() ==> all_playable((#[trigger] song.tracks[k]).events)
                && fraction::not_negative(song.tracks[k].length),
{
    let top = TopView::start(o.ppq, o.loop_count);
    statements_keep_requests(statements::statements(text), 0, top, o);
    if let Ok(t) = parser::run_statements(statements::statements(text), 0, top, o) {
        let start = ReadTracks {
            tracks: Seq::empty(),
            tempo_events: t.song.tempo_events,
            diagnostics: t.song.diagnostics,
        };
        tracks_are_well_read(t, o, tracks::track_order(t), 0, start);
        if let Ok(r) = tracks::read_tracks(t, o, tracks::track_order(t), 0, start) {
            let n = r.tracks.len() as int;
            assert forall|k: int| 0 <= k < n implies all_playable((#[trigger] r.tracks[k]).events)
                && fraction::not_negative(r.tracks[k].length) by {
                assert(well_read(r.tracks[k]));
            }
            if n > 0 {
                let horizon = loops::longest(r.tracks, n);
                longest_is_not_negative(r.tracks, n);
                tracks_stay_playable(r.tracks, n, horizon, t.loop_count);
            }
        }
    }
}

} // verus!
