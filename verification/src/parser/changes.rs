//! What the commands of a track change: loudness, octaves, lengths, tempi, tones.

use vstd::prelude::*;

use crate::fraction;
use crate::ir;
use crate::ir::{ControlKind, EnvelopeKind, EnvelopeRef, IrEventView, SourceFamily, TrackKind};
use crate::parser::mml;
use crate::parser::mml::{EnvView, MachineView, StepView};
use crate::parser::music;
use crate::parser::tokens;
use crate::text;
use crate::text::CharClass;

verus! {

// ---------------------------------------------------------------------------
// Numbers
// ---------------------------------------------------------------------------
/// A number stands at `pos`, in decimal notation and with nothing more.
pub open spec fn number_at(s: Seq<char>, pos: int, n: nat) -> bool {
    let end = pos + text::decimal(n).len();
    &&& 0 <= pos
    &&& end <= s.len()
    &&& s.subrange(pos, end) == text::decimal(n)
    &&& end < s.len() ==> !('0' <= s[end] <= '9')
}

/// The position after the number that stands at `pos`.
pub open spec fn after_number(pos: int, n: nat) -> int {
    pos + text::decimal(n).len()
}

/// No number stands at `pos`.
pub open spec fn no_number_at(s: Seq<char>, pos: int) -> bool {
    pos == s.len() || (0 <= pos < s.len() && !text::is_space(s[pos]) && !('0' <= s[pos] <= '9') && s[pos]
        != '+' && s[pos] != '-')
}

proof fn digits_lead_on(s: Seq<char>, pos: int, n: nat)
    requires
        0 <= pos,
        pos + text::decimal(n).len() <= s.len(),
        s.subrange(pos, pos + text::decimal(n).len()) == text::decimal(n),
    ensures
        text::decimal(n).len() > 0,
        text::is_digit(s[pos]),
        text::digits_value(s, pos, 0) == text::digits_value(s, pos + text::decimal(n).len(), n),
        text::run_end(s, pos, CharClass::Digit) == text::run_end(
            s,
            pos + text::decimal(n).len(),
            CharClass::Digit,
        ),
    decreases n,
{
    let t = s.subrange(pos, pos + text::decimal(n).len());
    if n < 10 {
        assert(t[0] == s[pos]);
        assert(s[pos] == text::digit_char(n));
        assert(text::digits_value(s, pos + 1, n) == text::digits_value(s, pos, 0));
        assert(text::run_end(s, pos, CharClass::Digit) == text::run_end(s, pos + 1, CharClass::Digit));
    } else {
        let rest = text::decimal(n / 10);
        let last = pos + rest.len();
        assert(s.subrange(pos, last) =~= rest) by {
            assert forall|i: int| 0 <= i < rest.len() implies s.subrange(pos, last)[i]
                == rest[i] by {
                assert(t[i] == s[pos + i]);
            }
        }
        digits_lead_on(s, pos, n / 10);
        assert(t[rest.len() as int] == s[last]);
        assert(s[last] == text::digit_char(n % 10));
        assert(text::digits_value(s, last, n / 10) == text::digits_value(s, last + 1, n));
        assert(text::run_end(s, last, CharClass::Digit) == text::run_end(s, last + 1, CharClass::Digit));
    }
}

/// A number is read as what it says, to its last digit; a number that is too
/// large counts as the largest.
pub proof fn numbers_are_read(s: Seq<char>, pos: int, n: nat)
    requires
        number_at(s, pos, n),
    ensures
        text::u32_at(s, pos) == Some(
            if n <= 0xffff_ffff {
                n as u32
            } else {
                0xffff_ffffu32
            },
        ),
        text::u32_end(s, pos) == after_number(pos, n),
{
    digits_lead_on(s, pos, n);
    assert(text::ws_end(s, pos) == pos);
    let end = after_number(pos, n);
    assert(text::run_end(s, end, CharClass::Digit) == end);
    assert(text::digits_value(s, end, n) == n);
}

/// A number may carry a sign: a minus before it makes it negative.
pub proof fn signed_numbers_are_read(s: Seq<char>, pos: int, n: nat)
    requires
        n <= 0x7fff_ffff,
    ensures
        number_at(s, pos, n) ==> text::i32_at(s, pos) == Some(n as i32) && text::i32_end(s, pos)
            == after_number(pos, n),
        0 <= pos && text::at(s, pos, '-') && number_at(s, pos + 1, n) ==> text::i32_at(s, pos) == Some(
            (-n) as i32,
        ) && text::i32_end(s, pos) == after_number(pos + 1, n),
        0 <= pos && text::at(s, pos, '+') && number_at(s, pos + 1, n) ==> text::i32_at(s, pos) == Some(n as i32)
            && text::i32_end(s, pos) == after_number(pos + 1, n),
{
    if number_at(s, pos, n) {
        numbers_are_read(s, pos, n);
        digits_lead_on(s, pos, n);
        assert(text::ws_end(s, pos) == pos);
        assert(text::sign_end(s, pos) == pos);
    }
    if number_at(s, pos + 1, n) {
        numbers_are_read(s, pos + 1, n);
    }
    if 0 <= pos && (text::at(s, pos, '-') || text::at(s, pos, '+')) {
        assert(text::ws_end(s, pos) == pos);
    }
}

/// Decimal notation: each digit counts ten times what the next one does.
pub proof fn digits_are_decimal(n: nat, d: nat)
    requires
        d < 10,
    ensures
        n > 0 ==> text::decimal(10 * n + d) == text::decimal(n) + text::decimal(d),
        text::decimal(d).len() == 1,
        text::decimal(d)[0] as int == '0' as int + d,
{
    if n > 0 {
        assert((10 * n + d) / 10 == n);
        assert((10 * n + d) % 10 == d);
        assert(text::decimal(10 * n + d) =~= text::decimal(n) + text::decimal(d));
    }
}

proof fn none_is_read(s: Seq<char>, pos: int)
    requires
        no_number_at(s, pos),
    ensures
        text::i32_at(s, pos) is None,
        text::i32_end(s, pos) == pos,
{
    assert(text::ws_end(s, pos) == pos);
    assert(text::sign_end(s, pos) == pos);
    assert(text::u32_end(s, pos) == pos);
}

// ---------------------------------------------------------------------------
// Loudness
// ---------------------------------------------------------------------------
/// A command leads to a position and a state, and adds no event.
pub open spec fn becomes(r: StepView, end: int, n: MachineView) -> bool {
    r == StepView::Next(end, n)
}

/// `v` and a number is that volume, fifteen at most, on a track of melodies.
pub proof fn volumes_are_set(env: EnvView, s: Seq<char>, pos: int, m: MachineView, n: nat)
    requires
        env.kind == TrackKind::Melodic,
        text::at(s, pos, 'v'),
        number_at(s, pos + 1, n),
        n <= 0x7fff_ffff,
    ensures
        becomes(
            mml::command(env, s, pos, m),
            after_number(pos + 1, n),
            MachineView {
                volume: if n <= 15 {
                    n as i32
                } else {
                    15
                },
                ..m
            },
        ),
{
    reveal(mml::command);
    signed_numbers_are_read(s, pos + 1, n);
    digits_lead_on(s, pos + 1, n);
    assert(text::lower('v') == 'v');
}

/// `)` makes louder and `(` softer, by one or by the number that follows, within
/// the range of volumes; `v+` and `v-` do the same.
pub proof fn volumes_move(env: EnvView, s: Seq<char>, pos: int, m: MachineView, n: nat)
    requires
        env.kind == TrackKind::Melodic,
        0 <= m.volume <= 15,
        n <= 0x7fff_ffff,
        0 <= pos < s.len(),
    ensures
        ({
            let louder = MachineView {
                volume: if m.volume + n <= 15 {
                    (m.volume + n) as i32
                } else {
                    15
                },
                ..m
            };
            let softer = MachineView {
                volume: if m.volume - n >= 0 {
                    (m.volume - n) as i32
                } else {
                    0
                },
                ..m
            };
            let amount = (n == 1 && no_number_at(s, pos + 1)) || number_at(s, pos + 1, n);
            let end = if number_at(s, pos + 1, n) {
                after_number(pos + 1, n)
            } else {
                pos + 1
            };
            &&& amount && s[pos] == ')' ==> becomes(mml::command(env, s, pos, m), end, louder)
            &&& amount && s[pos] == '(' ==> becomes(mml::command(env, s, pos, m), end, softer)
            &&& amount && s[pos] == '+' && pos > 0 && s[pos - 1] == 'v' ==> becomes(
                mml::command(env, s, pos - 1, m),
                end,
                louder,
            )
            &&& amount && s[pos] == '-' && pos > 0 && s[pos - 1] == 'v' ==> becomes(
                mml::command(env, s, pos - 1, m),
                end,
                softer,
            )
        }),
{
    reveal(mml::command);
    signed_numbers_are_read(s, pos + 1, n);
    if no_number_at(s, pos + 1) {
        none_is_read(s, pos + 1);
    }
    assert(text::lower('v') == 'v');
    assert(text::lower('(') == '(');
    assert(text::lower(')') == ')');
}

// ---------------------------------------------------------------------------
// Octaves
// ---------------------------------------------------------------------------
/// `o` sets the octave. `>` is the octave above and `<` the octave below: one
/// undoes the other.
pub proof fn octaves_move(env: EnvView, s: Seq<char>, pos: int, m: MachineView, n: nat)
    requires
        0 <= pos < s.len(),
        n <= 0x7fff_ffff,
    ensures
        s[pos] == 'o' && number_at(s, pos + 1, n) ==> becomes(
            mml::command(env, s, pos, m),
            after_number(pos + 1, n),
            MachineView { octave: n as i32, ..m },
        ),
        s[pos] == '>' && m.octave < i32::MAX ==> becomes(
            mml::command(env, s, pos, m),
            pos + 1,
            MachineView { octave: (m.octave + 1) as i32, ..m },
        ),
        s[pos] == '<' && m.octave > i32::MIN ==> becomes(
            mml::command(env, s, pos, m),
            pos + 1,
            MachineView { octave: (m.octave - 1) as i32, ..m },
        ),
        pos + 1 < s.len() && s[pos] == '>' && s[pos + 1] == '<' && m.octave < i32::MAX ==> (mml::command(
            env,
            s,
            pos,
            m,
        ) matches StepView::Next(p, k) && becomes(mml::command(env, s, p, k), pos + 2, m)),
{
    reveal(mml::command);
    signed_numbers_are_read(s, pos + 1, n);
    assert(text::lower('o') == 'o');
    assert(text::lower('>') == '>');
    assert(text::lower('<') == '<');
}

// ---------------------------------------------------------------------------
// Lengths, gates, tempi
// ---------------------------------------------------------------------------
/// `l` and a number make that part of a whole note the length of the notes that
/// give none; nothing else changes.
pub proof fn default_lengths_are_set(env: EnvView, s: Seq<char>, pos: int, m: MachineView, n: nat)
    requires
        text::at(s, pos, 'l'),
        number_at(s, pos + 1, n),
        0 < n <= 0xffff_ffff,
        music::over_at(s, after_number(pos + 1, n)),
    ensures
        mml::command(env, s, pos, m) matches StepView::Next(end, k) && end == after_number(pos + 1, n)
            && k.default_length.num * n == 192 * k.default_length.den && k == (MachineView {
            default_length: k.default_length,
            ..m
        }),
{
    reveal(mml::command);
    numbers_are_read(s, pos + 1, n);
    digits_lead_on(s, pos + 1, n);
    assert(text::ws_end(s, pos + 1) == pos + 1);
    assert(text::lower('l') == 'l');
    let end = after_number(pos + 1, n);
    assert(text::run_end(s, end, CharClass::Dot) == end);
    fraction::frac_reduces(192, n as int);
}

/// `q` sets how many eighths of a note sound: eight at most.
pub proof fn gates_are_set(env: EnvView, s: Seq<char>, pos: int, m: MachineView, n: nat)
    requires
        text::at(s, pos, 'q'),
        number_at(s, pos + 1, n),
        n <= 0x7fff_ffff,
    ensures
        becomes(
            mml::command(env, s, pos, m),
            after_number(pos + 1, n),
            MachineView {
                q: if n <= 8 {
                    n as i32
                } else {
                    8
                },
                ..m
            },
        ),
{
    reveal(mml::command);
    signed_numbers_are_read(s, pos + 1, n);
    assert(text::lower('q') == 'q');
}

/// `t` and a number is the tempo from here on, for the song and on the track.
pub proof fn tempos_are_set(env: EnvView, s: Seq<char>, pos: int, m: MachineView, n: nat)
    requires
        text::at(s, pos, 't'),
        number_at(s, pos + 1, n),
        n <= 0xffff_ffff,
    ensures
        mml::command(env, s, pos, m) matches StepView::Next(end, k) && end == after_number(pos + 1, n) && k
            == (MachineView {
            events: m.events.push(IrEventView::Tempo { at: m.cursor, bpm: n as u32 }),
            tempo_events: k.tempo_events,
            ..m
        }) && k.tempo_events.len() == m.tempo_events.len() + 1 && k.tempo_events.drop_last()
            == m.tempo_events && k.tempo_events.last().at == m.cursor && k.tempo_events.last().bpm
            == n && k.tempo_events.last().line == Some(env.line),
{
    reveal(mml::command);
    numbers_are_read(s, pos + 1, n);
    assert(text::lower('t') == 't');
    if let StepView::Next(_, k) = mml::command(env, s, pos, m) {
        assert(k.tempo_events.drop_last() =~= m.tempo_events);
    }
}

// ---------------------------------------------------------------------------
// Tones, envelopes, registers
// ---------------------------------------------------------------------------
/// `@` and a number on an SCC or OPLL track is the tone of the notes from here
/// on; on a PSG track it is their envelope. Both are recorded where they stand.
pub proof fn tones_are_chosen(env: EnvView, s: Seq<char>, pos: int, m: MachineView, n: nat)
    requires
        text::at(s, pos, '@'),
        number_at(s, pos + 1, n),
        n <= 255,
    ensures
        (env.family == SourceFamily::Scc || env.family == SourceFamily::Opll) ==> (mml::command(
            env,
            s,
            pos,
            m,
        ) matches StepView::Next(end, k) && end == after_number(pos + 1, n) && k == (MachineView {
            tone: Some(n as u8),
            events: k.events,
            ..m
        }) && k.events.len() == m.events.len() + 2 && k.events.last() == (IrEventView::ToneChange {
            track: env.track,
            at: m.cursor,
            family: env.family,
            tone: n as u8,
        })),
        (env.family == SourceFamily::Psg || env.family == SourceFamily::PsgNoise) ==> (mml::command(
            env,
            s,
            pos,
            m,
        ) matches StepView::Next(end, k) && end == after_number(pos + 1, n) && k == (MachineView {
            envelope: Some(EnvelopeRef::E(n as u8)),
            events: k.events,
            ..m
        }) && k.events.len() == m.events.len() + 2 && k.events.last() == (
        IrEventView::PsgEnvelopeSelect {
            track: env.track,
            at: m.cursor,
            number: n as u8,
            kind: EnvelopeKind::At,
        })),
{
    reveal(mml::command);
    numbers_are_read(s, pos + 1, n);
    digits_lead_on(s, pos + 1, n);
    assert(text::lower('@') == '@');
    assert('0' <= s[pos + 1] <= '9');
    assert(text::lower(s[pos + 1]) == s[pos + 1]);
}

/// `@e` and `@r` choose an envelope of their own kind, which the notes from here
/// on carry.
pub proof fn envelopes_are_chosen(env: EnvView, s: Seq<char>, pos: int, m: MachineView, n: nat)
    requires
        text::at(s, pos, '@'),
        pos + 1 < s.len(),
        number_at(s, pos + 2, n),
        n <= 255,
        s[pos + 1] == 'e' || s[pos + 1] == 'r',
    ensures
        ({
            let chosen = if s[pos + 1] == 'e' {
                EnvelopeRef::E(n as u8)
            } else {
                EnvelopeRef::R(n as u8)
            };
            mml::command(env, s, pos, m) matches StepView::Next(end, k) && end == after_number(
                pos + 2,
                n,
            ) && k == (MachineView { envelope: Some(chosen), events: k.events, ..m })
                && k.events.len() > m.events.len() && k.events.last() == (IrEventView::Control {
                at: m.cursor,
                kind: ControlKind::Envelope(chosen),
            })
        }),
{
    reveal(mml::command);
    numbers_are_read(s, pos + 2, n);
    assert(text::lower('@') == '@');
    assert(text::lower('e') == 'e');
    assert(text::lower('r') == 'r');
}

/// `y` writes a value into a register, both as they are written.
pub proof fn registers_are_written(
    env: EnvView,
    s: Seq<char>,
    pos: int,
    m: MachineView,
    register: nat,
    value: nat,
)
    requires
        text::at(s, pos, 'y'),
        number_at(s, pos + 1, register),
        text::at(s, after_number(pos + 1, register), ','),
        number_at(s, after_number(pos + 1, register) + 1, value),
        register <= 255,
        value <= 255,
    ensures
        mml::command(env, s, pos, m) matches StepView::Next(end, k) && end == after_number(
            after_number(pos + 1, register) + 1,
            value,
        ) && k == (MachineView { events: k.events, ..m }) && k.events.len() == m.events.len() + 1
            && (k.events.last() matches IrEventView::RegisterWrite {
            track,
            at,
            family,
            register: r,
            data,
            ..
        } && track == env.track && at == m.cursor && family == env.family && r == register && data
            == value),
{
    reveal(mml::command);
    signed_numbers_are_read(s, pos + 1, register);
    let comma = after_number(pos + 1, register);
    assert(text::ws_end(s, comma) == comma);
    signed_numbers_are_read(s, comma + 1, value);
    assert(text::lower('y') == 'y');
}

// ---------------------------------------------------------------------------
// Drums
// ---------------------------------------------------------------------------
/// The key of General MIDI that a drum letter plays: bass drum, snare, tom,
/// crash cymbal and hi-hat.
pub open spec fn kit_key(c: char, key: u8) -> bool {
    (c == 'b' && key == 36) || (c == 's' && key == 38) || (c == 'm' && key == 45) || (c == 'c' && key
        == 49) || (c == 'h' && key == 42)
}

/// On a rhythm track a drum letter plays its drum, as loud as that drum has been
/// set, else as loud as the track.
pub proof fn drums_are_played(env: EnvView, s: Seq<char>, pos: int, m: MachineView, key: u8)
    requires
        env.kind == TrackKind::Rhythm,
        0 <= pos < s.len(),
        kit_key(s[pos], key),
        music::over_at(s, pos + 1),
    ensures
        mml::command(env, s, pos, m) matches StepView::Next(end, k) ==> end == pos + 1 && k.events.len()
            == m.events.len() + 1 && (k.events.last() matches IrEventView::Note {
            start,
            note,
            velocity,
            ..
        } && start == m.cursor && note == key && velocity == ir::source_velocity(
            (if m.rhythm_volumes.contains_key(s[pos] as u32) {
                m.rhythm_volumes[s[pos] as u32]
            } else {
                m.volume
            }) as int,
        )),
{
    reveal(mml::command);
    assert(text::ws_end(s, pos + 1) == pos + 1);
    assert(text::u32_end(s, pos + 1) == pos + 1);
    assert(text::run_end(s, pos + 1, CharClass::Dot) == pos + 1);
    assert(mml::slur_end(s, pos + 1) == pos + 1);
    assert(text::lower(s[pos]) == s[pos]);
}

/// A volume given to one drum is that drum's alone.
pub proof fn drums_have_their_volumes(
    env: EnvView,
    s: Seq<char>,
    pos: int,
    m: MachineView,
    key: u8,
    n: nat,
)
    requires
        env.kind == TrackKind::Rhythm,
        text::at(s, pos, 'v'),
        pos + 1 < s.len(),
        kit_key(s[pos + 1], key),
        number_at(s, pos + 2, n),
        n <= 15,
    ensures
        becomes(
            mml::command(env, s, pos, m),
            after_number(pos + 2, n),
            MachineView {
                rhythm_volumes: m.rhythm_volumes.insert(s[pos + 1] as u32, n as i32),
                ..m
            },
        ),
{
    reveal(mml::command);
    signed_numbers_are_read(s, pos + 2, n);
    assert(text::lower('v') == 'v');
    assert(text::lower(s[pos + 1]) == s[pos + 1]);
}

// ---------------------------------------------------------------------------
// What makes no sound
// ---------------------------------------------------------------------------
/// A comma does nothing, and an exclamation mark ends the piece. What cannot be
/// rendered, and what stands in the wrong place, is reported and changes nothing
/// else; reading goes on behind it.
pub proof fn silent_signs_only_report(env: EnvView, s: Seq<char>, pos: int, m: MachineView)
    requires
        0 <= pos < s.len(),
        env.kind == TrackKind::Melodic,
    ensures
        s[pos] == ',' ==> becomes(mml::command(env, s, pos, m), pos + 1, m),
        s[pos] == '!' ==> mml::command(env, s, pos, m) == StepView::Stop(m),
        (s[pos] == ']' || s[pos] == '|' || s[pos] == '}' || s[pos] == '?' || s[pos] == 'x')
            ==> (mml::command(env, s, pos, m) matches StepView::Next(p, n) && p == pos + 1
            && music::only_reports(m, n) && n.diagnostics.parse_warnings.len()
            == m.diagnostics.parse_warnings.len() + 1),
        (s[pos] == 'm' || s[pos] == 's' || s[pos] == 'n' || s[pos] == 'p' || s[pos] == 'h' || s[pos]
            == 'k' || s[pos] == '/' || s[pos] == '$') ==> (mml::command(env, s, pos, m) matches StepView::Next(
            _,
            n,
        ) && music::only_reports(m, n) && n.diagnostics.unsupported_commands.len()
            == m.diagnostics.unsupported_commands.len() + 1),
{
    reveal(mml::command);
    assert(text::lower(s[pos]) == s[pos] || 'A' <= s[pos] <= 'Z');
}

/// A comment in the music is passed over, to the end of its line.
pub proof fn comments_are_passed_over(
    env: EnvView,
    comment: Seq<char>,
    rest: Seq<char>,
    m: MachineView,
)
    requires
        comment.len() > 0,
        comment[0] != '@',
        !text::is_space(comment[0]),
        forall|i: int| 0 <= i < comment.len() ==> #[trigger] comment[i] != '\n',
    ensures
        becomes(
            mml::command(env, seq![';'] + comment + seq!['\n'] + rest, 0, m),
            comment.len() as int + 2,
            m,
        ),
{
    reveal(mml::command);
    let s = seq![';'] + comment + seq!['\n'] + rest;
    let end = comment.len() as int + 1;
    assert(s[0] == ';');
    assert(text::lower(';') == ';');
    assert(s[end] == '\n');
    assert forall|i: int| 1 <= i < end implies #[trigger] s[i] != '\n' by {
        assert(s[i] == comment[i - 1]);
    }
    line_ends(s, 1, end);
    let body = s.subrange(1, end);
    assert(body =~= comment);
    assert(text::ws_end(body, 0) == 0);
    assert(body.skip(0) =~= body);
    reveal_strlit("@smf");
    assert(!"@smf"@.is_prefix_of(body)) by {
        if "@smf"@.is_prefix_of(body) {
            assert("@smf"@[0] == body[0]);
        }
    }
}

proof fn line_ends(s: Seq<char>, i: int, end: int)
    requires
        0 <= i <= end < s.len(),
        s[end] == '\n',
        forall|j: int| i <= j < end ==> #[trigger] s[j] != '\n',
    ensures
        text::run_end(s, i, CharClass::LineRest) == end,
    decreases end - i,
{
    if i < end {
        line_ends(s, i + 1, end);
    }
}

/// A command that is not rendered takes its numbers with it, commas between them:
/// what is reported is all of it, and reading goes on behind it.
pub proof fn silent_commands_take_their_numbers(
    env: EnvView,
    s: Seq<char>,
    pos: int,
    m: MachineView,
    a: nat,
    b: nat,
)
    requires
        env.kind == TrackKind::Melodic,
        0 <= pos < s.len(),
        s[pos] == 'm' || s[pos] == 's' || s[pos] == 'n' || s[pos] == 'p' || s[pos] == 'h' || s[pos]
            == '/' || s[pos] == '\\',
        number_at(s, pos + 1, a),
        a <= 0x7fff_ffff,
        b <= 0x7fff_ffff,
    ensures
        ({
            let end = after_number(pos + 1, a);
            &&& music::over_at(s, end) && !text::at(s, end, ',') ==> (mml::command(env, s, pos, m) matches StepView::Next(
                p,
                n,
            ) && p == end && music::only_reports(m, n)
                && n.diagnostics.unsupported_commands.last().command == s.subrange(pos, end))
            &&& text::at(s, end, ',') && number_at(s, end + 1, b) && music::over_at(s, after_number(end + 1, b))
                && !text::at(s, after_number(end + 1, b), ',') ==> (mml::command(env, s, pos, m) matches StepView::Next(
                p,
                n,
            ) && p == after_number(end + 1, b) && music::only_reports(m, n)
                && n.diagnostics.unsupported_commands.last().command == s.subrange(pos, p))
        }),
{
    reveal(mml::command);
    let end = after_number(pos + 1, a);
    signed_numbers_are_read(s, pos + 1, a);
    digits_lead_on(s, pos + 1, a);
    assert(text::lower(s[pos]) == s[pos]);
    no_keyword(s, pos);
    if music::over_at(s, end) && !text::at(s, end, ',') {
        assert(text::ws_end(s, end) == end);
        assert(tokens::numbers_end(s, end) == end);
    }
    if text::at(s, end, ',') && number_at(s, end + 1, b) && music::over_at(s, after_number(end + 1, b)) && !text::at(
        s,
        after_number(end + 1, b),
        ',',
    ) {
        let last = after_number(end + 1, b);
        signed_numbers_are_read(s, end + 1, b);
        assert(text::ws_end(s, end) == end);
        assert(text::ws_end(s, last) == last);
        assert(tokens::numbers_end(s, last) == last);
        assert(tokens::numbers_end(s, end) == last);
    }
}

proof fn no_keyword(s: Seq<char>, pos: int)
    requires
        0 <= pos,
        pos + 1 < s.len(),
        '0' <= s[pos + 1] <= '9',
    ensures
        !tokens::keyword_at(s, pos, "so"@),
        !tokens::keyword_at(s, pos, "sf"@),
        !tokens::keyword_at(s, pos, "ho"@),
        !tokens::keyword_at(s, pos, "hf"@),
        !tokens::keyword_at(s, pos, "hi"@),
{
    reveal_strlit("so");
    reveal_strlit("sf");
    reveal_strlit("ho");
    reveal_strlit("hf");
    reveal_strlit("hi");
    let two = s.subrange(pos, pos + 2);
    assert(two[1] == s[pos + 1]);
    assert(text::lower_all(two)[1] == text::lower(s[pos + 1]));
    assert("so"@.len() == 2 && "sf"@.len() == 2 && "ho"@.len() == 2 && "hf"@.len() == 2
        && "hi"@.len() == 2);
    assert("so"@[1] == 'o' && "sf"@[1] == 'f' && "ho"@[1] == 'o' && "hf"@[1] == 'f' && "hi"@[1]
        == 'i');
}

} // verus!
