//! What written music means: pitches, lengths, loudness, repeats.

use vstd::prelude::*;

use crate::fraction;
use crate::fraction::Frac;
use crate::ir::{IrEventView, TrackKind};
use crate::parser::mml;
use crate::parser::mml::{EnvView, GlideView, MachineView, StepView};
use crate::parser::tokens;
use crate::text;
use crate::text::CharClass;

verus! {

// ---------------------------------------------------------------------------
// Words of the laws
// ---------------------------------------------------------------------------
/// A note letter stands at `pos`, on a track that plays melodies.
pub open spec fn letter_at(env: EnvView, s: Seq<char>, pos: int) -> bool {
    env.kind == TrackKind::Melodic && 0 <= pos < s.len() && 'a' <= s[pos] <= 'g'
}

/// A command adds one note to the track, on a key of MIDI.
pub open spec fn plays(r: StepView, m: MachineView, key: int) -> bool {
    r matches StepView::Next(_, n) && n.events.len() == m.events.len() + 1
        && (n.events.last() matches IrEventView::Note { note, .. } && note == key)
}

/// A sharp or a flat stands at `pos`.
pub open spec fn altered_at(s: Seq<char>, pos: int) -> bool {
    0 <= pos < s.len() && (s[pos] == '+' || s[pos] == '#' || s[pos] == '-')
}

/// Nothing that could belong to a note stands at `pos`.
pub open spec fn over_at(s: Seq<char>, pos: int) -> bool {
    pos == s.len() || (0 <= pos < s.len() && !text::is_space(s[pos]) && !('0' <= s[pos] <= '9') && s[pos]
        != '+' && s[pos] != '#' && s[pos] != '-' && s[pos] != '%' && s[pos] != '.' && s[pos] != '^'
        && s[pos] != '&' && s[pos] != '_')
}

/// One position is a fraction of steps after another.
pub open spec fn apart(a: Frac, b: Frac, num: int, den: int) -> bool {
    (b.num * a.den - a.num * b.den) * den == num * (a.den * b.den)
}

/// Only what is reported differs.
pub open spec fn only_reports(m: MachineView, n: MachineView) -> bool {
    n == MachineView { diagnostics: n.diagnostics, ..m }
}

// ---------------------------------------------------------------------------
// Reading
// ---------------------------------------------------------------------------
proof fn ties_only_report(env: EnvView, s: Seq<char>, pos: int, m: MachineView, length: Frac)
    requires
        0 <= pos <= s.len(),
    ensures
        mml::read_ties(env, s, pos, m, length) matches Some(r) ==> only_reports(m, r.2),
    decreases s.len() - pos,
{
    let p = text::ws_end(s, pos);
    if text::at(s, p, '^') {
        if let Some((extra, end, n)) = mml::read_length(env, s, text::ws_end(s, p + 1), m) {
            if let Some(sum) = fraction::plus(length, extra) {
                if pos < end <= s.len() {
                    ties_only_report(env, s, end, n, sum);
                }
            }
        }
    }
}

pub proof fn letter_is_a_note(env: EnvView, s: Seq<char>, pos: int, m: MachineView)
    requires
        env.kind == TrackKind::Melodic,
        0 <= pos < s.len(),
        tokens::is_note_name(text::lower(s[pos])),
    ensures
        mml::command(env, s, pos, m) == mml::step_of(mml::note_command(env, s, pos, m)),
{
    reveal(mml::command);
}

proof fn note_is_its_pitch(
    env: EnvView,
    m: MachineView,
    name: char,
    octave: i32,
    pitch: int,
    glide: Option<GlideView>,
    length: Frac,
    slur: bool,
)
    ensures
        mml::play_note(env, m, name, octave, pitch, glide, length, slur) matches Some(n) ==> {
            &&& n.events.len() <= m.events.len() + 1
            &&& n.events.len() == m.events.len() + 1 ==> {
                &&& n.events.last() matches IrEventView::Note { note, .. }
                &&& note == pitch
            }
        },
{
}

proof fn glides_only_report(env: EnvView, s: Seq<char>, pos: int, m: MachineView)
    requires
        0 <= pos <= s.len(),
    ensures
        mml::glide_suffix(env, s, pos, m) matches Some(r) ==> {
            &&& only_reports(MachineView { octave: r.2.octave, ..m }, r.2)
            &&& pos <= r.1 <= s.len()
        },
{
    text::run_end_is_longest(s, pos, CharClass::Space);
    let start = text::ws_end(s, pos);
    if text::at(s, start, '_') {
        text::run_end_is_longest(s, start + 1, CharClass::Space);
        marks_end(s, text::ws_end(s, start + 1), m.octave as int);
        let (p, octave) = mml::octave_marks(s, text::ws_end(s, start + 1), m.octave as int);
        if i32::MIN <= octave <= i32::MAX && p < s.len() && tokens::is_note_name(text::lower(s[p])) {
            text::run_end_is_longest(s, p + 1, CharClass::Accidental);
            length_ends(s, text::run_end(s, p + 1, CharClass::Accidental), Some(m.default_length));
        }
    }
}

/// The note that a letter means, whatever follows its accidentals.
proof fn letters_play_their_note(env: EnvView, s: Seq<char>, pos: int, m: MachineView)
    requires
        env.kind == TrackKind::Melodic,
        0 <= pos < s.len(),
        tokens::is_note_name(text::lower(s[pos])),
    ensures
        mml::command(env, s, pos, m) matches StepView::Next(_, n) ==> {
            &&& n.events.len() <= m.events.len() + 1
            &&& n.events.len() == m.events.len() + 1 ==> {
                &&& n.events.last() matches IrEventView::Note { note, .. }
                &&& note == mml::midi_note(
                    m.octave_base,
                    m.octave,
                    text::lower(s[pos]),
                    mml::accidentals(s, pos + 1),
                )
            }
        },
{
    letter_is_a_note(env, s, pos, m);
    let name = text::lower(s[pos]);
    let pitch = mml::midi_note(m.octave_base, m.octave, name, mml::accidentals(s, pos + 1));
    let a = text::run_end(s, pos + 1, CharClass::Accidental);
    text::run_end_is_longest(s, pos + 1, CharClass::Accidental);
    glides_only_report(env, s, a, m);
    if let Some((glide, p, n)) = mml::glide_suffix(env, s, a, m) {
        length_ends(s, p, Some(n.default_length));
        let base = match glide {
            Some(g) => Some((g.length, p, n)),
            None => mml::read_length(env, s, p, n),
        };
        if let Some((length, q, k)) = base {
            ties_only_report(env, s, q, k, length);
            if let Some((total, e, l)) = mml::read_ties(env, s, q, k, length) {
                note_is_its_pitch(env, l, name, m.octave, pitch, glide, total, mml::has_slur(s, e));
            }
        }
    }
}

proof fn marks_end(s: Seq<char>, pos: int, octave: int)
    requires
        0 <= pos <= s.len(),
    ensures
        pos <= mml::octave_marks(s, pos, octave).0 <= s.len(),
    decreases s.len() - pos,
{
    if pos < s.len() && (s[pos] == '<' || s[pos] == '>') {
        text::run_end_is_longest(s, pos + 1, CharClass::Space);
        marks_end(
            s,
            text::ws_end(s, pos + 1),
            if s[pos] == '<' {
                octave - 1
            } else {
                octave + 1
            },
        );
    }
}

proof fn length_ends(s: Seq<char>, pos: int, default: Option<Frac>)
    requires
        0 <= pos <= s.len(),
    ensures
        pos <= mml::length_at(s, pos, default).end <= s.len(),
{
    text::run_end_is_longest(s, pos, CharClass::Space);
    let p = text::ws_end(s, pos);
    if text::at(s, p, '%') {
        text::u32_end_bounds(s, p + 1);
        text::run_end_is_longest(s, text::u32_end(s, p + 1), CharClass::Dot);
    } else {
        text::u32_end_bounds(s, p);
        text::run_end_is_longest(s, text::u32_end(s, p), CharClass::Dot);
    }
}

proof fn alike_accidentals(s: Seq<char>, i: int, t: Seq<char>, j: int)
    requires
        0 <= i <= s.len(),
        0 <= j <= t.len(),
        s.skip(i) == t.skip(j),
    ensures
        mml::accidentals(s, i) == mml::accidentals(t, j),
    decreases s.len() - i,
{
    assert(s.len() - i == s.skip(i).len());
    assert(t.len() - j == t.skip(j).len());
    if i < s.len() {
        assert(s.skip(i)[0] == s[i]);
        assert(t.skip(j)[0] == t[j]);
        assert(s.skip(i + 1) =~= s.skip(i).skip(1));
        assert(t.skip(j + 1) =~= t.skip(j).skip(1));
        alike_accidentals(s, i + 1, t, j + 1);
    }
}

// ---------------------------------------------------------------------------
// Pitches
// ---------------------------------------------------------------------------
/// A sharp raises a note by a semitone: a letter with one more sharp than the
/// same letter elsewhere, in the same state, plays the key above.
pub proof fn sharps_raise_by_a_semitone(
    env: EnvView,
    s: Seq<char>,
    i: int,
    t: Seq<char>,
    j: int,
    m: MachineView,
    sharp: int,
    plain: int,
)
    requires
        letter_at(env, s, i),
        letter_at(env, t, j),
        s[i] == t[j],
        i + 1 < s.len(),
        s[i + 1] == '+' || s[i + 1] == '#',
        s.skip(i + 2) == t.skip(j + 1),
        plays(mml::command(env, s, i, m), m, sharp),
        plays(mml::command(env, t, j, m), m, plain),
    ensures
        sharp == plain + 1,
{
    letters_play_their_note(env, s, i, m);
    letters_play_their_note(env, t, j, m);
    alike_accidentals(s, i + 2, t, j + 1);
}

/// A flat lowers a note by a semitone.
pub proof fn flats_lower_by_a_semitone(
    env: EnvView,
    s: Seq<char>,
    i: int,
    t: Seq<char>,
    j: int,
    m: MachineView,
    flat: int,
    plain: int,
)
    requires
        letter_at(env, s, i),
        letter_at(env, t, j),
        s[i] == t[j],
        i + 1 < s.len(),
        s[i + 1] == '-',
        s.skip(i + 2) == t.skip(j + 1),
        plays(mml::command(env, s, i, m), m, flat),
        plays(mml::command(env, t, j, m), m, plain),
    ensures
        flat == plain - 1,
{
    letters_play_their_note(env, s, i, m);
    letters_play_their_note(env, t, j, m);
    alike_accidentals(s, i + 2, t, j + 1);
}

/// With one sharp a letter plays one key above the bare letter, with one flat one
/// below, whatever else follows either.
pub proof fn one_accidental_is_one_key(
    env: EnvView,
    s: Seq<char>,
    i: int,
    t: Seq<char>,
    j: int,
    m: MachineView,
    altered: int,
    plain: int,
)
    requires
        letter_at(env, s, i),
        letter_at(env, t, j),
        s[i] == t[j],
        altered_at(s, i + 1),
        !altered_at(s, i + 2),
        !altered_at(t, j + 1),
        plays(mml::command(env, s, i, m), m, altered),
        plays(mml::command(env, t, j, m), m, plain),
    ensures
        s[i + 1] == '-' ==> altered == plain - 1,
        s[i + 1] != '-' ==> altered == plain + 1,
{
    letters_play_their_note(env, s, i, m);
    letters_play_their_note(env, t, j, m);
    assert(mml::accidentals(s, i + 2) == 0);
}

/// How far a letter is above `c`, on white keys.
pub open spec fn white_key(letter: char) -> int {
    match letter {
        'c' => 0,
        'd' => 2,
        'e' => 4,
        'f' => 5,
        'g' => 7,
        'a' => 9,
        _ => 11,
    }
}

/// The letters play a major scale on `c`, and an octave is twelve keys: `c` of the
/// fourth octave is the key that octaves are counted from.
pub proof fn letters_play_a_scale(
    env: EnvView,
    s: Seq<char>,
    pos: int,
    m: MachineView,
    key: int,
)
    requires
        letter_at(env, s, pos),
        !altered_at(s, pos + 1),
        plays(mml::command(env, s, pos, m), m, key),
    ensures
        key - white_key(s[pos]) == m.octave_base + 12 * (m.octave - 4),
{
    letters_play_their_note(env, s, pos, m);
}

/// Capitals play what small letters play.
pub proof fn capitals_play_alike(
    env: EnvView,
    s: Seq<char>,
    t: Seq<char>,
    pos: int,
    m: MachineView,
    small: int,
    capital: int,
)
    requires
        letter_at(env, s, pos),
        pos < t.len(),
        t[pos] as int + 32 == s[pos] as int,
        t.skip(pos + 1) == s.skip(pos + 1),
        plays(mml::command(env, s, pos, m), m, small),
        plays(mml::command(env, t, pos, m), m, capital),
    ensures
        capital == small,
{
    letters_play_their_note(env, s, pos, m);
    letters_play_their_note(env, t, pos, m);
    alike_accidentals(s, pos + 1, t, pos + 1);
}

} // verus!
