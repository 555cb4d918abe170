//! What written music means in time: lengths, dots, ties, gates, slurs and rests.

use vstd::arithmetic::power2::*;
use vstd::prelude::*;

use crate::fraction;
use crate::fraction::Frac;
use crate::ir;
use crate::ir::IrEventView;
use crate::parser::mml;
use crate::parser::mml::{EnvView, GlideView, MachineView, StepView};
use crate::parser::music;
use crate::text;
use crate::text::CharClass;

verus! {

// ---------------------------------------------------------------------------
// Reading
// ---------------------------------------------------------------------------
proof fn over_is_over(s: Seq<char>, p: int)
    requires
        music::over_at(s, p),
    ensures
        0 <= p <= s.len(),
        text::run_end(s, p, CharClass::Accidental) == p,
        text::run_end(s, p, CharClass::Space) == p,
        text::run_end(s, p, CharClass::Digit) == p,
        text::run_end(s, p, CharClass::Dot) == p,
        text::ws_end(s, p) == p,
        text::u32_end(s, p) == p,
        text::u32_at(s, p) is None,
        !text::at(s, p, '^'),
        !text::at(s, p, '&'),
        !text::at(s, p, '%'),
        !text::at(s, p, '_'),
        mml::slur_end(s, p) == p,
        !mml::has_slur(s, p),
{
}

/// A length, read where it stands.
pub open spec fn length_is(
    env: EnvView,
    s: Seq<char>,
    pos: int,
    m: MachineView,
    length: Frac,
    end: int,
) -> bool {
    mml::read_length(env, s, pos, m) == Some((length, end, m))
}

proof fn bare_length(env: EnvView, s: Seq<char>, p: int, m: MachineView)
    requires
        music::over_at(s, p),
    ensures
        length_is(env, s, p, m, m.default_length, p),
{
    over_is_over(s, p);
}

proof fn number_length(env: EnvView, s: Seq<char>, p: int, m: MachineView, d: u32)
    requires
        0 <= p < s.len(),
        '0' <= s[p] <= '9',
        text::u32_at(s, p) == Some(d),
        d > 0,
        music::over_at(s, text::u32_end(s, p)),
    ensures
        length_is(env, s, p, m, fraction::frac(192, d as int), text::u32_end(s, p)),
{
    over_is_over(s, text::u32_end(s, p));
    assert(text::ws_end(s, p) == p);
}

proof fn step_length(env: EnvView, s: Seq<char>, p: int, m: MachineView, n: u32)
    requires
        text::at(s, p, '%'),
        text::u32_at(s, p + 1) == Some(n),
        music::over_at(s, text::u32_end(s, p + 1)),
    ensures
        length_is(env, s, p, m, fraction::whole(n as int), text::u32_end(s, p + 1)),
{
    over_is_over(s, text::u32_end(s, p + 1));
    assert(text::ws_end(s, p) == p);
}

proof fn dotted_length(env: EnvView, s: Seq<char>, p: int, m: MachineView)
    requires
        0 <= p < s.len(),
        s[p] == '.',
        music::over_at(s, text::run_end(s, p, CharClass::Dot)),
    ensures
        mml::read_length(env, s, p, m) == (match fraction::dotted(
            m.default_length,
            m.default_length,
            (text::run_end(s, p, CharClass::Dot) - p) as nat,
        ) {
            Some(f) => Some((f, text::run_end(s, p, CharClass::Dot), m)),
            None => None,
        }),
{
    assert(text::ws_end(s, p) == p);
    assert(text::u32_end(s, p) == p);
}

/// A letter with a length and no more: what is played.
proof fn plain_note(
    env: EnvView,
    s: Seq<char>,
    pos: int,
    m: MachineView,
    length: Frac,
    end: int,
)
    requires
        music::letter_at(env, s, pos),
        !music::altered_at(s, pos + 1),
        !text::at(s, text::ws_end(s, pos + 1), '_'),
        length_is(env, s, pos + 1, m, length, end),
        music::over_at(s, end),
    ensures
        ({
            let pitch = mml::midi_note(m.octave_base, m.octave, s[pos], 0);
            mml::command(env, s, pos, m) == mml::step_of(
                match mml::play_note(env, m, s[pos], m.octave, pitch, None, length, false) {
                    Some(n) => Some((end, n)),
                    None => None,
                },
            )
        }),
{
    music::letter_is_a_note(env, s, pos, m);
    over_is_over(s, end);
    assert(text::run_end(s, pos + 1, CharClass::Accidental) == pos + 1);
    assert(mml::accidentals(s, pos + 1) == 0);
    assert(text::lower(s[pos]) == s[pos]);
    assert(mml::glide_suffix(env, s, pos + 1, m) == Some((None::<GlideView>, pos + 1, m)));
    assert(mml::read_ties(env, s, end, m, length) == Some((length, end, m)));
}

/// A sum is as far behind its first term as its second term says.
pub proof fn sums_are_apart(a: Frac, b: Frac)
    requires
        fraction::plus(a, b) is Some,
    ensures
        music::apart(a, fraction::plus(a, b)->0, b.num, b.den),
        (fraction::plus(a, b)->0).den > 0,
{
    fraction::plus_adds(a, b);
    let c = fraction::plus(a, b)->0;
    let (x, y) = (c.num * a.den, a.num * c.den);
    assert(x * b.den == c.num * (a.den * b.den)) by (nonlinear_arith)
        requires
            x == c.num * a.den,
    ;
    assert((a.num * b.den + b.num * a.den) * c.den == y * b.den + b.num * (a.den * c.den))
        by (nonlinear_arith)
        requires
            y == a.num * c.den,
    ;
    assert((x - y) * b.den == x * b.den - y * b.den) by (nonlinear_arith);
}

/// A length of another name: fractions of the same value are as far apart.
proof fn apart_by_value(a: Frac, b: Frac, f: Frac, num: int, den: int)
    requires
        music::apart(a, b, f.num, f.den),
        f.den != 0,
        f.num * den == num * f.den,
    ensures
        music::apart(a, b, num, den),
{
    let x = b.num * a.den - a.num * b.den;
    let y = a.den * b.den;
    assert(x * den == num * y) by (nonlinear_arith)
        requires
            x * f.den == f.num * y,
            f.num * den == num * f.den,
            f.den != 0,
    {
        assert((x * den) * f.den == (x * f.den) * den);
        assert((f.num * y) * den == (f.num * den) * y);
        assert((num * f.den) * y == (num * y) * f.den);
    }
}

// ---------------------------------------------------------------------------
// Lengths
// ---------------------------------------------------------------------------
/// A note of a length takes that time and starts where the one before ended. It
/// carries the loudness, the tone and the envelope that were set.
#[verifier::rlimit(30)]
proof fn timed_note(
    env: EnvView,
    s: Seq<char>,
    pos: int,
    m: MachineView,
    length: Frac,
    end: int,
)
    requires
        music::letter_at(env, s, pos),
        !music::altered_at(s, pos + 1),
        !text::at(s, text::ws_end(s, pos + 1), '_'),
        length_is(env, s, pos + 1, m, length, end),
        music::over_at(s, end),
    ensures
        mml::command(env, s, pos, m) matches StepView::Next(p, n) ==> {
            &&& p == end
            &&& music::apart(m.cursor, n.cursor, length.num, length.den)
            &&& n.octave == m.octave
            &&& n.default_length == m.default_length
            &&& n.events.len() > m.events.len() ==> {
                &&& n.events.drop_last() == m.events
                &&& n.events.last() matches IrEventView::Note {
                    start,
                    duration,
                    velocity,
                    tone,
                    envelope,
                    ..
                }
                &&& start == m.cursor
                &&& velocity == ir::source_velocity(m.volume as int)
                &&& tone == m.tone
                &&& envelope == m.envelope
                &&& m.q == 8 || m.q == 0 ==> duration == length
                &&& 0 < m.q < 8 && length.den > 0 ==> duration.num * (8 * length.den) == m.q
                    * length.num * duration.den
            }
        },
{
    plain_note(env, s, pos, m, length, end);
    let pitch = mml::midi_note(m.octave_base, m.octave, s[pos], 0);
    if fraction::plus(m.cursor, length) is Some {
        sums_are_apart(m.cursor, length);
    }
    if 0 < m.q < 8 && length.den > 0 {
        gate_is_eighths(env, m, length);
    }
    ir::velocity_keeps_order(m.volume as int, m.volume as int);
    if let Some(n) = mml::play_note(env, m, s[pos], m.octave, pitch, None, length, false) {
        if n.events.len() > m.events.len() {
            assert(n.events.drop_last() =~= m.events);
        }
    }
}

proof fn gate_is_eighths(env: EnvView, m: MachineView, length: Frac)
    requires
        0 < m.q < 8,
        length.den > 0,
    ensures
        mml::gated(env, m, length) matches Some(r) ==> r.1 == m && r.0.num * (8 * length.den) == m.q
            * length.num * r.0.den,
{
    if let Some(part) = fraction::times(length, m.q as int) {
        fraction::frac_reduces(length.num * m.q, length.den);
        if let Some(f) = fraction::over(part, 8) {
            fraction::frac_reduces(part.num, part.den * 8);
            let (a, b, c, d) = (part.num, part.den, f.num, f.den);
            let q = m.q as int;
            assert(c * (8 * length.den) == q * length.num * d) by (nonlinear_arith)
                requires
                    a * length.den == (length.num * q) * b,
                    c * (b * 8) == a * d,
                    b > 0,
            {
                assert((c * (8 * length.den)) * b == (c * (b * 8)) * length.den);
                assert((a * d) * length.den == (a * length.den) * d);
                assert(((length.num * q) * b) * d == (q * length.num * d) * b);
            }
        }
    }
}

/// A bare letter takes the default length.
pub proof fn bare_notes_take_the_default_length(
    env: EnvView,
    s: Seq<char>,
    pos: int,
    m: MachineView,
)
    requires
        music::letter_at(env, s, pos),
        music::over_at(s, pos + 1),
    ensures
        mml::command(env, s, pos, m) matches StepView::Next(p, n) ==> p == pos + 1 && music::apart(
            m.cursor,
            n.cursor,
            m.default_length.num,
            m.default_length.den,
        ),
{
    over_is_over(s, pos + 1);
    bare_length(env, s, pos + 1, m);
    timed_note(env, s, pos, m, m.default_length, pos + 1);
}

/// A letter with a number `d` is a `d`th of a whole note, which has 192 steps.
pub proof fn numbers_divide_the_whole_note(
    env: EnvView,
    s: Seq<char>,
    pos: int,
    m: MachineView,
    d: u32,
)
    requires
        music::letter_at(env, s, pos),
        pos + 1 < s.len(),
        '0' <= s[pos + 1] <= '9',
        text::u32_at(s, pos + 1) == Some(d),
        d > 0,
        music::over_at(s, text::u32_end(s, pos + 1)),
    ensures
        mml::command(env, s, pos, m) matches StepView::Next(p, n) ==> p == text::u32_end(s, pos + 1) && music::apart(
            m.cursor,
            n.cursor,
            192,
            d as int,
        ),
{
    let end = text::u32_end(s, pos + 1);
    let length = fraction::frac(192, d as int);
    number_length(env, s, pos + 1, m, d);
    assert(text::ws_end(s, pos + 1) == pos + 1);
    timed_note(env, s, pos, m, length, end);
    fraction::frac_reduces(192, d as int);
    if let StepView::Next(p, n) = mml::command(env, s, pos, m) {
        apart_by_value(m.cursor, n.cursor, length, 192, d as int);
    }
}

/// A letter with `%n` takes `n` steps.
pub proof fn steps_are_counted(env: EnvView, s: Seq<char>, pos: int, m: MachineView, n: u32)
    requires
        music::letter_at(env, s, pos),
        text::at(s, pos + 1, '%'),
        text::u32_at(s, pos + 2) == Some(n),
        music::over_at(s, text::u32_end(s, pos + 2)),
    ensures
        mml::command(env, s, pos, m) matches StepView::Next(p, k) ==> p == text::u32_end(s, pos + 2) && music::apart(
            m.cursor,
            k.cursor,
            n as int,
            1,
        ),
{
    step_length(env, s, pos + 1, m, n);
    assert(text::ws_end(s, pos + 1) == pos + 1);
    timed_note(env, s, pos, m, fraction::whole(n as int), text::u32_end(s, pos + 2));
}

/// Each dot adds half of what the one before added: with `k` dots a letter takes
/// the default length and all of it again but for one part in `2^k`.
pub proof fn dots_lengthen_by_halves(env: EnvView, s: Seq<char>, pos: int, m: MachineView, k: nat)
    requires
        music::letter_at(env, s, pos),
        k > 0,
        pos + 1 + k <= s.len(),
        forall|i: int| pos < i <= pos + k ==> #[trigger] s[i] == '.',
        music::over_at(s, pos + 1 + k),
        m.default_length.den > 0,
    ensures
        mml::command(env, s, pos, m) matches StepView::Next(p, n) ==> p == pos + 1 + k && music::apart(
            m.cursor,
            n.cursor,
            m.default_length.num * (2 * pow2(k) - 1),
            m.default_length.den * pow2(k),
        ),
{
    let base = m.default_length;
    let end = pos + 1 + k;
    dots_end(s, pos + 1, end);
    assert(s[pos + 1] == '.');
    dotted_length(env, s, pos + 1, m);
    assert(text::ws_end(s, pos + 1) == pos + 1);
    music::letter_is_a_note(env, s, pos, m);
    if let Some(f) = fraction::dotted(base, base, k) {
        timed_note(env, s, pos, m, f, end);
        fraction::dots_add_up(base, base, k);
        let parts = pow2(k) as int;
        lemma_pow2_pos(k);
        assert(f.num * (base.den * parts) == base.num * (2 * parts - 1) * f.den)
            by (nonlinear_arith)
            requires
                f.num * (base.den * base.den * parts) == (base.num * base.den * parts + base.num * (
                parts - 1) * base.den) * f.den,
                base.den > 0,
        {
            assert(f.num * (base.den * base.den * parts) == (f.num * (base.den * parts))
                * base.den);
            assert((base.num * base.den * parts + base.num * (parts - 1) * base.den) * f.den == (
            base.num * (2 * parts - 1) * f.den) * base.den);
        }
        if let StepView::Next(p, n) = mml::command(env, s, pos, m) {
            apart_by_value(
                m.cursor,
                n.cursor,
                f,
                base.num * (2 * parts - 1),
                base.den * parts,
            );
        }
    } else {
        assert(text::run_end(s, pos + 1, CharClass::Accidental) == pos + 1);
        assert(mml::glide_suffix(env, s, pos + 1, m) == Some((None::<GlideView>, pos + 1, m)));
        assert(mml::read_length(env, s, pos + 1, m) is None);
    }
}

proof fn dots_end(s: Seq<char>, pos: int, end: int)
    requires
        0 <= pos <= end <= s.len(),
        forall|i: int| pos <= i < end ==> #[trigger] s[i] == '.',
        music::over_at(s, end),
    ensures
        text::run_end(s, pos, CharClass::Dot) == end,
    decreases end - pos,
{
    if pos < end {
        dots_end(s, pos + 1, end);
    }
}

/// Notes start where the cursor stands and carry the tone and the envelope that
/// were set, and a loudness in the ratio of the volume to fifteen.
pub proof fn notes_carry_what_was_set(env: EnvView, s: Seq<char>, pos: int, m: MachineView)
    requires
        music::letter_at(env, s, pos),
        music::over_at(s, pos + 1),
        0 <= m.volume <= 15,
    ensures
        mml::command(env, s, pos, m) matches StepView::Next(_, n) ==> (n.events.len() > m.events.len()
            ==> {
            &&& n.events.drop_last() == m.events
            &&& n.events.last() matches IrEventView::Note { start, velocity, tone, envelope, .. }
            &&& start == m.cursor
            &&& tone == m.tone
            &&& envelope == m.envelope
            &&& m.volume == 0 ==> velocity == 1
            &&& m.volume > 0 ==> -8 < 127 * m.volume - 15 * velocity < 8
        }),
{
    over_is_over(s, pos + 1);
    bare_length(env, s, pos + 1, m);
    timed_note(env, s, pos, m, m.default_length, pos + 1);
}

/// Of a note `q` eighths sound, and all of it with a `q` of eight or none; the next
/// note starts no earlier for that.
pub proof fn gates_cut_notes_by_eighths(env: EnvView, s: Seq<char>, pos: int, m: MachineView)
    requires
        music::letter_at(env, s, pos),
        music::over_at(s, pos + 1),
        0 <= m.q <= 8,
        m.default_length.den > 0,
    ensures
        mml::command(env, s, pos, m) matches StepView::Next(_, n) ==> {
            &&& music::apart(m.cursor, n.cursor, m.default_length.num, m.default_length.den)
            &&& n.events.len() > m.events.len() ==> {
                &&& n.events.last() matches IrEventView::Note { duration, .. }
                &&& ({
                    let eighths = if m.q == 0 {
                        8
                    } else {
                        m.q as int
                    };
                    duration.num * (8 * m.default_length.den) == eighths * m.default_length.num
                        * duration.den
                })
            }
        },
{
    over_is_over(s, pos + 1);
    bare_length(env, s, pos + 1, m);
    timed_note(env, s, pos, m, m.default_length, pos + 1);
    let (a, b) = (m.default_length.num, m.default_length.den);
    assert(a * (8 * b) == 8 * a * b) by (nonlinear_arith);
}

/// A note in the range of MIDI is played, unless it holds on one before or time
/// cannot be counted on.
pub proof fn notes_in_range_are_played(env: EnvView, s: Seq<char>, pos: int, m: MachineView)
    requires
        music::letter_at(env, s, pos),
        music::over_at(s, pos + 1),
        !m.slur_from_previous,
        m.q == 8,
        fraction::plus(m.cursor, m.default_length) is Some,
        0 <= m.octave_base + 12 * (m.octave - 4),
        m.octave_base + 12 * (m.octave - 4) <= 116,
    ensures
        music::plays(
            mml::command(env, s, pos, m),
            m,
            m.octave_base + 12 * (m.octave - 4) + music::white_key(s[pos]),
        ),
{
    over_is_over(s, pos + 1);
    bare_length(env, s, pos + 1, m);
    plain_note(env, s, pos, m, m.default_length, pos + 1);
}

/// A tie adds one length to another: the note takes the time of both.
pub proof fn ties_add_lengths(
    env: EnvView,
    s: Seq<char>,
    pos: int,
    m: MachineView,
    first: Frac,
    tie: int,
    second: Frac,
    end: int,
)
    requires
        music::letter_at(env, s, pos),
        !music::altered_at(s, pos + 1),
        !text::at(s, text::ws_end(s, pos + 1), '_'),
        length_is(env, s, pos + 1, m, first, tie),
        pos < tie,
        text::at(s, tie, '^'),
        tie + 1 <= end <= s.len(),
        tie + 1 < s.len() ==> !text::is_space(s[tie + 1]),
        length_is(env, s, tie + 1, m, second, end),
        music::over_at(s, end),
    ensures
        mml::command(env, s, pos, m) matches StepView::Next(p, n) ==> p == end && music::apart(
            m.cursor,
            n.cursor,
            first.num * second.den + second.num * first.den,
            first.den * second.den,
        ),
{
    music::letter_is_a_note(env, s, pos, m);
    over_is_over(s, end);
    assert(text::run_end(s, pos + 1, CharClass::Accidental) == pos + 1);
    assert(mml::glide_suffix(env, s, pos + 1, m) == Some((None::<GlideView>, pos + 1, m)));
    assert(text::ws_end(s, tie) == tie);
    assert(text::ws_end(s, tie + 1) == tie + 1);
    if let Some(sum) = fraction::plus(first, second) {
        fraction::plus_adds(first, second);
        assert(mml::read_ties(env, s, end, m, sum) == Some((sum, end, m)));
        assert(mml::read_ties(env, s, tie, m, first) == Some((sum, end, m)));
        if fraction::plus(m.cursor, sum) is Some {
            sums_are_apart(m.cursor, sum);
            let num = first.num * second.den + second.num * first.den;
            apart_by_value(m.cursor, fraction::plus(m.cursor, sum)->0, sum, num, first.den * second.den);
        }
    } else {
        assert(mml::read_ties(env, s, tie, m, first) is None);
    }
}

// ---------------------------------------------------------------------------
// Slurs and rests
// ---------------------------------------------------------------------------
/// A slurred letter sounds for its whole length, whatever part of a note is to
/// sound, and is joined to what comes next.
pub proof fn slurred_notes_are_not_cut(env: EnvView, s: Seq<char>, pos: int, m: MachineView)
    requires
        music::letter_at(env, s, pos),
        text::at(s, pos + 1, '&'),
        music::over_at(s, pos + 2),
    ensures
        mml::command(env, s, pos, m) matches StepView::Next(p, n) ==> {
            &&& p == pos + 2
            &&& music::apart(m.cursor, n.cursor, m.default_length.num, m.default_length.den)
            &&& n.events.len() > m.events.len() ==> {
                &&& n.slur_from_previous
                &&& n.events.last() matches IrEventView::Note { duration, meta, .. }
                &&& duration == m.default_length
                &&& meta.slur_to_next
            }
        },
{
    music::letter_is_a_note(env, s, pos, m);
    over_is_over(s, pos + 2);
    let p = pos + 1;
    assert(text::run_end(s, p, CharClass::Accidental) == p);
    assert(text::ws_end(s, p) == p);
    assert(text::run_end(s, p, CharClass::Dot) == p);
    assert(text::u32_end(s, p) == p);
    assert(mml::glide_suffix(env, s, p, m) == Some((None::<GlideView>, p, m)));
    assert(mml::read_length(env, s, p, m) == Some((m.default_length, p, m)));
    assert(mml::read_ties(env, s, p, m, m.default_length) == Some((m.default_length, p, m)));
    assert(mml::slur_end(s, p) == pos + 2);
    if fraction::plus(m.cursor, m.default_length) is Some {
        sums_are_apart(m.cursor, m.default_length);
    }
}

/// After a slur the same key again is no new note: the one before is held longer
/// by the length, and only that.
pub proof fn slurs_join_equal_notes(
    env: EnvView,
    s: Seq<char>,
    pos: int,
    m: MachineView,
    held: Frac,
)
    requires
        music::letter_at(env, s, pos),
        music::over_at(s, pos + 1),
        m.slur_from_previous,
        m.events.len() > 0,
        m.events.last() matches IrEventView::Note { note, duration, .. } && duration == held
            && note == m.octave_base + 12 * (m.octave - 4) + music::white_key(s[pos]),
        m.events.last()->Note_note <= 127,
    ensures
        mml::command(env, s, pos, m) matches StepView::Next(_, n) ==> {
            &&& n.events.len() == m.events.len()
            &&& n.events.drop_last() == m.events.drop_last()
            &&& n.events.last() matches IrEventView::Note { note, start, duration, velocity, .. }
            &&& note == m.events.last()->Note_note
            &&& start == m.events.last()->Note_start
            &&& velocity == m.events.last()->Note_velocity
            &&& music::apart(held, duration, m.default_length.num, m.default_length.den)
            &&& music::apart(m.cursor, n.cursor, m.default_length.num, m.default_length.den)
            &&& !n.slur_from_previous
        },
{
    over_is_over(s, pos + 1);
    bare_length(env, s, pos + 1, m);
    plain_note(env, s, pos, m, m.default_length, pos + 1);
    if fraction::plus(m.cursor, m.default_length) is Some {
        sums_are_apart(m.cursor, m.default_length);
    }
    if fraction::plus(held, m.default_length) is Some {
        sums_are_apart(held, m.default_length);
        if let StepView::Next(_, n) = mml::command(env, s, pos, m) {
            assert(n.events.drop_last() =~= m.events.drop_last());
        }
    }
}

/// A rest takes the default length, sounds nothing and ends a slur.
pub proof fn rests_take_time_in_silence(env: EnvView, s: Seq<char>, pos: int, m: MachineView)
    requires
        text::at(s, pos, 'r'),
        music::over_at(s, pos + 1),
    ensures
        mml::command(env, s, pos, m) matches StepView::Next(p, n) ==> {
            &&& p == pos + 1
            &&& music::apart(m.cursor, n.cursor, m.default_length.num, m.default_length.den)
            &&& n.events.drop_last() == m.events
            &&& n.events.last() == (IrEventView::Rest {
                start: m.cursor,
                duration: m.default_length,
            })
            &&& !n.slur_from_previous
        },
{
    reveal(mml::command);
    over_is_over(s, pos + 1);
    bare_length(env, s, pos + 1, m);
    assert(text::lower('r') == 'r');
    assert(mml::read_ties(env, s, pos + 1, m, m.default_length) == Some(
        (m.default_length, pos + 1, m),
    ));
    if fraction::plus(m.cursor, m.default_length) is Some {
        sums_are_apart(m.cursor, m.default_length);
        if let StepView::Next(_, n) = mml::command(env, s, pos, m) {
            assert(n.events.drop_last() =~= m.events);
        }
    }
}

// ---------------------------------------------------------------------------
// Glides
// ---------------------------------------------------------------------------
/// What a command adds: one note on a key that glides to another, and the time of
/// one note.
pub open spec fn slides_to(
    r: StepView,
    m: MachineView,
    end: int,
    key: int,
    target: int,
    octave: int,
) -> bool {
    r matches StepView::Next(p, n) && p == end && n.octave == octave && n.events.len()
        == m.events.len() + 1 && (n.events.last() matches IrEventView::Note { start, note, meta, .. }
        && start == m.cursor && note == key && meta.pitch_glide is Some
        && meta.pitch_glide->0.target_midi_note == target) && music::apart(
        m.cursor,
        n.cursor,
        m.default_length.num,
        m.default_length.den,
    )
}

/// `_` and a second letter make a note glide to that letter's key; both take the
/// time of one note.
pub proof fn glides_lead_to_the_second_letter(
    env: EnvView,
    s: Seq<char>,
    pos: int,
    m: MachineView,
)
    requires
        music::letter_at(env, s, pos),
        text::at(s, pos + 1, '_'),
        music::letter_at(env, s, pos + 2),
        music::over_at(s, pos + 3),
        env.glide_enabled,
        0 <= m.octave_base + 12 * (m.octave - 4) + music::white_key(s[pos]) <= 127,
        0 <= m.octave_base + 12 * (m.octave - 4) + music::white_key(s[pos + 2]) <= 127,
        mml::command(env, s, pos, m) is Next,
    ensures
        slides_to(
            mml::command(env, s, pos, m),
            m,
            pos + 3,
            m.octave_base + 12 * (m.octave - 4) + music::white_key(s[pos]),
            m.octave_base + 12 * (m.octave - 4) + music::white_key(s[pos + 2]),
            m.octave as int,
        ),
{
    music::letter_is_a_note(env, s, pos, m);
    over_is_over(s, pos + 3);
    assert(text::run_end(s, pos + 1, CharClass::Accidental) == pos + 1);
    assert(mml::accidentals(s, pos + 1) == 0);
    assert(text::ws_end(s, pos + 1) == pos + 1);
    assert(text::ws_end(s, pos + 2) == pos + 2);
    assert(mml::octave_marks(s, pos + 2, m.octave as int) == (pos + 2, m.octave as int));
    assert(mml::accidentals(s, pos + 3) == 0);
    bare_length(env, s, pos + 3, m);
    assert(text::lower(s[pos]) == s[pos]);
    assert(text::lower(s[pos + 2]) == s[pos + 2]);
    one_note_later(m);
}

proof fn one_note_later(m: MachineView)
    ensures
        fraction::plus(m.cursor, m.default_length) is Some ==> music::apart(
            m.cursor,
            fraction::plus(m.cursor, m.default_length)->0,
            m.default_length.num,
            m.default_length.den,
        ),
{
    if fraction::plus(m.cursor, m.default_length) is Some {
        sums_are_apart(m.cursor, m.default_length);
    }
}

/// An octave mark before the second letter moves the target by an octave, and
/// what follows with it.
pub proof fn glides_may_change_the_octave(
    env: EnvView,
    s: Seq<char>,
    pos: int,
    m: MachineView,
)
    requires
        music::letter_at(env, s, pos),
        text::at(s, pos + 1, '_'),
        text::at(s, pos + 2, '>') || text::at(s, pos + 2, '<'),
        music::letter_at(env, s, pos + 3),
        music::over_at(s, pos + 4),
        env.glide_enabled,
        -1000 <= m.octave <= 1000,
        0 <= m.octave_base + 12 * (m.octave - 4) + music::white_key(s[pos]) <= 127,
        ({
            let moved = if s[pos + 2] == '>' {
                m.octave + 1
            } else {
                m.octave - 1
            };
            0 <= m.octave_base + 12 * (moved - 4) + music::white_key(s[pos + 3]) <= 127
        }),
        mml::command(env, s, pos, m) is Next,
    ensures
        ({
            let moved = if s[pos + 2] == '>' {
                m.octave + 1
            } else {
                m.octave - 1
            };
            slides_to(
                mml::command(env, s, pos, m),
                m,
                pos + 4,
                m.octave_base + 12 * (m.octave - 4) + music::white_key(s[pos]),
                m.octave_base + 12 * (moved - 4) + music::white_key(s[pos + 3]),
                moved,
            )
        }),
{
    let moved = if s[pos + 2] == '>' {
        m.octave + 1
    } else {
        m.octave - 1
    };
    music::letter_is_a_note(env, s, pos, m);
    over_is_over(s, pos + 4);
    assert(text::run_end(s, pos + 1, CharClass::Accidental) == pos + 1);
    assert(mml::accidentals(s, pos + 1) == 0);
    assert(text::ws_end(s, pos + 1) == pos + 1);
    assert(text::ws_end(s, pos + 2) == pos + 2);
    assert(text::ws_end(s, pos + 3) == pos + 3);
    assert(mml::octave_marks(s, pos + 3, moved) == (pos + 3, moved));
    assert(mml::octave_marks(s, pos + 2, m.octave as int) == (pos + 3, moved));
    assert(mml::accidentals(s, pos + 4) == 0);
    bare_length(env, s, pos + 4, MachineView { octave: moved as i32, ..m });
    assert(text::lower(s[pos]) == s[pos]);
    assert(text::lower(s[pos + 3]) == s[pos + 3]);
    one_note_later(m);
}

// ---------------------------------------------------------------------------
// Notes of macros
// ---------------------------------------------------------------------------
/// A note carries the calls that it is expanded from, the outermost first, and
/// says whether it is the first note of one of them; the notes after it are not.
pub proof fn notes_carry_their_calls(env: EnvView, s: Seq<char>, pos: int, m: MachineView)
    requires
        music::letter_at(env, s, pos),
        music::over_at(s, pos + 1),
    ensures
        mml::command(env, s, pos, m) matches StepView::Next(_, n) ==> (n.events.len() > m.events.len()
            ==> {
            &&& n.events.last() matches IrEventView::Note { meta, .. }
            &&& meta.macro_origin.len() == m.macro_stack.len()
            &&& forall|i: int|
                0 <= i < m.macro_stack.len() ==> #[trigger] meta.macro_origin[i]
                    == m.macro_stack[i].origin
            &&& meta.macro_call_start <==> (exists|i: int|
                0 <= i < m.macro_stack.len() && !(#[trigger] m.macro_stack[i]).note_seen)
            &&& n.macro_stack.len() == m.macro_stack.len()
            &&& forall|i: int|
                0 <= i < m.macro_stack.len() ==> (#[trigger] n.macro_stack[i]).note_seen
                    && n.macro_stack[i].origin == m.macro_stack[i].origin
        }),
{
    over_is_over(s, pos + 1);
    bare_length(env, s, pos + 1, m);
    plain_note(env, s, pos, m, m.default_length, pos + 1);
}

} // verus!
