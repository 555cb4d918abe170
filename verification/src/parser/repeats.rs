//! What loops and macro calls play.

use vstd::prelude::*;

use crate::ir;
use crate::ir::{IrEventView, LoopMarkerKind};
use crate::parser::changes;
use crate::parser::mml;
use crate::parser::mml::{EnvView, FrameView, Halt, MachineView};
use crate::text;
use crate::text::CharClass;

verus! {

// ---------------------------------------------------------------------------
// Brackets
// ---------------------------------------------------------------------------
/// How many brackets are open before a position.
pub open spec fn opened(s: Seq<char>, i: int) -> int
    decreases i,
{
    if i <= 0 || i > s.len() {
        0
    } else {
        opened(s, i - 1) + if s[i - 1] == '[' {
            1int
        } else if s[i - 1] == ']' {
            -1int
        } else {
            0int
        }
    }
}

/// Every bracket of a piece has its partner in it.
pub open spec fn closed_up(s: Seq<char>) -> bool {
    opened(s, s.len() as int) == 0 && forall|i: int| 0 <= i <= s.len() ==> #[trigger] opened(s, i)
        >= 0
}

/// No bar of a piece stands outside its own loops.
pub open spec fn unparted(s: Seq<char>) -> bool {
    forall|i: int| 0 <= i < s.len() && #[trigger] s[i] == '|' ==> opened(s, i) > 0
}

/// What can follow a count: it begins with no digit.
pub open spec fn after_count(s: Seq<char>) -> bool {
    s.len() == 0 || !('0' <= s[0] <= '9')
}

/// A loop, written with its count in front: `[3cde]`.
pub open spec fn looped(n: nat, body: Seq<char>) -> Seq<char> {
    seq!['['] + text::decimal(n) + body + seq![']']
}

proof fn loop_closes(t: Seq<char>, pre: int, body: Seq<char>, i: int)
    requires
        0 <= pre,
        pre + body.len() < t.len(),
        t.subrange(pre, pre + body.len()) == body,
        t[pre + body.len()] == ']',
        closed_up(body),
        0 <= i <= body.len(),
    ensures
        mml::loop_close(t, pre + i, 1 + opened(body, i)) == Some(pre + body.len() as int),
    decreases body.len() - i,
{
    if i < body.len() {
        assert(t.subrange(pre, pre + body.len())[i] == t[pre + i]);
        loop_closes(t, pre, body, i + 1);
        assert(opened(body, i + 1) >= 0);
    }
}

proof fn no_bar(body: Seq<char>, i: int)
    requires
        closed_up(body),
        unparted(body),
        0 <= i <= body.len(),
    ensures
        mml::alternative_bar(body, i, opened(body, i)) is None,
    decreases body.len() - i,
{
    if i < body.len() {
        no_bar(body, i + 1);
    }
}

proof fn bar_found(first: Seq<char>, body: Seq<char>, i: int)
    requires
        closed_up(first),
        unparted(first),
        first.len() < body.len(),
        forall|j: int| 0 <= j < first.len() ==> first[j] == #[trigger] body[j],
        body[first.len() as int] == '|',
        0 <= i <= first.len(),
    ensures
        mml::alternative_bar(body, i, opened(first, i)) == Some(first.len() as int),
    decreases first.len() - i,
{
    if i < first.len() {
        assert(first[i] == body[i]);
        bar_found(first, body, i + 1);
    }
}

proof fn loop_is_read(n: nat, body: Seq<char>)
    requires
        closed_up(body),
        after_count(body),
        n <= 0xffff_ffff,
    ensures
        ({
            let t = looped(n, body);
            let start = 1 + text::decimal(n).len() as int;
            let close = start + body.len();
            &&& t.len() == close + 1
            &&& text::ws_end(t, 0) == 0
            &&& t[0] == '['
            &&& text::u32_end(t, 1) == start
            &&& text::u32_at(t, 1) == Some(n as u32)
            &&& mml::loop_close(t, start, 1) == Some(close)
            &&& t.subrange(start, close) == body
            &&& text::u32_end(t, close + 1) == close + 1
            &&& text::ws_end(t, close + 1) == close + 1
        }),
{
    let t = looped(n, body);
    let start = 1 + text::decimal(n).len() as int;
    let close = start + body.len();
    assert(t.subrange(1, start) =~= text::decimal(n));
    assert(t.subrange(start, close) =~= body);
    assert(start < t.len());
    if body.len() > 0 {
        assert(t[start] == body[0]);
    }
    assert(!('0' <= t[start] <= '9'));
    assert(changes::number_at(t, 1, n));
    changes::numbers_are_read(t, 1, n);
    loop_closes(t, start, body, 0);
    assert(opened(body, 0) == 0);
}

proof fn loop_is_run(env: EnvView, n: nat, body: Seq<char>, m: MachineView, depth: int)
    requires
        closed_up(body),
        after_count(body),
        n <= 0xffff_ffff,
        0 <= depth <= 8,
    ensures
        mml::run_mml(env, looped(n, body), 0, m, depth) == (match mml::run_loop(
            env,
            looped(n, body),
            0,
            m,
            depth,
        ) {
            Ok((_, k)) => Ok(k),
            Err(e) => Err(e),
        }),
{
    loop_is_read(n, body);
    let t = looped(n, body);
    match mml::run_loop(env, t, 0, m, depth) {
        Ok((next, k)) => {
            assert(next == t.len());
            assert(mml::run_mml(env, t, next, k, depth) == Ok::<MachineView, Halt>(k));
        },
        Err(_) => {},
    }
}

// ---------------------------------------------------------------------------
// Loops
// ---------------------------------------------------------------------------
/// A loop of one round is what it holds; a loop of one round more plays it first,
/// and then the loop of the other rounds.
pub proof fn loops_play_round_by_round(
    env: EnvView,
    n: nat,
    body: Seq<char>,
    m: MachineView,
    depth: int,
)
    requires
        closed_up(body),
        unparted(body),
        after_count(body),
        1 <= n < 0xffff_ffff,
        0 <= depth <= 8,
    ensures
        mml::run_mml(env, looped(1, body), 0, m, depth) == mml::run_mml(env, body, 0, m, depth + 1),
        mml::run_mml(env, looped(n + 1, body), 0, m, depth) == (match mml::run_mml(
            env,
            body,
            0,
            m,
            depth + 1,
        ) {
            Ok(k) => mml::run_mml(env, looped(n, body), 0, k, depth),
            Err(e) => Err(e),
        }),
{
    no_bar(body, 0);
    assert(opened(body, 0) == 0);
    loop_is_read(1, body);
    loop_is_run(env, 1, body, m, depth);
    loop_is_read(n + 1, body);
    loop_is_run(env, n + 1, body, m, depth);
    reveal_with_fuel(mml::run_times, 2);
    match mml::run_mml(env, body, 0, m, depth + 1) {
        Ok(k) => {
            loop_is_read(n, body);
            loop_is_run(env, n, body, k, depth);
        },
        Err(_) => {},
    }
}

/// In a loop with a bar the last round ends at the bar: every round before it
/// plays both parts.
pub proof fn last_rounds_end_at_the_bar(
    env: EnvView,
    n: nat,
    first: Seq<char>,
    second: Seq<char>,
    m: MachineView,
    depth: int,
)
    requires
        closed_up(first),
        unparted(first),
        closed_up(first + seq!['|'] + second),
        after_count(first),
        1 <= n < 0xffff_ffff,
        0 <= depth <= 8,
    ensures
        ({
            let body = first + seq!['|'] + second;
            &&& mml::run_mml(env, looped(1, body), 0, m, depth) == mml::run_mml(env, first, 0, m, depth + 1)
            &&& mml::run_mml(env, looped(n + 1, body), 0, m, depth) == (match mml::run_mml(
                env,
                first,
                0,
                m,
                depth + 1,
            ) {
                Ok(k) => match mml::run_mml(env, second, 0, k, depth + 1) {
                    Ok(l) => mml::run_mml(env, looped(n, body), 0, l, depth),
                    Err(e) => Err(e),
                },
                Err(e) => Err(e),
            })
        }),
{
    let body = first + seq!['|'] + second;
    bar_found(first, body, 0);
    assert(opened(first, 0) == 0);
    assert(body.take(first.len() as int) =~= first);
    assert(body.skip(first.len() as int + 1) =~= second);
    if first.len() > 0 {
        assert(body[0] == first[0]);
    }
    loop_is_read(1, body);
    loop_is_run(env, 1, body, m, depth);
    loop_is_read(n + 1, body);
    loop_is_run(env, n + 1, body, m, depth);
    reveal_with_fuel(mml::run_rounds, 2);
    match mml::run_mml(env, first, 0, m, depth + 1) {
        Ok(k) => {
            match mml::run_mml(env, second, 0, k, depth + 1) {
                Ok(l) => {
                    loop_is_read(n, body);
                    loop_is_run(env, n, body, l, depth);
                },
                Err(_) => {},
            }
        },
        Err(_) => {},
    }
}

/// A count may stand after the loop as well; without one the loop is played
/// twice.
pub proof fn counts_may_follow(
    env: EnvView,
    n: nat,
    body: Seq<char>,
    m: MachineView,
    depth: int,
)
    requires
        closed_up(body),
        unparted(body),
        body.len() > 0,
        !text::is_space(body[0]),
        !('0' <= body[0] <= '9'),
        1 <= n <= 0xffff_ffff,
        0 <= depth <= 8,
    ensures
        mml::run_mml(env, seq!['['] + body + seq![']'] + text::decimal(n), 0, m, depth) == mml::run_mml(
            env,
            looped(n, body),
            0,
            m,
            depth,
        ),
        mml::run_mml(env, seq!['['] + body + seq![']'], 0, m, depth) == mml::run_mml(
            env,
            looped(2, body),
            0,
            m,
            depth,
        ),
{
    no_bar(body, 0);
    assert(opened(body, 0) == 0);
    loop_is_read(n, body);
    loop_is_run(env, n, body, m, depth);
    loop_is_read(2, body);
    loop_is_run(env, 2, body, m, depth);
    let close = 1 + body.len() as int;
    let t = seq!['['] + body + seq![']'] + text::decimal(n);
    assert(t.subrange(1, close) =~= body);
    assert(t[1] == body[0]);
    assert(t[0] == '[');
    loop_closes(t, 1, body, 0);
    assert(t.subrange(close + 1, t.len() as int) =~= text::decimal(n));
    assert(changes::number_at(t, close + 1, n));
    changes::numbers_are_read(t, close + 1, n);
    assert(text::u32_end(t, 1) == 1);
    match mml::run_loop(env, t, 0, m, depth) {
        Ok((next, k)) => {
            assert(next == t.len());
            assert(mml::run_mml(env, t, next, k, depth) == Ok::<MachineView, Halt>(k));
        },
        Err(_) => {},
    }
    let u = seq!['['] + body + seq![']'];
    assert(u.subrange(1, close) =~= body);
    assert(u[1] == body[0]);
    assert(u[0] == '[');
    loop_closes(u, 1, body, 0);
    assert(text::u32_end(u, 1) == 1);
    assert(text::u32_end(u, close + 1) == close + 1);
    match mml::run_loop(env, u, 0, m, depth) {
        Ok((next, k)) => {
            assert(next == u.len());
            assert(mml::run_mml(env, u, next, k, depth) == Ok::<MachineView, Halt>(k));
        },
        Err(_) => {},
    }
}

/// An endless loop, of count zero, is marked where it begins and where it ends,
/// and played once between the marks, or as often as is asked for.
pub proof fn endless_loops_are_marked(
    env: EnvView,
    body: Seq<char>,
    m: MachineView,
    depth: int,
)
    requires
        closed_up(body),
        unparted(body),
        after_count(body),
        env.loop_count matches Some(n) ==> n >= 1,
        0 <= depth <= 8,
    ensures
        ({
            let begun = MachineView {
                events: m.events.push(
                    IrEventView::LoopMarker { at: m.cursor, kind: LoopMarkerKind::Start },
                ),
                ..m
            };
            let rounds = match env.loop_count {
                Some(n) => n as nat,
                None => 1nat,
            };
            match mml::run_mml(env, looped(rounds, body), 0, begun, depth) {
                Ok(b) => mml::run_mml(env, looped(0, body), 0, m, depth) matches Ok(k) && k == (
                MachineView {
                    events: b.events.push(
                        IrEventView::LoopMarker { at: b.cursor, kind: LoopMarkerKind::End },
                    ),
                    diagnostics: k.diagnostics,
                    ..b
                }),
                Err(e) => mml::run_mml(env, looped(0, body), 0, m, depth) == Err::<MachineView, Halt>(e),
            }
        }),
{
    no_bar(body, 0);
    assert(opened(body, 0) == 0);
    let begun = m.with(IrEventView::LoopMarker { at: m.cursor, kind: LoopMarkerKind::Start });
    let rounds = match env.loop_count {
        Some(n) => n as nat,
        None => 1nat,
    };
    loop_is_read(0, body);
    loop_is_run(env, 0, body, m, depth);
    loop_is_read(rounds, body);
    loop_is_run(env, rounds, body, begun, depth);
}

// ---------------------------------------------------------------------------
// Macros
// ---------------------------------------------------------------------------
/// A call plays a text: from the state of the caller, with one more call on its
/// stack, and what the text leads to is what the call leads to.
pub open spec fn calls(
    env: EnvView,
    call: Seq<char>,
    text: Seq<char>,
    m: MachineView,
    called: MachineView,
    depth: int,
) -> bool {
    &&& called == (MachineView { macro_stack: called.macro_stack, ..m })
    &&& called.macro_stack.len() == m.macro_stack.len() + 1
    &&& match mml::run_mml(env, text, 0, called, depth + 1) {
        Ok(b) => mml::run_mml(env, call, 0, m, depth) matches Ok(k) && k == (MachineView {
            macro_stack: k.macro_stack,
            ..b
        }),
        Err(e) => mml::run_mml(env, call, 0, m, depth) matches Err(h) && h.message == e.message,
    }
}

/// A call of a macro plays the text of the macro whose number is the one called
/// plus the offset in force; a number that is not defined, or that is not one of
/// the 256 numbers of macros, is an error.
pub proof fn macros_play_their_text(env: EnvView, id: nat, m: MachineView, depth: int)
    requires
        id <= 0xffff_ffff,
        0 <= depth <= 8,
    ensures
        ({
            let call = seq!['*'] + text::decimal(id);
            let number = (id + env.offsets.numeric) as u32;
            if 0 <= id + env.offsets.numeric <= 255 && env.macros.contains_key(number) {
                exists|called: MachineView| #[trigger]
                    calls(env, call, env.macros[number], m, called, depth)
            } else {
                mml::run_mml(env, call, 0, m, depth) is Err
            }
        }),
{
    reveal(mml::macro_reference);
    let call = seq!['*'] + text::decimal(id);
    let number = (id + env.offsets.numeric) as u32;
    assert(call.subrange(1, call.len() as int) =~= text::decimal(id));
    assert(changes::number_at(call, 1, id));
    changes::numbers_are_read(call, 1, id);
    assert(call[0] == '*');
    assert(text::ws_end(call, 0) == 0);
    digits_lead_here(call, id);
    assert(!text::is_alphabetic(call[1]));
    let in_range = 0 <= id + env.offsets.numeric <= 255;
    let c = mml::macro_reference(env, call, 1, m).2->Ok_0->Some_0;
    assert(in_range ==> c.effective == number);
    let called = MachineView {
        macro_stack: m.macro_stack.push(FrameView { origin: c.origin, note_seen: false }),
        ..m
    };
    assert(text::u32_end(call, 1) == call.len());
    let played = mml::run_macro(env, c, m, depth);
    assert(in_range ==> mml::run_mml(env, call, 0, m, depth) == (match played {
        Ok(k) => mml::run_mml(env, call, call.len() as int, k, depth),
        Err(e) => Err(e),
    }));
    if in_range && env.macros.contains_key(number) {
        match mml::run_mml(env, env.macros[number], 0, called, depth + 1) {
            Ok(b) => {
                let k = MachineView { macro_stack: mml::popped(b.macro_stack), ..b };
                assert(mml::run_mml(env, call, call.len() as int, k, depth) == Ok::<MachineView, Halt>(
                    k,
                ));
            },
            Err(_) => {},
        }
        assert(calls(env, call, env.macros[number], m, called, depth));
    }
}

proof fn digits_lead_here(s: Seq<char>, n: nat)
    requires
        changes::number_at(s, 1, n),
        n <= 0xffff_ffff,
    ensures
        text::is_digit(s[1]),
        s.len() > 1,
{
    changes::numbers_are_read(s, 1, n);
    assert(text::ws_end(s, 1) >= 1) by {
        text::run_end_is_longest(s, 1, CharClass::Space);
    }
    decimal_begins(n);
    assert(s.subrange(1, 1 + text::decimal(n).len() as int)[0] == s[1]);
}

proof fn decimal_begins(n: nat)
    ensures
        text::decimal(n).len() > 0,
        text::is_digit(text::decimal(n)[0]),
    decreases n,
{
    if n >= 10 {
        decimal_begins(n / 10);
    }
}

// ---------------------------------------------------------------------------
// Loudness
// ---------------------------------------------------------------------------
/// The sixteen volumes are spread evenly over the velocities of MIDI: a volume is
/// that share of 127, to the nearest whole number, and the lowest still sounds.
pub proof fn volumes_are_spread_evenly(v: int)
    requires
        0 <= v <= 15,
    ensures
        v > 0 ==> -15 <= 2 * (15 * ir::source_velocity(v) - 127 * v) <= 15,
        v == 0 ==> ir::source_velocity(v) == 1,
        v < 15 ==> ir::source_velocity(v) < ir::source_velocity(v + 1),
        ir::source_velocity(v) <= 127,
{
}

} // verus!
