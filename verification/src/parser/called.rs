//! What letters of macros, settings of the player and requests in the music mean.

use vstd::prelude::*;

use crate::ir::IrEventView;
use crate::parser::changes;
use crate::parser::definitions;
use crate::parser::definitions::{MacroOffsetsView, TopView};
use crate::parser::mml;
use crate::parser::mml::{EnvView, FrameView, Halt, MachineView, StepView};
use crate::parser::repeats;
use crate::parser::smf;
use crate::parser::statements;
use crate::text;
use crate::text::CharClass;

verus! {

// ---------------------------------------------------------------------------
// Macros called by letters
// ---------------------------------------------------------------------------
/// A call with a letter plays the macro whose number is the one called plus the
/// offset of that letter, whatever the other offsets are.
pub proof fn lettered_macros_play_their_text(
    env: EnvView,
    letter: char,
    id: nat,
    m: MachineView,
    depth: int,
)
    requires
        'a' <= letter <= 'z',
        env.offsets.named.contains_key(letter as u32),
        id <= 0xffff_ffff,
        0 <= depth <= 8,
    ensures
        ({
            let call = seq!['*', letter] + text::decimal(id);
            let number = id + env.offsets.named[letter as u32];
            if 0 <= number <= 255 && env.macros.contains_key(number as u32) {
                exists|called: MachineView| #[trigger]
                    repeats::calls(env, call, env.macros[number as u32], m, called, depth)
            } else {
                mml::run_mml(env, call, 0, m, depth) is Err
            }
        }),
{
    reveal(mml::macro_reference);
    let call = seq!['*', letter] + text::decimal(id);
    let number = id + env.offsets.named[letter as u32];
    assert(call.subrange(2, call.len() as int) =~= text::decimal(id));
    assert(changes::number_at(call, 2, id));
    changes::numbers_are_read(call, 2, id);
    assert(call[0] == '*');
    assert(call[1] == letter);
    assert(text::lower(letter) == letter);
    assert(text::ws_end(call, 0) == 0);
    let in_range = 0 <= number <= 255;
    let c = mml::macro_reference(env, call, 1, m).2->Ok_0->Some_0;
    assert(in_range ==> c.effective == number);
    let called = MachineView {
        macro_stack: m.macro_stack.push(FrameView { origin: c.origin, note_seen: false }),
        ..m
    };
    assert(text::u32_end(call, 2) == call.len());
    let played = mml::run_macro(env, c, m, depth);
    assert(in_range ==> mml::run_mml(env, call, 0, m, depth) == (match played {
        Ok(k) => mml::run_mml(env, call, call.len() as int, k, depth),
        Err(e) => Err(e),
    }));
    if in_range && env.macros.contains_key(number as u32) {
        match mml::run_mml(env, env.macros[number as u32], 0, called, depth + 1) {
            Ok(b) => {
                let k = MachineView { macro_stack: mml::popped(b.macro_stack), ..b };
                assert(mml::run_mml(env, call, call.len() as int, k, depth) == Ok::<MachineView, Halt>(
                    k,
                ));
            },
            Err(_) => {},
        }
        assert(repeats::calls(env, call, env.macros[number as u32], m, called, depth));
    }
}

/// An entry of a map of offsets gives its letter, large or small, its number, and
/// reading goes on behind it.
pub proof fn letters_have_their_offsets(
    s: Seq<char>,
    pos: int,
    t: TopView,
    line: usize,
    found: bool,
    n: nat,
)
    requires
        0 <= pos < s.len(),
        'a' <= s[pos] <= 'z' || 'A' <= s[pos] <= 'Z',
        text::at(s, pos + 1, '='),
        changes::number_at(s, pos + 2, n),
        n <= 0x7fff_ffff,
    ensures
        ({
            let letter = if 'a' <= s[pos] <= 'z' {
                s[pos] as u32
            } else {
                (s[pos] as u32 + 32) as u32
            };
            let u = TopView {
                offsets: MacroOffsetsView {
                    named: t.offsets.named.insert(letter, n as i32),
                    ..t.offsets
                },
                ..t
            };
            definitions::offset_entries(s, pos, t, line, found) == definitions::offset_entries(
                s,
                changes::after_number(pos + 2, n),
                u,
                line,
                true,
            )
        }),
{
    changes::signed_numbers_are_read(s, pos + 2, n);
    assert(text::run_end(s, pos, CharClass::SpaceComma) == pos);
    assert(text::ws_end(s, pos + 1) == pos + 1);
}

// ---------------------------------------------------------------------------
// Quoted texts
// ---------------------------------------------------------------------------
/// Between quotes `\n` is a line end and `\t` a tabulator.
pub proof fn escapes_are_read(s: Seq<char>, pos: int, read: Seq<char>)
    requires
        0 <= pos,
        pos + 1 < s.len(),
        s[pos] == '\\',
    ensures
        s[pos + 1] == 'n' ==> smf::quoted_rest(s, pos, read) == smf::quoted_rest(
            s,
            pos + 2,
            read + seq!['\n'],
        ),
        s[pos + 1] == 't' ==> smf::quoted_rest(s, pos, read) == smf::quoted_rest(
            s,
            pos + 2,
            read + seq!['\t'],
        ),
{
    assert(read + seq!['\n'] =~= read.push('\n'));
    assert(read + seq!['\t'] =~= read.push('\t'));
}

// ---------------------------------------------------------------------------
// Requests in the music
// ---------------------------------------------------------------------------
proof fn line_goes_on(s: Seq<char>, i: int)
    requires
        0 <= i <= s.len(),
        forall|j: int| i <= j < s.len() ==> #[trigger] s[j] != '\n',
    ensures
        text::run_end(s, i, CharClass::LineRest) == s.len(),
    decreases s.len() - i,
{
    if i < s.len() {
        line_goes_on(s, i + 1);
    }
}

/// A request in the music stands where the music is, on the track of the music;
/// nothing else changes.
pub proof fn requests_stand_in_the_music(
    env: EnvView,
    request: Seq<char>,
    m: MachineView,
    event: IrEventView,
)
    requires
        request.len() > 0,
        !text::is_space(request[0]),
        forall|j: int| 0 <= j < request.len() ==> #[trigger] request[j] != '\n',
        smf::smf_directive(
            request,
            Some(env.track),
            m.cursor,
            env.line,
            env.programs,
            env.channels,
        ) == Ok::<IrEventView, Seq<char>>(event),
    ensures
        mml::command(env, seq![';', '@', 's', 'm', 'f', ' '] + request, 0, m) == StepView::Stop(
            MachineView { events: m.events.push(event), ..m },
        ),
        event matches IrEventView::ManualSmf { at, .. } && at == m.cursor,
{
    reveal(mml::command);
    let head = seq![';', '@', 's', 'm', 'f', ' '];
    let s = head + request;
    assert(s[0] == ';');
    assert(text::lower(';') == ';');
    assert forall|j: int| 1 <= j < s.len() implies #[trigger] s[j] != '\n' by {
        if j >= 6 {
            assert(s[j] == request[j - 6]);
        } else {
            assert(s[j] == head[j]);
        }
    }
    line_goes_on(s, 1);
    let body = s.subrange(1, s.len() as int);
    reveal_strlit("@smf");
    assert(body[0] == '@');
    assert(text::ws_end(body, 0) == 0);
    assert(body.skip(0) =~= body);
    assert("@smf"@ =~= body.subrange(0, 4));
    let rest = body.skip(4);
    assert(rest[0] == ' ');
    assert(rest[1] == request[0]);
    assert(text::ws_end(rest, 1) == 1);
    assert(text::ws_end(rest, 0) == 1);
    assert(rest.skip(1) =~= request);
    assert(statements::smf_comment(body) == Some(request));
}

// ---------------------------------------------------------------------------
// Settings of the player
// ---------------------------------------------------------------------------
/// A comment with settings of the player asks for as many rounds of endless loops
/// as it says.
pub proof fn loop_settings_are_read(n: nat)
    requires
        1 <= n <= 0xffff_ffff,
    ensures
        statements::comment_loop_count(seq!['[', 'l', 'o', 'o', 'p', '='] + text::decimal(n) + seq![']']) == Some(
            n as u32,
        ),
{
    let head = seq!['[', 'l', 'o', 'o', 'p', '='];
    let s = head + text::decimal(n) + seq![']'];
    let e = 6 + text::decimal(n).len() as int;
    let setting = seq!['l', 'o', 'o', 'p', '='] + text::decimal(n);
    setting_digits(n);
    assert(s[0] == '[');
    assert(text::ws_end(s, 0) == 0);
    assert(s.skip(0) =~= s);
    assert forall|i: int| 1 <= i < e implies #[trigger] s[i] != ']' by {
        if i >= 6 {
            assert(s[i] == text::decimal(n)[i - 6]);
        } else {
            assert(s[i] == head[i]);
        }
    }
    assert(s[e] == ']');
    bracket_is_found(s, 1, e);
    assert(s.subrange(1, e) =~= setting);
    assert forall|i: int| 0 <= i < setting.len() implies !text::is_space(#[trigger] setting[i]) by {
        if i >= 5 {
            assert(setting[i] == text::decimal(n)[i - 5]);
        }
    }
    one_word(setting);
    assert(setting[4] == '=');
    assert(text::find_from(setting, 4, '=') == Some(4int));
    assert(text::find_from(setting, 3, '=') == Some(4int));
    assert(text::find_from(setting, 2, '=') == Some(4int));
    assert(text::find_from(setting, 1, '=') == Some(4int));
    assert(text::find_from(setting, 0, '=') == Some(4int));
    reveal_strlit("loop");
    assert(text::lower_all(setting.take(4)) =~= "loop"@);
    assert(setting.skip(5) =~= text::decimal(n));
}

proof fn setting_digits(n: nat)
    ensures
        text::radix_value(text::decimal(n), 10) == Some(n as int),
        text::decimal(n).len() > 0,
        forall|i: int| 0 <= i < text::decimal(n).len() ==> text::is_digit(#[trigger] text::decimal(n)[i]),
    decreases n,
{
    let s = text::decimal(n);
    if n < 10 {
        assert(s.drop_last() =~= Seq::empty());
        assert(text::radix_value(s.drop_last(), 10) == Some(0int));
        assert(s.last() == text::digit_char(n));
    } else {
        setting_digits(n / 10);
        assert(s.drop_last() =~= text::decimal(n / 10));
        assert(s.last() == text::digit_char(n % 10));
        assert forall|i: int| 0 <= i < s.len() implies text::is_digit(#[trigger] s[i]) by {
            if i < text::decimal(n / 10).len() {
                assert(s[i] == text::decimal(n / 10)[i]);
            }
        }
    }
}

proof fn bracket_is_found(s: Seq<char>, pos: int, to: int)
    requires
        0 <= pos <= to < s.len(),
        s[to] == ']',
        forall|i: int| pos <= i < to ==> #[trigger] s[i] != ']',
    ensures
        text::find_from(s, pos, ']') == Some(to),
    decreases to - pos,
{
    if pos < to {
        bracket_is_found(s, pos + 1, to);
    }
}

proof fn one_word(s: Seq<char>)
    requires
        s.len() > 0,
        forall|i: int| 0 <= i < s.len() ==> !text::is_space(#[trigger] s[i]),
    ensures
        text::words(s) == seq![s],
{
    word_to_the_end(s, 0);
    assert(!text::is_space(s[0]));
    assert(text::ws_end(s, 0) == 0);
    assert(s.subrange(0, s.len() as int) =~= s);
    let n = s.len() as int;
    assert(text::ws_end(s, n) == n);
    assert(text::run_end(s, n, CharClass::Word) == n);
    assert(text::words_from(s, n) =~= Seq::empty());
    assert(text::words_from(s, 0) =~= seq![s]);
}

proof fn word_to_the_end(s: Seq<char>, i: int)
    requires
        0 <= i <= s.len(),
        forall|j: int| 0 <= j < s.len() ==> !text::is_space(#[trigger] s[j]),
    ensures
        text::run_end(s, i, CharClass::Word) == s.len(),
    decreases s.len() - i,
{
    if i < s.len() {
        word_to_the_end(s, i + 1);
    }
}

} // verus!
