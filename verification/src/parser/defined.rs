//! What the definitions and directives of a source define.

use vstd::prelude::*;

use crate::fraction;
use crate::ir::{ECommand, EnvelopeR, EnvelopeTableView, SongIrView};
use crate::parser;
use crate::parser::Effect;
use crate::parser::asked;
use crate::parser::changes;
use crate::parser::definitions;
use crate::parser::definitions::{MacroOffsetsView, ReadCommands, TopView};
use crate::parser::statements;
use crate::text;
use crate::text::CharClass;

verus! {

// ---------------------------------------------------------------------------
// Reading
// ---------------------------------------------------------------------------
/// A definition with a number: `@r3={...}`, `*3={...}`.
pub open spec fn numbered(head: Seq<char>, id: nat, content: Seq<char>) -> Seq<char> {
    head + text::decimal(id) + seq!['=', '{'] + content + seq!['}']
}

/// A directive with one word: `#tempo 120`.
pub open spec fn directed(name: Seq<char>, word: Seq<char>) -> Seq<char> {
    name + seq![' '] + word
}

/// What reading goes on with after a definition.
pub open spec fn leaves(e: Effect, u: TopView) -> bool {
    e matches Effect::Go(v) && v == u
}

proof fn at_definitions(t: TopView, s: Seq<char>, line: usize)
    requires
        s.len() >= 2,
    ensures
        s[0] == '@' && s[1] == 'e' ==> parser::definition(t, s, line) == parser::effect_of(
            definitions::e_definition(s, t, line),
        ),
        s[0] == '@' && s[1] == 'r' ==> parser::definition(t, s, line) == parser::effect_of(
            definitions::r_definition(s, t, line),
        ),
        s[0] == '@' && s[1] == 'm' ==> parser::definition(t, s, line) == parser::effect_of(
            definitions::m_definition(s, t, line),
        ),
        s[0] == '@' && s[1] == '#' ==> parser::definition(t, s, line) == Effect::Go(
            definitions::ignored_tone(s, definitions::tone_assignment(s, t, line), line, "@#"@),
        ),
        s[0] == '*' ==> parser::definition(t, s, line) == Effect::Go(definitions::macro_definition(s, t, line)),
        s[0] == '#' && s[1] != 'e' && s[1] != 'E' ==> parser::definition(t, s, line) == Effect::Go(
            definitions::directive(s, t, line),
        ),
{
    let l = text::lower_all(s);
    reveal_strlit("#end");
    reveal_strlit("@e");
    reveal_strlit("@r");
    reveal_strlit("@m");
    reveal_strlit("@s");
    reveal_strlit("@v");
    reveal_strlit("@#");
    assert(l[0] == text::lower(s[0]));
    assert(l[1] == text::lower(s[1]));
    assert("#end"@.is_prefix_of(l) ==> "#end"@[0] == l[0] && "#end"@[1] == l[1]);
    assert("@e"@.is_prefix_of(l) ==> "@e"@[0] == l[0] && "@e"@[1] == l[1]);
    assert("@r"@.is_prefix_of(l) ==> "@r"@[0] == l[0] && "@r"@[1] == l[1]);
    assert("@m"@.is_prefix_of(l) ==> "@m"@[0] == l[0] && "@m"@[1] == l[1]);
    assert("@s"@.is_prefix_of(l) ==> "@s"@[0] == l[0] && "@s"@[1] == l[1]);
    assert("@v"@.is_prefix_of(l) ==> "@v"@[0] == l[0] && "@v"@[1] == l[1]);
    assert("@#"@.is_prefix_of(l) ==> "@#"@[0] == l[0] && "@#"@[1] == l[1]);
    if s[0] == '@' && s[1] == 'e' {
        assert("@e"@ =~= l.subrange(0, 2));
    }
    if s[0] == '@' && s[1] == 'r' {
        assert("@r"@ =~= l.subrange(0, 2));
    }
    if s[0] == '@' && s[1] == 'm' {
        assert("@m"@ =~= l.subrange(0, 2));
    }
    if s[0] == '@' && s[1] == '#' {
        assert("@#"@ =~= l.subrange(0, 2));
    }
}

proof fn numbered_is_read(head: Seq<char>, id: nat, content: Seq<char>)
    requires
        head.len() == 2,
        id <= 255,
    ensures
        definitions::numbered_definition(numbered(head, id, content)) == Some((id as u8, content)),
        numbered(head, id, content)[0] == head[0],
        numbered(head, id, content)[1] == head[1],
        numbered(head, id, content).len() > 2,
{
    let s = numbered(head, id, content);
    let a = 2 + text::decimal(id).len() as int;
    assert(s.subrange(2, a) =~= text::decimal(id));
    assert(s[a] == '=');
    assert(s[a + 1] == '{');
    assert(changes::number_at(s, 2, id));
    changes::numbers_are_read(s, 2, id);
    assert(text::ws_end(s, a) == a);
    assert(text::ws_end(s, a + 1) == a + 1);
    let last = s.len() - 1;
    assert(s[last] == '}');
    assert(text::find_last(s, s.len() as int, '}') == Some(last));
    assert(s.subrange(a + 2, last) =~= content);
}

// ---------------------------------------------------------------------------
// Lists
// ---------------------------------------------------------------------------
/// Numbers, parted by commas.
pub open spec fn comma_list(v: Seq<nat>) -> Seq<char>
    decreases v.len(),
{
    if v.len() == 0 {
        Seq::empty()
    } else if v.len() == 1 {
        text::decimal(v[0])
    } else {
        comma_list(v.drop_last()) + seq![','] + text::decimal(v.last())
    }
}

/// Where the number at an index of a list begins.
pub open spec fn comma_list_at(v: Seq<nat>, k: int) -> int {
    if k == 0 {
        0
    } else {
        comma_list(v.take(k)).len() as int + 1
    }
}

proof fn number_of_a_list(v: Seq<nat>, k: int)
    requires
        0 <= k < v.len(),
    ensures
        changes::number_at(comma_list(v), comma_list_at(v, k), v[k]),
        changes::after_number(comma_list_at(v, k), v[k]) == comma_list(v.take(k + 1)).len(),
        k > 0 ==> text::at(comma_list(v), comma_list_at(v, k) - 1, ','),
        comma_list(v.take(k + 1)).len() <= comma_list(v).len(),
        comma_list(v.take(k + 1)).len() < comma_list(v).len() ==> comma_list(v)[comma_list(v.take(k + 1)).len() as int]
            == ',',
    decreases v.len(),
{
    let s = comma_list(v);
    let u = v.drop_last();
    if k == v.len() - 1 {
        assert(v.take(k + 1) =~= v);
        assert(v.take(k) =~= u);
        let from = comma_list_at(v, k);
        if k == 0 {
            assert(v.len() == 1);
            assert(s.subrange(0, s.len() as int) =~= s);
        } else {
            assert(s.subrange(from, s.len() as int) =~= text::decimal(v[k]));
        }
    } else {
        number_of_a_list(u, k);
        assert(u.take(k) =~= v.take(k));
        assert(u.take(k + 1) =~= v.take(k + 1));
        let w = comma_list(u);
        let from = comma_list_at(v, k);
        let end = changes::after_number(from, v[k]);
        assert(s == w + seq![','] + text::decimal(v.last()));
        assert(w.subrange(from, end) =~= s.subrange(from, end));
        if end < w.len() {
            assert(s[end] == w[end]);
        } else {
            assert(s[end] == ',');
        }
        if k > 0 {
            assert(s[from - 1] == w[from - 1]);
        }
    }
}

proof fn list_is_read(v: Seq<nat>, k: nat)
    requires
        k < v.len(),
        forall|i: int| 0 <= i < v.len() ==> #[trigger] v[i] <= 255,
    ensures
        definitions::list_item(comma_list(v), k) == v[k as int],
        definitions::list_pos(comma_list(v), k + 1) == comma_list(v.take(k as int + 1)).len(),
    decreases k,
{
    let s = comma_list(v);
    let from = comma_list_at(v, k as int);
    number_of_a_list(v, k as int);
    changes::signed_numbers_are_read(s, from, v[k as int]);
    numbers_begin_with_digits(s, from, v[k as int]);
    assert(text::run_end(s, from, CharClass::SpaceSeparator) == from);
    if k > 0 {
        list_is_read(v, (k - 1) as nat);
        assert(v.take(k as int) =~= v.take(k - 1 + 1));
        assert(definitions::list_pos(s, k) == from - 1);
        assert(text::run_end(s, from - 1, CharClass::SpaceSeparator) == from);
    } else {
        assert(definitions::list_pos(s, 0) == 0);
    }
}

proof fn numbers_begin_with_digits(s: Seq<char>, pos: int, n: nat)
    requires
        changes::number_at(s, pos, n),
    ensures
        0 <= pos < s.len(),
        text::is_digit(s[pos]),
{
    first_digit(n);
    assert(s.subrange(pos, pos + text::decimal(n).len())[0] == s[pos]);
}

proof fn first_digit(n: nat)
    ensures
        text::decimal(n).len() > 0,
        text::is_digit(text::decimal(n)[0]),
        text::is_digit(text::decimal(n).last()),
    decreases n,
{
    if n >= 10 {
        first_digit(n / 10);
    }
}

// ---------------------------------------------------------------------------
// Envelopes
// ---------------------------------------------------------------------------
/// The eight numbers of an `@r` envelope are, in turn, its mode, its noise, the
/// level that the attack begins at, the rates of attack and decay, the sustain
/// level, and the rates of sustain and release.
pub proof fn rates_are_defined_in_turn(t: TopView, line: usize, id: nat, v: Seq<nat>)
    requires
        id <= 255,
        v.len() == 8,
        forall|i: int| 0 <= i < v.len() ==> #[trigger] v[i] <= 255,
    ensures
        parser::definition(t, numbered(seq!['@', 'r'], id, comma_list(v)), line) matches Effect::Go(u)
            && u.song.envelopes.r.contains_key(id as u8) && ({
            let e = u.song.envelopes.r[id as u8];
            &&& e.id == id
            &&& e.mode == v[0]
            &&& e.noise == v[1]
            &&& e.al == v[2]
            &&& e.ar == v[3]
            &&& e.dr == v[4]
            &&& e.sl == v[5]
            &&& e.sr == v[6]
            &&& e.rr == v[7]
        }) && u == t.with_song(
            SongIrView {
                envelopes: EnvelopeTableView {
                    r: t.song.envelopes.r.insert(id as u8, u.song.envelopes.r[id as u8]),
                    ..t.song.envelopes
                },
                ..t.song
            },
        ),
{
    let head = seq!['@', 'r'];
    let c = comma_list(v);
    let s = numbered(head, id, c);
    assert(definitions::numbered_definition(s) == Some((id as u8, c)) && s.len() > 2 && s[0] == '@' && s[1]
        == 'r') by {
        numbered_is_read(head, id, c);
    }
    assert(parser::definition(t, s, line) == parser::effect_of(definitions::r_definition(s, t, line))) by {
        at_definitions(t, s, line);
    }
    assert forall|k: nat| k < 8 implies #[trigger] definitions::list_item(c, k) == v[k as int] by {
        list_is_read(v, k);
    }
    rates_in_turn(s, t, line, id as u8, c);
}

proof fn rates_in_turn(s: Seq<char>, t: TopView, line: usize, id: u8, c: Seq<char>)
    requires
        definitions::numbered_definition(s) == Some((id, c)),
    ensures
        definitions::r_definition(s, t, line) matches Ok(u) && u == t.with_song(
            SongIrView {
                envelopes: EnvelopeTableView {
                    r: t.song.envelopes.r.insert(id, u.song.envelopes.r[id]),
                    ..t.song.envelopes
                },
                ..t.song
            },
        ) && u.song.envelopes.r.contains_key(id) && u.song.envelopes.r[id] == (EnvelopeR {
            id,
            mode: definitions::list_item(c, 0),
            noise: definitions::list_item(c, 1),
            al: definitions::byte(definitions::list_item(c, 2)),
            ar: definitions::byte(definitions::list_item(c, 3)),
            dr: definitions::byte(definitions::list_item(c, 4)),
            sl: definitions::byte(definitions::list_item(c, 5)),
            sr: definitions::byte(definitions::list_item(c, 6)),
            rr: definitions::byte(definitions::list_item(c, 7)),
        }),
{
}

/// Reading of an `@e` envelope gives a command and goes on behind it.
pub open spec fn gives(s: Seq<char>, pos: int, r: ReadCommands, line: usize, c: ECommand, next: int) ->
    bool {
    definitions::e_commands(s, pos, r, line) == definitions::e_commands(
        s,
        next,
        ReadCommands { commands: r.commands.push(c), diagnostics: r.diagnostics },
        line,
    )
}

/// In an `@e` envelope a hexadecimal digit is a level for one count; with a colon
/// and a number it is held for so many counts, with an equals sign it is reached
/// in so many. Brackets stand round what is repeated, and `@` chooses a tone.
pub proof fn levels_are_defined(
    s: Seq<char>,
    pos: int,
    r: ReadCommands,
    line: usize,
    d: int,
    n: nat,
)
    requires
        0 <= pos < s.len(),
    ensures
        asked::is_hex(s[pos], d) && !text::at(s, pos + 1, ':') && !text::at(s, pos + 1, '=') ==> gives(
            s,
            pos,
            r,
            line,
            ECommand::Level(d as u8),
            pos + 1,
        ),
        asked::is_hex(s[pos], d) && text::at(s, pos + 1, ':') && changes::number_at(s, pos + 2, n) && 1 <= n
            <= 0xffff_ffff ==> gives(
            s,
            pos,
            r,
            line,
            ECommand::Hold { level: d as u8, count: n as u32 },
            changes::after_number(pos + 2, n),
        ),
        asked::is_hex(s[pos], d) && text::at(s, pos + 1, '=') && changes::number_at(s, pos + 2, n) && 1 <= n
            <= 0xffff_ffff ==> gives(
            s,
            pos,
            r,
            line,
            ECommand::Ramp { target: d as u8, count: n as u32 },
            changes::after_number(pos + 2, n),
        ),
        s[pos] == '[' ==> gives(s, pos, r, line, ECommand::LoopStart, pos + 1),
        s[pos] == ']' ==> gives(s, pos, r, line, ECommand::LoopEnd, pos + 1),
        s[pos] == '@' && changes::number_at(s, pos + 1, n) && n <= 255 ==> gives(
            s,
            pos,
            r,
            line,
            ECommand::ToneChange(n as u8),
            changes::after_number(pos + 1, n),
        ),
{
    if changes::number_at(s, pos + 2, n) {
        changes::numbers_are_read(s, pos + 2, n);
    }
    if changes::number_at(s, pos + 1, n) {
        changes::numbers_are_read(s, pos + 1, n);
    }
    assert(!text::in_class(CharClass::SpaceSeparator, s[pos]) ==> text::run_end(
        s,
        pos,
        CharClass::SpaceSeparator,
    ) == pos);
}

// ---------------------------------------------------------------------------
// Texts, macros, tones
// ---------------------------------------------------------------------------
proof fn whole_texts_stay(s: Seq<char>)
    requires
        s.len() > 0,
        !text::is_space(s[0]),
        !text::is_space(s.last()),
    ensures
        text::trim(s) == s,
        text::trim_start(s) == s,
{
    assert(text::ws_end(s, 0) == 0);
    assert(s.skip(0) =~= s);
}

/// `@m` defines a text by its number: what stands between the quotes.
pub proof fn texts_are_defined(t: TopView, line: usize, id: nat, text: Seq<char>)
    requires
        id <= 255,
    ensures
        leaves(
            parser::definition(
                t,
                numbered(seq!['@', 'm'], id, seq!['"'] + text + seq!['"']),
                line,
            ),
            t.with_song(
                SongIrView {
                    control_texts: t.song.control_texts.insert(id as u8, text),
                    ..t.song
                },
            ),
        ),
{
    let head = seq!['@', 'm'];
    let content = seq!['"'] + text + seq!['"'];
    let s = numbered(head, id, content);
    numbered_is_read(head, id, content);
    at_definitions(t, s, line);
    assert(content.last() == '"');
    whole_texts_stay(content);
    assert(content.subrange(1, content.len() - 1) =~= text);
}

proof fn brace_is_found(s: Seq<char>, pos: int, to: int)
    requires
        0 <= pos <= to < s.len(),
        s[to] == '{',
        forall|i: int| pos <= i < to ==> #[trigger] s[i] != '{',
    ensures
        text::find_from(s, pos, '{') == Some(to),
    decreases to - pos,
{
    if pos < to {
        brace_is_found(s, pos + 1, to);
    }
}

/// A macro is defined under its number and the offset in force: what stands
/// between the braces, whatever it is.
pub proof fn macros_are_defined(t: TopView, line: usize, id: nat, content: Seq<char>)
    requires
        id <= 255,
        0 <= id + t.offsets.numeric <= 255,
    ensures
        leaves(
            parser::definition(t, numbered(seq!['*'], id, content), line),
            TopView {
                macros: t.macros.insert((id + t.offsets.numeric) as u32, content),
                ..t
            },
        ),
{
    let s = numbered(seq!['*'], id, content);
    let a = 1 + text::decimal(id).len() as int;
    assert(s.subrange(1, a) =~= text::decimal(id));
    assert(s[0] == '*');
    assert(s[a] == '=');
    assert(s[a + 1] == '{');
    assert(changes::number_at(s, 1, id));
    changes::numbers_are_read(s, 1, id);
    at_definitions(t, s, line);
    let last = s.len() - 1;
    assert(s[last] == '}');
    assert(text::find_last(s, s.len() as int, '}') == Some(last));
    assert forall|i: int| 0 <= i < a + 1 implies #[trigger] s[i] != '{' by {
        if 1 <= i < a {
            assert(s.subrange(1, a)[i - 1] == s[i]);
            digits_only(id, i - 1);
        }
    }
    brace_is_found(s, 0, a + 1);
    assert(s.subrange(a + 2, last) =~= content);
}

proof fn digits_only(n: nat, i: int)
    requires
        0 <= i < text::decimal(n).len(),
    ensures
        text::is_digit(text::decimal(n)[i]),
    decreases n,
{
    if n >= 10 && i < text::decimal(n / 10).len() {
        digits_only(n / 10, i);
    }
}

/// `@#` gives a tone of the source a tone of the ROM.
pub proof fn tones_are_assigned(t: TopView, line: usize, tone: nat, rom: nat)
    requires
        tone <= 255,
        rom <= 255,
    ensures
        parser::definition(t, seq!['@', '#'] + text::decimal(tone) + seq!['='] + text::decimal(rom), line) matches Effect::Go(
            u,
        ) && u.song.opll_tone_assignments == t.song.opll_tone_assignments.insert(
            tone as u8,
            rom as u8,
        ),
{
    let s = seq!['@', '#'] + text::decimal(tone) + seq!['='] + text::decimal(rom);
    let a = 2 + text::decimal(tone).len() as int;
    assert(s.subrange(2, a) =~= text::decimal(tone));
    assert(s[a] == '=');
    assert(s.subrange(a + 1, s.len() as int) =~= text::decimal(rom));
    assert(changes::number_at(s, 2, tone));
    assert(changes::number_at(s, a + 1, rom));
    changes::numbers_are_read(s, 2, tone);
    changes::numbers_are_read(s, a + 1, rom);
    assert(s[0] == '@');
    assert(s[1] == '#');
    assert(text::ws_end(s, a) == a);
    at_definitions(t, s, line);
}

// ---------------------------------------------------------------------------
// Directives
// ---------------------------------------------------------------------------
proof fn directive_is_read(s: Seq<char>, name: Seq<char>, word: Seq<char>)
    requires
        s == directed(name, word),
        name.len() > 1,
        forall|i: int| 0 <= i < name.len() ==> !text::is_space(#[trigger] name[i]),
        word.len() > 0,
        !text::is_space(word[0]),
        !text::is_space(word.last()),
        text::lower_all(name) == name,
    ensures
        text::run_end(s, 0, CharClass::Word) == name.len(),
        text::lower_all(s.take(name.len() as int)) == name,
        text::trim(s.skip(name.len() as int + 1)) == word,
        s[0] == name[0],
        s[1] == name[1],
{
    name_ends(s, name, 0);
    assert(s.take(name.len() as int) =~= name);
    assert(s.skip(name.len() as int + 1) =~= word);
    whole_texts_stay(word);
}

proof fn name_ends(s: Seq<char>, name: Seq<char>, i: int)
    requires
        0 <= i <= name.len(),
        name.len() < s.len(),
        forall|j: int| 0 <= j < name.len() ==> !text::is_space(#[trigger] name[j]) && name[j] == s[j],
        s[name.len() as int] == ' ',
    ensures
        text::run_end(s, i, CharClass::Word) == name.len(),
    decreases name.len() - i,
{
    if i < name.len() {
        assert(!text::is_space(name[i]));
        name_ends(s, name, i + 1);
    }
}

proof fn lone_number(n: nat)
    ensures
        changes::number_at(text::decimal(n), 0, n),
        text::run_end(text::decimal(n), 0, CharClass::NonDigit) == 0,
        text::run_end(text::decimal(n), 0, CharClass::NonNumber) == 0,
        !text::is_space(text::decimal(n)[0]),
        !text::is_space(text::decimal(n).last()),
        text::decimal(n).len() > 0,
{
    let s = text::decimal(n);
    assert(s.subrange(0, s.len() as int) =~= s);
    first_digit(n);
}

/// `#tempo` is the tempo that the song begins with.
pub proof fn tempos_are_directed(t: TopView, line: usize, n: nat)
    requires
        n <= 0xffff_ffff,
    ensures
        parser::definition(t, directed("#tempo"@, text::decimal(n)), line) matches Effect::Go(u)
            && u.song.tempo_events.len() == t.song.tempo_events.len() + 1
            && u.song.tempo_events.drop_last() == t.song.tempo_events
            && u.song.tempo_events.last().at == fraction::whole(0) && u.song.tempo_events.last().bpm == n,
{
    let s = directed("#tempo"@, text::decimal(n));
    reveal_strlit("#tempo");
    lone_number(n);
    assert(text::lower_all("#tempo"@) =~= "#tempo"@);
    directive_is_read(s, "#tempo"@, text::decimal(n));
    changes::numbers_are_read(text::decimal(n), 0, n);
    at_definitions(t, s, line);
    if let Effect::Go(u) = parser::definition(t, s, line) {
        assert(u.song.tempo_events.drop_last() =~= t.song.tempo_events);
    }
}

/// `#title` is the title of the song: what stands between the quotes.
pub proof fn titles_are_directed(t: TopView, line: usize, title: Seq<char>)
    ensures
        leaves(
            parser::definition(t, directed("#title"@, seq!['"'] + title + seq!['"']), line),
            t.with_song(SongIrView { title: Some(title), ..t.song }),
        ),
{
    let word = seq!['"'] + title + seq!['"'];
    let s = directed("#title"@, word);
    reveal_strlit("#title");
    reveal_strlit("#tempo");
    assert(text::lower_all("#title"@) =~= "#title"@);
    assert("#title"@[2] != "#tempo"@[2]);
    assert(word.last() == '"');
    directive_is_read(s, "#title"@, word);
    whole_texts_stay(word);
    assert(word.subrange(1, word.len() - 1) =~= title);
    at_definitions(t, s, line);
}

proof fn directive_names_differ()
    ensures
        "#macro_offset"@ != "#tempo"@,
        "#macro_offset"@ != "#title"@,
        "#opll_mode"@ != "#tempo"@,
        "#opll_mode"@ != "#title"@,
        "#opll_mode"@ != "#macro_offset"@,
{
    reveal_strlit("#tempo");
    reveal_strlit("#title");
    reveal_strlit("#macro_offset");
    reveal_strlit("#opll_mode");
    assert("#macro_offset"@.len() != "#tempo"@.len());
    assert("#opll_mode"@.len() != "#tempo"@.len());
    assert("#opll_mode"@.len() != "#macro_offset"@.len());
}

proof fn signed_word(n: nat)
    requires
        n <= 0x7fff_ffff,
    ensures
        definitions::first_signed(text::decimal(n)) == Some(n as i32),
        text::trim_start(text::decimal(n)) == text::decimal(n),
        !text::begins(text::decimal(n), '{'),
{
    lone_number(n);
    changes::signed_numbers_are_read(text::decimal(n), 0, n);
    whole_texts_stay(text::decimal(n));
    first_digit(n);
}

proof fn number_directive(s: Seq<char>, name: Seq<char>, n: nat)
    requires
        s == directed(name, text::decimal(n)),
        name == "#macro_offset"@ || name == "#opll_mode"@,
    ensures
        text::run_end(s, 0, CharClass::Word) == name.len(),
        name.len() < s.len(),
        text::lower_all(s.take(name.len() as int)) == name,
        text::trim(s.skip(name.len() as int + 1)) == text::decimal(n),
        s.len() > 2,
        s[0] == '#',
        s[1] == 'm' || s[1] == 'o',
{
    reveal_strlit("#macro_offset");
    reveal_strlit("#opll_mode");
    lone_number(n);
    assert(text::lower_all(name) =~= name);
    directive_is_read(s, name, text::decimal(n));
}

/// `#macro_offset` is added to the numbers of the macros that follow.
pub proof fn offsets_are_directed(t: TopView, line: usize, n: nat)
    requires
        n <= 0x7fff_ffff,
    ensures
        leaves(
            parser::definition(t, directed("#macro_offset"@, text::decimal(n)), line),
            TopView { offsets: MacroOffsetsView { numeric: n as i32, ..t.offsets }, ..t },
        ),
{
    let s = directed("#macro_offset"@, text::decimal(n));
    directive_names_differ();
    signed_word(n);
    number_directive(s, "#macro_offset"@, n);
    assert(parser::definition(t, s, line) == Effect::Go(definitions::directive(s, t, line))) by {
        at_definitions(t, s, line);
    }
}

/// `#opll_mode` says how the tracks of the OPLL are used.
pub proof fn modes_are_directed(t: TopView, line: usize, n: nat)
    requires
        n <= 0x7fff_ffff,
    ensures
        leaves(
            parser::definition(t, directed("#opll_mode"@, text::decimal(n)), line),
            TopView { opll_mode: n as i32, ..t },
        ),
{
    let s = directed("#opll_mode"@, text::decimal(n));
    directive_names_differ();
    signed_word(n);
    number_directive(s, "#opll_mode"@, n);
    assert(parser::definition(t, s, line) == Effect::Go(definitions::directive(s, t, line))) by {
        at_definitions(t, s, line);
    }
}

proof fn all_selected(s: Seq<char>, n: int)
    requires
        0 <= n <= s.len(),
        forall|i: int| 0 <= i < s.len() ==> 'a' <= #[trigger] s[i] <= 'h' || '1' <= s[i] <= '9' || s[i] == 'r',
    ensures
        statements::selectors_in(s, n) == s.take(n),
    decreases n,
{
    if n > 0 {
        all_selected(s, n - 1);
        assert(s[n - 1] == s[n - 1]);
        assert(s.take(n) =~= s.take(n - 1).push(s[n - 1]));
    } else {
        assert(s.take(0) =~= Seq::empty());
    }
}

/// `#play_track` names the tracks that are played, and no others.
pub proof fn played_tracks_are_directed(t: TopView, line: usize, tracks: Seq<char>)
    requires
        tracks.len() > 0,
        forall|i: int| 0 <= i < tracks.len() ==> 'a' <= #[trigger] tracks[i] <= 'h' || '1' <= tracks[i] <= '9' || tracks[i] == 'r',
    ensures
        leaves(
            parser::definition(t, directed("#play_track"@, tracks), line),
            TopView { filter: Some(tracks), ..t },
        ),
        forall|c: char| statements::is_played(Some(tracks), #[trigger] seq![c]) == tracks.contains(c),
{
    let s = directed("#play_track"@, tracks);
    reveal_strlit("#tempo");
    reveal_strlit("#title");
    reveal_strlit("#macro_offset");
    reveal_strlit("#opll_mode");
    reveal_strlit("#play_track");
    assert(text::lower_all("#play_track"@) =~= "#play_track"@);
    assert("#play_track"@[1] != "#opll_mode"@[1]);
    assert(!text::is_space(tracks[0]));
    assert(!text::is_space(tracks.last())) by {
        assert(tracks[tracks.len() - 1] == tracks.last());
    }
    directive_is_read(s, "#play_track"@, tracks);
    all_selected(tracks, tracks.len() as int);
    assert(tracks.take(tracks.len() as int) =~= tracks);
    at_definitions(t, s, line);
    assert forall|c: char| statements::is_played(Some(tracks), #[trigger] seq![c]) == tracks.contains(c) by {
        assert(seq![c][0] == c);
    }
}

} // verus!
