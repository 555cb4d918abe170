//! Commands that are recognised and not rendered: how far each one reaches, and
//! what is said about it.

use vstd::prelude::*;
use vstd::slice::slice_subrange;

use crate::text;
use crate::text::{
    CharClass, begins_with, begins_with_char, char_at, char_lower, chars_are, chars_of,
    lower_chars, next_pos, same_chars, scan_i32, skip_class, skip_ws,
};

verus! {

/// The keyword, in any case, stands at a position.
pub open spec fn keyword_at(s: Seq<char>, pos: int, keyword: Seq<char>) -> bool {
    pos + keyword.len() <= s.len() && text::lower_all(s.subrange(pos, pos + keyword.len())) == keyword
}

/// The end of the numbers that go on after a comma each. A comma with no number
/// after it ends the command and belongs to it.
pub open spec fn numbers_end(s: Seq<char>, pos: int) -> int
    decreases s.len() - pos,
    when 0 <= pos <= s.len()
{
    let comma = text::ws_end(s, pos);
    if text::at(s, comma, ',') {
        proof {
            text::run_end_is_longest(s, pos, CharClass::Space);
            text::i32_end_bounds(s, comma + 1);
        }
        if text::i32_at(s, comma + 1) is None {
            comma + 1
        } else {
            numbers_end(s, text::i32_end(s, comma + 1))
        }
    } else {
        pos
    }
}

/// A command of one character and numbers.
pub open spec fn numeric_command_end(s: Seq<char>, pos: int) -> int {
    numbers_end(s, text::i32_end(s, pos + 1))
}

/// A register write: one or two numbers.
pub open spec fn register_command_end(s: Seq<char>, pos: int) -> int {
    let p = text::i32_end(s, pos + 1);
    let comma = text::ws_end(s, p);
    if text::at(s, comma, ',') {
        if text::i32_at(s, comma + 1) is None {
            comma + 1
        } else {
            text::i32_end(s, comma + 1)
        }
    } else {
        p
    }
}

/// The end of a note length, if one stands here.
pub open spec fn written_length_end(s: Seq<char>, pos: int) -> int {
    let p = if text::at(s, pos, '%') {
        pos + 1
    } else {
        pos
    };
    text::run_end(s, text::run_end(s, p, CharClass::Digit), CharClass::Dot)
}

pub open spec fn is_note_name(c: char) -> bool {
    'a' <= c <= 'g'
}

/// A pitch glide: a note and a length, or a number.
pub open spec fn glide_command_end(s: Seq<char>, pos: int) -> int {
    let p = text::ws_end(s, pos + 1);
    if p >= s.len() {
        p
    } else if is_note_name(text::lower(s[p])) {
        written_length_end(s, text::run_end(s, p + 1, CharClass::Accidental))
    } else {
        text::i32_end(s, p)
    }
}

/// A command of unknown shape.
pub open spec fn generic_command_end(s: Seq<char>, pos: int) -> int {
    text::run_end(s, pos + 1, CharClass::CommandTail)
}

/// The end of the command at `pos` that is not rendered.
pub open spec fn unsupported_command_end(s: Seq<char>, pos: int) -> int {
    let c = text::lower(s[pos]);
    if c == '$' {
        pos + 1
    } else if c == 's' {
        if keyword_at(s, pos, "so"@) || keyword_at(s, pos, "sf"@) {
            pos + 2
        } else {
            numeric_command_end(s, pos)
        }
    } else if c == 'h' {
        if keyword_at(s, pos, "ho"@) || keyword_at(s, pos, "hf"@) || keyword_at(s, pos, "hi"@) {
            pos + 2
        } else {
            numeric_command_end(s, pos)
        }
    } else if c == 'k' {
        if keyword_at(s, pos, "ko"@) || keyword_at(s, pos, "kf"@) {
            pos + 2
        } else {
            generic_command_end(s, pos)
        }
    } else if c == 'y' {
        register_command_end(s, pos)
    } else if c == '_' {
        glide_command_end(s, pos)
    } else if c == 'm' || c == 'n' || c == '/' || c == 'p' || c == '\\' {
        numeric_command_end(s, pos)
    } else {
        generic_command_end(s, pos)
    }
}

/// The end of what follows an `@` that is not rendered.
pub open spec fn unsupported_at_end(s: Seq<char>, pos: int) -> int {
    if pos >= s.len() {
        pos
    } else {
        let c = text::lower(s[pos]);
        if c == '\\' || c == 'p' || c == 'l' || c == 'f' || c == 'o' {
            numeric_command_end(s, pos)
        } else {
            generic_command_end(s, pos)
        }
    }
}

pub open spec fn is_unsupported(c: char) -> bool {
    c == 'm' || c == 's' || c == 'n' || c == '/' || c == 'p' || c == 'h' || c == '\\' || c == '_'
        || c == 'y' || c == '$' || c == 'k'
}

/// What is said about a command that is not rendered.
pub open spec fn policy(command: Seq<char>) -> Seq<char> {
    let c = text::lower_all(command);
    if c == "so"@ || c == "sf"@ {
        "ignore_with_warning: FM sustain not rendered"@
    } else if c == "ko"@ || c == "kf"@ {
        "ignore_with_warning: keyoff command ignored"@
    } else if text::begins(c, 'h') {
        "ignore_with_warning: LFO not rendered"@
    } else if "@p"@.is_prefix_of(c) {
        "ignore_with_warning: LFO not rendered"@
    } else if "@l"@.is_prefix_of(c) {
        "ignore_with_warning: FM total level not rendered"@
    } else if "@\\"@.is_prefix_of(c) {
        "ignore_with_warning: fine detune not rendered"@
    } else if "@f"@.is_prefix_of(c) {
        "text_meta_or_ignore: fade command ignored"@
    } else if "@o"@.is_prefix_of(c) {
        "text_meta_or_ignore: output/control command ignored"@
    } else if text::begins(c, 'm') || text::begins(c, 's') {
        "ignore_with_warning: PSG hard envelope not rendered"@
    } else if text::begins(c, 'n') {
        "ignore_with_warning: PSG noise not rendered"@
    } else if text::begins(c, '/') {
        "ignore_with_warning: PSG mode/forced keyoff not rendered"@
    } else if text::begins(c, '\\') {
        "ignore_with_warning: detune not rendered"@
    } else if text::begins(c, 'p') {
        "ignore_with_warning: pitch down/LFO not rendered"@
    } else if text::begins(c, '_') {
        "ignore_with_warning: pitch glide not rendered"@
    } else if text::begins(c, 'y') {
        "ignore_with_warning: register write ignored"@
    } else if c == "$"@ {
        "ignore: debug command"@
    } else {
        "ignore_with_warning: ignored MML command"@
    }
}

fn has_keyword(s: &[char], pos: usize, keyword: &str) -> (r: bool)
    requires
        pos <= s@.len(),
    ensures
        r == keyword_at(s@, pos as int, keyword@),
{
    let k = chars_of(keyword);
    if k.len() > s.len() - pos {
        return false;
    }
    let here = lower_chars(slice_subrange(s, pos, pos + k.len()));
    same_chars(&here, &k)
}

fn skip_numbers(s: &[char], pos: usize) -> (r: usize)
    requires
        pos <= s@.len(),
    ensures
        r == numbers_end(s@, pos as int),
        pos <= r <= s@.len(),
{
    let mut p: usize = pos;
    loop
        invariant
            pos <= p <= s@.len(),
            numbers_end(s@, pos as int) == numbers_end(s@, p as int),
        decreases s@.len() - p,
    {
        let comma = skip_ws(s, p);
        if !char_at(s, comma, ',') {
            return p;
        }
        let (value, end) = scan_i32(s, comma + 1);
        if value.is_none() {
            return comma + 1;
        }
        p = end;
    }
}

fn skip_numeric_command(s: &[char], pos: usize) -> (r: usize)
    requires
        pos < s@.len(),
    ensures
        r == numeric_command_end(s@, pos as int),
        pos < r <= s@.len(),
{
    let (_, end) = scan_i32(s, next_pos(s, pos));
    skip_numbers(s, end)
}

fn skip_register_command(s: &[char], pos: usize) -> (r: usize)
    requires
        pos < s@.len(),
    ensures
        r == register_command_end(s@, pos as int),
        pos < r <= s@.len(),
{
    let (_, p) = scan_i32(s, next_pos(s, pos));
    let comma = skip_ws(s, p);
    if !char_at(s, comma, ',') {
        return p;
    }
    let (value, end) = scan_i32(s, comma + 1);
    if value.is_none() {
        comma + 1
    } else {
        end
    }
}

fn skip_written_length(s: &[char], pos: usize) -> (r: usize)
    requires
        pos <= s@.len(),
    ensures
        r == written_length_end(s@, pos as int),
        pos <= r <= s@.len(),
{
    let p: usize = if char_at(s, pos, '%') {
        pos + 1
    } else {
        pos
    };
    let d = skip_class(s, p, CharClass::Digit);
    skip_class(s, d, CharClass::Dot)
}

fn skip_glide_command(s: &[char], pos: usize) -> (r: usize)
    requires
        pos < s@.len(),
    ensures
        r == glide_command_end(s@, pos as int),
        pos < r <= s@.len(),
{
    let p = skip_ws(s, next_pos(s, pos));
    if p >= s.len() {
        return p;
    }
    let c = char_lower(s[p]);
    if 'a' <= c && c <= 'g' {
        let q = skip_class(s, p + 1, CharClass::Accidental);
        skip_written_length(s, q)
    } else {
        scan_i32(s, p).1
    }
}

fn skip_generic_command(s: &[char], pos: usize) -> (r: usize)
    requires
        pos < s@.len(),
    ensures
        r == generic_command_end(s@, pos as int),
        pos < r <= s@.len(),
{
    skip_class(s, next_pos(s, pos), CharClass::CommandTail)
}

pub fn skip_unsupported_command(s: &[char], pos: usize) -> (r: usize)
    requires
        pos < s@.len(),
    ensures
        r == unsupported_command_end(s@, pos as int),
        pos < r <= s@.len(),
{
    proof {
        reveal_strlit("so");
        reveal_strlit("sf");
        reveal_strlit("ho");
        reveal_strlit("hf");
        reveal_strlit("hi");
        reveal_strlit("ko");
        reveal_strlit("kf");
    }
    let c = char_lower(s[pos]);
    if c == '$' {
        pos + 1
    } else if c == 's' {
        if has_keyword(s, pos, "so") || has_keyword(s, pos, "sf") {
            pos + 2
        } else {
            skip_numeric_command(s, pos)
        }
    } else if c == 'h' {
        if has_keyword(s, pos, "ho") || has_keyword(s, pos, "hf") || has_keyword(s, pos, "hi") {
            pos + 2
        } else {
            skip_numeric_command(s, pos)
        }
    } else if c == 'k' {
        if has_keyword(s, pos, "ko") || has_keyword(s, pos, "kf") {
            pos + 2
        } else {
            skip_generic_command(s, pos)
        }
    } else if c == 'y' {
        skip_register_command(s, pos)
    } else if c == '_' {
        skip_glide_command(s, pos)
    } else if c == 'm' || c == 'n' || c == '/' || c == 'p' || c == '\\' {
        skip_numeric_command(s, pos)
    } else {
        skip_generic_command(s, pos)
    }
}

pub fn skip_unsupported_at(s: &[char], pos: usize) -> (r: usize)
    requires
        pos <= s@.len(),
    ensures
        r == unsupported_at_end(s@, pos as int),
        pos <= r <= s@.len(),
{
    if pos >= s.len() {
        return pos;
    }
    let c = char_lower(s[pos]);
    if c == '\\' || c == 'p' || c == 'l' || c == 'f' || c == 'o' {
        skip_numeric_command(s, pos)
    } else {
        skip_generic_command(s, pos)
    }
}

pub fn is_unsupported_mml_command(c: char) -> (r: bool)
    ensures
        r == is_unsupported(c),
{
    c == 'm' || c == 's' || c == 'n' || c == '/' || c == 'p' || c == 'h' || c == '\\' || c == '_'
        || c == 'y' || c == '$' || c == 'k'
}

pub fn unsupported_mml_policy(command: &[char]) -> (r: &'static str)
    ensures
        r@ == policy(command@),
{
    let c = lower_chars(command);
    if chars_are(&c, "so") || chars_are(&c, "sf") {
        "ignore_with_warning: FM sustain not rendered"
    } else if chars_are(&c, "ko") || chars_are(&c, "kf") {
        "ignore_with_warning: keyoff command ignored"
    } else if begins_with_char(&c, 'h') {
        "ignore_with_warning: LFO not rendered"
    } else if begins_with(&c, "@p") {
        "ignore_with_warning: LFO not rendered"
    } else if begins_with(&c, "@l") {
        "ignore_with_warning: FM total level not rendered"
    } else if begins_with(&c, "@\\") {
        "ignore_with_warning: fine detune not rendered"
    } else if begins_with(&c, "@f") {
        "text_meta_or_ignore: fade command ignored"
    } else if begins_with(&c, "@o") {
        "text_meta_or_ignore: output/control command ignored"
    } else if begins_with_char(&c, 'm') || begins_with_char(&c, 's') {
        "ignore_with_warning: PSG hard envelope not rendered"
    } else if begins_with_char(&c, 'n') {
        "ignore_with_warning: PSG noise not rendered"
    } else if begins_with_char(&c, '/') {
        "ignore_with_warning: PSG mode/forced keyoff not rendered"
    } else if begins_with_char(&c, '\\') {
        "ignore_with_warning: detune not rendered"
    } else if begins_with_char(&c, 'p') {
        "ignore_with_warning: pitch down/LFO not rendered"
    } else if begins_with_char(&c, '_') {
        "ignore_with_warning: pitch glide not rendered"
    } else if begins_with_char(&c, 'y') {
        "ignore_with_warning: register write ignored"
    } else if chars_are(&c, "$") {
        "ignore: debug command"
    } else {
        "ignore_with_warning: ignored MML command"
    }
}

} // verus!
