//! Statements, comments and selectors of the source text.

use vstd::prelude::*;
use vstd::slice::slice_subrange;

use crate::ir::{RhythmMap, TrackKind};
use crate::text;
use crate::text::{
    CharClass, after, begins_with, begins_with_char, char_is_space, char_lower, chars_are,
    chars_of, find_char, lower_chars, push_chars, read_whole, same_text, skip_class, split_lines,
    split_words, trimmed, trimmed_start,
};
use crate::views;
use crate::views::push_viewed;

verus! {

// ---------------------------------------------------------------------------
// Quotes, comments and nesting
// ---------------------------------------------------------------------------
/// Where the comment of a line begins: the first semicolon outside quotes, or
/// the end. Inside quotes a backslash hides the character after it.
pub open spec fn comment_start(s: Seq<char>, pos: int, quoted: bool, escaped: bool) -> int
    decreases s.len() - pos,
{
    if pos < 0 || pos >= s.len() {
        pos
    } else if escaped {
        comment_start(s, pos + 1, quoted, false)
    } else if s[pos] == '\\' && quoted {
        comment_start(s, pos + 1, quoted, true)
    } else if s[pos] == '"' {
        comment_start(s, pos + 1, !quoted, false)
    } else if s[pos] == ';' && !quoted {
        pos
    } else {
        comment_start(s, pos + 1, quoted, false)
    }
}

/// A text up to its comment.
pub open spec fn without_comment(s: Seq<char>) -> Seq<char> {
    s.take(comment_start(s, 0, false, false))
}

/// How many more brackets open than close outside quotes and comments.
pub open spec fn nesting(
    s: Seq<char>,
    pos: int,
    quoted: bool,
    escaped: bool,
    open: char,
    close: char,
) -> int
    decreases s.len() - pos,
{
    if pos < 0 || pos >= s.len() {
        0
    } else if escaped {
        nesting(s, pos + 1, quoted, false, open, close)
    } else if s[pos] == '\\' && quoted {
        nesting(s, pos + 1, quoted, true, open, close)
    } else if s[pos] == '"' {
        nesting(s, pos + 1, !quoted, false, open, close)
    } else if s[pos] == ';' && !quoted {
        0
    } else if s[pos] == open && !quoted {
        1 + nesting(s, pos + 1, quoted, false, open, close)
    } else if s[pos] == close && !quoted {
        -1 + nesting(s, pos + 1, quoted, false, open, close)
    } else {
        nesting(s, pos + 1, quoted, false, open, close)
    }
}

pub fn find_comment(s: &[char]) -> (r: usize)
    ensures
        r == comment_start(s@, 0, false, false),
        r <= s@.len(),
{
    let mut quoted: bool = false;
    let mut escaped: bool = false;
    let mut p: usize = 0;
    while p < s.len()
        invariant
            p <= s@.len(),
            comment_start(s@, 0, false, false) == comment_start(s@, p as int, quoted, escaped),
        decreases s@.len() - p,
    {
        let c = s[p];
        if escaped {
            escaped = false;
        } else if c == '\\' && quoted {
            escaped = true;
        } else if c == '"' {
            quoted = !quoted;
        } else if c == ';' && !quoted {
            return p;
        }
        p += 1;
    }
    p
}

pub fn strip_normal_comment(s: &[char]) -> (r: &[char])
    ensures
        r@ == without_comment(s@),
{
    let end = find_comment(s);
    slice_subrange(s, 0, end)
}

pub fn bracket_delta(s: &[char], open: char, close: char) -> (r: i128)
    ensures
        r == nesting(s@, 0, false, false, open, close),
        -s@.len() <= r <= s@.len(),
{
    let mut delta: i128 = 0;
    let mut quoted: bool = false;
    let mut escaped: bool = false;
    let mut p: usize = 0;
    while p < s.len()
        invariant
            p <= s@.len(),
            -p <= delta <= p,
            nesting(s@, 0, false, false, open, close) == delta + nesting(
                s@,
                p as int,
                quoted,
                escaped,
                open,
                close,
            ),
        decreases s@.len() - p,
    {
        let c = s[p];
        if escaped {
            escaped = false;
        } else if c == '\\' && quoted {
            escaped = true;
        } else if c == '"' {
            quoted = !quoted;
        } else if c == ';' && !quoted {
            return delta;
        } else if c == open && !quoted {
            delta += 1;
        } else if c == close && !quoted {
            delta -= 1;
        }
        p += 1;
    }
    delta
}

// ---------------------------------------------------------------------------
// Statements
// ---------------------------------------------------------------------------
/// A statement and the line it begins on.
#[verifier::ext_equal]
pub struct StatementView {
    pub line: usize,
    pub text: Seq<char>,
}

pub struct Statement {
    pub line: usize,
    pub text: Vec<char>,
}

impl DeepView for Statement {
    type V = StatementView;

    open spec fn deep_view(&self) -> StatementView {
        StatementView { line: self.line, text: self.text@ }
    }
}

/// The statements of the lines from `idx` on. A statement goes on over the
/// following lines while a brace is open; `open` is what it holds so far.
pub open spec fn statements_from(
    lines: Seq<Seq<char>>,
    idx: int,
    open: Seq<char>,
    line: usize,
    depth: int,
) -> Seq<StatementView>
    decreases lines.len() - idx,
{
    if idx < 0 || idx >= lines.len() {
        if text::trim(open).len() > 0 {
            seq![StatementView { line, text: open }]
        } else {
            Seq::empty()
        }
    } else {
        let first = if open.len() == 0 {
            (idx + 1) as usize
        } else {
            line
        };
        let joined = if open.len() == 0 {
            lines[idx]
        } else {
            open.push('\n') + lines[idx]
        };
        let level = depth + nesting(lines[idx], 0, false, false, '{', '}');
        if level <= 0 {
            seq![StatementView { line: first, text: joined }] + statements_from(
                lines,
                idx + 1,
                Seq::empty(),
                first,
                0,
            )
        } else {
            statements_from(lines, idx + 1, joined, first, level)
        }
    }
}

/// The statements of a source text.
pub open spec fn statements(s: Seq<char>) -> Seq<StatementView> {
    statements_from(text::text_lines(s), 0, Seq::empty(), 1, 0)
}

pub fn collect_statements(s: &[char]) -> (r: Vec<Statement>)
    ensures
        views::all_views(r@) == statements(s@),
{
    let all = split_lines(s);
    let ghost every = text::text_lines(s@);
    let mut out: Vec<Statement> = Vec::new();
    let mut current: Vec<char> = Vec::new();
    let mut line: usize = 1;
    let mut depth: i128 = 0;
    let mut i: usize = 0;
    assert(current@ =~= Seq::empty());
    assert(views::all_views(out@) + statements(s@) =~= statements(s@));
    while i < all.len()
        invariant
            i <= all@.len(),
            text::texts(all@) == every,
            0 <= depth <= current@.len(),
            views::all_views(out@) + statements_from(every, i as int, current@, line, depth as int)
                == statements(s@),
        decreases all@.len() - i,
    {
        let ghost before = out@;
        let ghost open = current@;
        assert(every[i as int] == all@[i as int]@);
        if current.len() == 0 {
            line = i + 1;
        } else {
            current.push('\n');
        }
        push_chars(&mut current, &all[i]);
        assert(open.len() == 0 ==> current@ =~= every[i as int]);
        let len = current.len();
        depth = depth + bracket_delta(&all[i], '{', '}');
        if depth <= 0 {
            let text = current;
            current = Vec::new();
            assert(current@ =~= Seq::empty());
            depth = 0;
            push_viewed(&mut out, Statement { line, text });
            assert(views::all_views(before) + (seq![StatementView { line, text: text@ }]
                + statements_from(every, i + 1, Seq::empty(), line, 0)) =~= views::all_views(out@)
                + statements_from(every, i + 1, Seq::empty(), line, 0));
        }
        i += 1;
    }
    let rest = trimmed(&current);
    if rest.len() > 0 {
        let ghost before = out@;
        push_viewed(&mut out, Statement { line, text: current });
        assert(views::all_views(before) + seq![StatementView { line, text: current@ }] =~= views::all_views(
            out@,
        ));
    } else {
        assert(views::all_views(out@) + Seq::<StatementView>::empty() =~= views::all_views(out@));
    }
    out
}

// ---------------------------------------------------------------------------
// Comments that speak
// ---------------------------------------------------------------------------
/// The body of a comment that makes up a whole statement.
pub open spec fn leading_comment(s: Seq<char>) -> Option<Seq<char>> {
    let t = text::trim_start(s);
    if text::begins(t, ';') {
        Some(t.skip(1))
    } else {
        None
    }
}

/// The directive in a comment body that begins with the word `@smf`.
pub open spec fn smf_comment(body: Seq<char>) -> Option<Seq<char>> {
    let t = text::trim_start(body);
    if "@smf"@.is_prefix_of(t) {
        let rest = t.skip("@smf"@.len() as int);
        if rest.len() == 0 || text::is_space(rest[0]) {
            Some(text::trim_start(rest))
        } else {
            None
        }
    } else {
        None
    }
}

pub open spec fn opt_text(r: Option<&[char]>) -> Option<Seq<char>> {
    match r {
        Some(t) => Some(t@),
        None => None,
    }
}

pub fn leading_comment_body(s: &[char]) -> (r: Option<&[char]>)
    ensures
        opt_text(r) == leading_comment(s@),
{
    let t = trimmed_start(s);
    if begins_with_char(t, ';') {
        Some(after(t, 1))
    } else {
        None
    }
}

pub fn smf_comment_body(body: &[char]) -> (r: Option<&[char]>)
    ensures
        opt_text(r) == smf_comment(body@),
{
    proof {
        reveal_strlit("@smf");
    }
    let t = trimmed_start(body);
    if !begins_with(t, "@smf") {
        return None;
    }
    let rest = after(t, 4);
    if rest.len() == 0 || char_is_space(rest[0]) {
        Some(trimmed_start(rest))
    } else {
        None
    }
}

/// Whether a player setting has one of the names that mark a settings comment.
pub open spec fn is_player_key(key: Seq<char>) -> bool {
    let k = text::lower_all(key);
    k == "gain"@ || k == "name"@ || k == "duration"@ || k == "fade"@ || k == "cpu"@ || k == "lpf"@
}

/// The loop count of the settings from `i` on: that of the first `loop` setting,
/// if it is positive; else two, where another player setting was seen.
pub open spec fn settings_loop_count(settings: Seq<Seq<char>>, i: int, seen: bool) -> Option<u32>
    decreases settings.len() - i,
{
    if i < 0 || i >= settings.len() {
        if seen {
            Some(2u32)
        } else {
            None
        }
    } else {
        match text::find_from(settings[i], 0, '=') {
            Some(e) => {
                let key = settings[i].take(e);
                if text::lower_all(key) == "loop"@ {
                    match text::whole_number(settings[i].skip(e + 1), 10, false, 0, u32::MAX as int) {
                        Some(n) => if n > 0 {
                            Some(n as u32)
                        } else {
                            None
                        },
                        None => None,
                    }
                } else {
                    settings_loop_count(settings, i + 1, seen || is_player_key(key))
                }
            },
            None => settings_loop_count(settings, i + 1, seen),
        }
    }
}

/// The loop count that a player settings comment, `[key=value ...]`, asks for.
pub open spec fn comment_loop_count(body: Seq<char>) -> Option<u32> {
    let t = text::trim_start(body);
    if text::begins(t, '[') {
        match text::find_from(t, 1, ']') {
            Some(e) => settings_loop_count(text::words(t.subrange(1, e)), 0, false),
            None => None,
        }
    } else {
        None
    }
}

fn has_player_key(key: &[char]) -> (r: bool)
    ensures
        r == is_player_key(key@),
{
    let k = lower_chars(key);
    chars_are(&k, "gain") || chars_are(&k, "name") || chars_are(&k, "duration") || chars_are(
        &k,
        "fade",
    ) || chars_are(&k, "cpu") || chars_are(&k, "lpf")
}

pub fn parse_msxplay_loop_count(body: &[char]) -> (r: Option<u32>)
    ensures
        r == comment_loop_count(body@),
{
    let t = trimmed_start(body);
    if !begins_with_char(t, '[') {
        return None;
    }
    let end = match find_char(t, 1, ']') {
        Some(e) => e,
        None => {
            return None;
        },
    };
    let settings = split_words(slice_subrange(t, 1, end));
    let ghost all = text::texts(settings@);
    let mut seen: bool = false;
    let mut i: usize = 0;
    while i < settings.len()
        invariant
            i <= settings@.len(),
            all == text::texts(settings@),
            settings_loop_count(all, 0, false) == settings_loop_count(all, i as int, seen),
            comment_loop_count(body@) == settings_loop_count(all, 0, false),
        decreases settings@.len() - i,
    {
        let setting = &settings[i];
        assert(all[i as int] == setting@);
        match find_char(setting, 0, '=') {
            Some(e) => {
                let key = slice_subrange(setting, 0, e);
                assert(key@ =~= setting@.take(e as int));
                let lowered = lower_chars(key);
                if chars_are(&lowered, "loop") {
                    return match read_whole(after(setting, e + 1), 10, false, 0, u32::MAX as i64) {
                        Some(n) => if n > 0 {
                            Some(n as u32)
                        } else {
                            None
                        },
                        None => None,
                    };
                }
                let known = has_player_key(key);
                seen = seen || known;
            },
            None => {},
        }
        i += 1;
    }
    if seen {
        Some(2)
    } else {
        None
    }
}

// ---------------------------------------------------------------------------
// Track selectors
// ---------------------------------------------------------------------------
pub open spec fn is_selector(c: char) -> bool {
    '1' <= c <= '9' || 'a' <= c <= 'h' || 'A' <= c <= 'H' || c == 'r' || c == 'R'
}

/// The selectors of a track line and its body, if the statement is one: a word
/// of selectors, white space, and what follows.
pub open spec fn track_line(s: Seq<char>) -> Option<(Seq<char>, Seq<char>)> {
    let end = text::run_end(s, 0, CharClass::Word);
    if 0 < end < s.len() && forall|i: int| 0 <= i < end ==> is_selector(#[trigger] s[i]) {
        Some((text::lower_all(s.take(end)), text::trim_start(s.skip(end))))
    } else {
        None
    }
}

/// The lower-case selectors in the first `n` characters of a text.
pub open spec fn selectors_in(s: Seq<char>, n: int) -> Seq<char>
    decreases n,
{
    if n <= 0 || n > s.len() {
        Seq::empty()
    } else if is_selector(s[n - 1]) {
        selectors_in(s, n - 1).push(text::lower(s[n - 1]))
    } else {
        selectors_in(s, n - 1)
    }
}

pub fn is_track_selector_char(c: char) -> (r: bool)
    ensures
        r == is_selector(c),
{
    ('1' <= c && c <= '9') || ('a' <= c && c <= 'h') || ('A' <= c && c <= 'H') || c == 'r' || c
        == 'R'
}

pub fn parse_track_line(s: &[char]) -> (r: Option<(Vec<char>, &[char])>)
    ensures
        match r {
            Some((selectors, body)) => track_line(s@) == Some((selectors@, body@)),
            None => track_line(s@) is None,
        },
{
    let end = skip_class(s, 0, CharClass::Word);
    if end == 0 || end >= s.len() {
        return None;
    }
    let mut i: usize = 0;
    while i < end
        invariant
            i <= end < s@.len(),
            end == text::run_end(s@, 0, CharClass::Word),
            forall|k: int| 0 <= k < i ==> is_selector(#[trigger] s@[k]),
        decreases end - i,
    {
        if !is_track_selector_char(s[i]) {
            assert(!is_selector(s@[i as int]));
            return None;
        }
        i += 1;
    }
    let head = slice_subrange(s, 0, end);
    assert(head@ =~= s@.take(end as int));
    Some((lower_chars(head), trimmed_start(after(s, end))))
}

pub fn parse_play_track_selectors(s: &[char]) -> (r: Vec<char>)
    ensures
        r@ == selectors_in(s@, s@.len() as int),
{
    let mut out: Vec<char> = Vec::new();
    let mut i: usize = 0;
    while i < s.len()
        invariant
            i <= s@.len(),
            out@ == selectors_in(s@, i as int),
        decreases s@.len() - i,
    {
        if is_track_selector_char(s[i]) {
            out.push(char_lower(s[i]));
        }
        i += 1;
    }
    out
}

/// Whether a track is to be converted.
pub open spec fn is_played(filter: Option<Seq<char>>, track: Seq<char>) -> bool {
    match filter {
        Some(f) => track.len() == 1 && f.contains(track[0]),
        None => true,
    }
}

pub fn plays_track(filter: &Option<Vec<char>>, track: &str) -> (r: bool)
    ensures
        r == is_played(
            match *filter {
                Some(f) => Some(f@),
                None => None,
            },
            track@,
        ),
{
    match filter {
        Some(f) => {
            let name = chars_of(track);
            if name.len() != 1 {
                return false;
            }
            let mut i: usize = 0;
            while i < f.len()
                invariant
                    i <= f@.len(),
                    name@.len() == 1,
                    name@ == track@,
                    *filter == Some(*f),
                    forall|k: int| 0 <= k < i ==> f@[k] != name@[0],
                decreases f@.len() - i,
            {
                if f[i] == name[0] {
                    assert(f@.contains(track@[0]));
                    return true;
                }
                i += 1;
            }
            false
        },
        None => true,
    }
}

/// Whether a selector stands for the built-in drums: `f` or `r`, in the OPLL
/// mode that has them.
pub open spec fn selector_kind(selector: Seq<char>, opll_mode: i32, rhythm: RhythmMap) -> TrackKind {
    if rhythm == RhythmMap::Gm && opll_mode == 1 && (selector == "f"@ || selector == "r"@) {
        TrackKind::Rhythm
    } else {
        TrackKind::Melodic
    }
}

pub fn track_kind_for_selector(selector: &str, opll_mode: i32, rhythm: RhythmMap) -> (r: TrackKind)
    ensures
        r == selector_kind(selector@, opll_mode, rhythm),
{
    if rhythm == RhythmMap::Gm && opll_mode == 1 && (same_text(selector, "f") || same_text(
        selector,
        "r",
    )) {
        TrackKind::Rhythm
    } else {
        TrackKind::Melodic
    }
}

} // verus!
