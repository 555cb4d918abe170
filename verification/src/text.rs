//! Text as a sequence of characters: conversion, comparison and the
//! elementary scanning that every reader of the crate is built from.

use vstd::prelude::*;
use vstd::slice::slice_subrange;

verus! {

/// `String::push` appends one character to the end of the string.
pub assume_specification[ String::push ](s: &mut String, c: char)
    ensures
        final(s)@ == old(s)@.push(c),
;

// ---------------------------------------------------------------------------
// Characters
// ---------------------------------------------------------------------------
/// The characters with the Unicode `White_Space` property.
pub open spec fn is_space(c: char) -> bool {
    let n = c as u32;
    ||| 9 <= n <= 13
    ||| n == 32
    ||| n == 0x85
    ||| n == 0xA0
    ||| n == 0x1680
    ||| 0x2000 <= n <= 0x200A
    ||| n == 0x2028
    ||| n == 0x2029
    ||| n == 0x202F
    ||| n == 0x205F
    ||| n == 0x3000
}

/// The Unicode `Cc` (control) characters.
pub open spec fn is_control(c: char) -> bool {
    let n = c as u32;
    n < 32 || 127 <= n < 160
}

pub open spec fn is_digit(c: char) -> bool {
    '0' <= c <= '9'
}

pub open spec fn is_alphabetic(c: char) -> bool {
    'a' <= c <= 'z' || 'A' <= c <= 'Z'
}

/// ASCII lower case of one character; every other character is kept.
pub open spec fn lower(c: char) -> char {
    if 'A' <= c <= 'Z' {
        ((c as u32) + 32) as char
    } else {
        c
    }
}

/// ASCII lower case of a text.
pub open spec fn lower_all(s: Seq<char>) -> Seq<char> {
    Seq::new(s.len(), |i: int| lower(s[i]))
}

/// The value of a digit in a base up to sixteen, or `None`.
pub open spec fn digit_value(c: char, radix: int) -> Option<int> {
    let n = c as int;
    let v = if '0' <= c <= '9' {
        n - 48
    } else if 'a' <= c <= 'f' {
        n - 87
    } else if 'A' <= c <= 'F' {
        n - 55
    } else {
        99
    };
    if v < radix {
        Some(v)
    } else {
        None
    }
}

pub fn char_is_space(c: char) -> (r: bool)
    ensures
        r == is_space(c),
{
    let n: u32 = c as u32;
    (9 <= n && n <= 13) || n == 32 || n == 0x85 || n == 0xA0 || n == 0x1680 || (0x2000 <= n && n
        <= 0x200A) || n == 0x2028 || n == 0x2029 || n == 0x202F || n == 0x205F || n == 0x3000
}

pub fn char_is_control(c: char) -> (r: bool)
    ensures
        r == is_control(c),
{
    let n: u32 = c as u32;
    n < 32 || (127 <= n && n < 160)
}

pub fn char_is_digit(c: char) -> (r: bool)
    ensures
        r == is_digit(c),
{
    '0' <= c && c <= '9'
}

pub fn char_is_alphabetic(c: char) -> (r: bool)
    ensures
        r == is_alphabetic(c),
{
    ('a' <= c && c <= 'z') || ('A' <= c && c <= 'Z')
}

pub fn char_lower(c: char) -> (r: char)
    ensures
        r == lower(c),
{
    if 'A' <= c && c <= 'Z' {
        ((c as u8) + 32) as char
    } else {
        c
    }
}

pub fn char_digit_value(c: char, radix: u32) -> (r: Option<u32>)
    requires
        radix <= 16,
    ensures
        digit_value(c, radix as int) == match r {
            Some(v) => Some(v as int),
            None => None::<int>,
        },
        r matches Some(v) ==> v < radix,
{
    let n: u32 = c as u32;
    let v: u32 = if '0' <= c && c <= '9' {
        n - 48
    } else if 'a' <= c && c <= 'f' {
        n - 87
    } else if 'A' <= c && c <= 'F' {
        n - 55
    } else {
        99
    };
    if v < radix {
        Some(v)
    } else {
        None
    }
}

// ---------------------------------------------------------------------------
// Strings and character sequences
// ---------------------------------------------------------------------------
/// The characters of a string, in order.
pub fn chars_of(s: &str) -> (r: Vec<char>)
    ensures
        r@ == s@,
{
    let mut out: Vec<char> = Vec::new();
    for c in it: s.chars()
        invariant
            out@ == it.seq().take(it.index() as int),
            it.seq() == s@,
    {
        assert(it.seq().take(it.index() as int).push(c) =~= it.seq().take(it.index() + 1));
        out.push(c);
    }
    assert(s@.take(s@.len() as int) =~= s@);
    out
}

/// The string that holds the given characters.
pub fn string_of(s: &[char]) -> (r: String)
    ensures
        r@ == s@,
{
    let mut out = String::new();
    let mut i: usize = 0;
    while i < s.len()
        invariant
            i <= s@.len(),
            out@ == s@.take(i as int),
        decreases s@.len() - i,
    {
        out.push(s[i]);
        assert(s@.take(i as int).push(s@[i as int]) =~= s@.take(i + 1));
        i += 1;
    }
    assert(s@.take(s@.len() as int) =~= s@);
    out
}

/// The string of the characters between two positions.
pub fn substring(s: &[char], start: usize, end: usize) -> (r: String)
    requires
        start <= end <= s@.len(),
    ensures
        r@ == s@.subrange(start as int, end as int),
{
    string_of(slice_subrange(s, start, end))
}

/// A vector of the given characters.
pub fn to_chars(s: &[char]) -> (r: Vec<char>)
    ensures
        r@ == s@,
{
    let mut out: Vec<char> = Vec::new();
    let mut i: usize = 0;
    while i < s.len()
        invariant
            i <= s@.len(),
            out@ == s@.take(i as int),
        decreases s@.len() - i,
    {
        out.push(s[i]);
        assert(s@.take(i as int).push(s@[i as int]) =~= s@.take(i + 1));
        i += 1;
    }
    assert(s@.take(s@.len() as int) =~= s@);
    out
}

/// Appends characters to a vector.
pub fn push_chars(out: &mut Vec<char>, s: &[char])
    ensures
        final(out)@ == old(out)@ + s@,
{
    let mut i: usize = 0;
    while i < s.len()
        invariant
            i <= s@.len(),
            out@ == old(out)@ + s@.take(i as int),
        decreases s@.len() - i,
    {
        out.push(s[i]);
        assert(old(out)@ + s@.take(i + 1) =~= (old(out)@ + s@.take(i as int)).push(s@[i as int]));
        i += 1;
    }
    assert(s@.take(s@.len() as int) =~= s@);
}

/// ASCII lower case of a text.
pub fn lower_chars(s: &[char]) -> (r: Vec<char>)
    ensures
        r@ == lower_all(s@),
{
    let mut out: Vec<char> = Vec::new();
    let mut i: usize = 0;
    while i < s.len()
        invariant
            i <= s@.len(),
            out@ == lower_all(s@).take(i as int),
        decreases s@.len() - i,
    {
        out.push(char_lower(s[i]));
        assert(lower_all(s@).take(i as int).push(lower(s@[i as int])) =~= lower_all(s@).take(
            i + 1,
        ));
        i += 1;
    }
    assert(lower_all(s@).take(s@.len() as int) =~= lower_all(s@));
    out
}

/// Whether two texts are equal.
pub fn same_chars(a: &[char], b: &[char]) -> (r: bool)
    ensures
        r == (a@ == b@),
{
    if a.len() != b.len() {
        return false;
    }
    let mut i: usize = 0;
    while i < a.len()
        invariant
            i <= a@.len(),
            a@.len() == b@.len(),
            forall|k: int| 0 <= k < i ==> a@[k] == b@[k],
        decreases a@.len() - i,
    {
        if a[i] != b[i] {
            assert(a@[i as int] != b@[i as int]);
            return false;
        }
        i += 1;
    }
    assert(a@ =~= b@);
    true
}

/// Whether a text equals a string.
pub fn chars_are(a: &[char], b: &str) -> (r: bool)
    ensures
        r == (a@ == b@),
{
    let v = chars_of(b);
    same_chars(a, &v)
}

/// Whether two strings are equal.
pub fn same_text(a: &str, b: &str) -> (r: bool)
    ensures
        r == (a@ == b@),
{
    let x = chars_of(a);
    let y = chars_of(b);
    same_chars(&x, &y)
}

/// Whether a text begins with a string.
pub fn begins_with(s: &[char], prefix: &str) -> (r: bool)
    ensures
        r == prefix@.is_prefix_of(s@),
{
    let p = chars_of(prefix);
    if p.len() > s.len() {
        return false;
    }
    same_chars(slice_subrange(s, 0, p.len()), &p)
}

/// Whether a text begins with a character.
pub open spec fn begins(s: Seq<char>, c: char) -> bool {
    s.len() > 0 && s[0] == c
}

pub fn begins_with_char(s: &[char], c: char) -> (r: bool)
    ensures
        r == begins(s@, c),
{
    s.len() > 0 && s[0] == c
}

/// The text without its first `n` characters.
pub fn after(s: &[char], n: usize) -> (r: &[char])
    requires
        n <= s@.len(),
    ensures
        r@ == s@.skip(n as int),
{
    slice_subrange(s, n, s.len())
}

/// A copy of a string.
pub fn copy_text(s: &str) -> (r: String)
    ensures
        r@ == s@,
{
    s.to_owned()
}

/// A copy of an optional string.
pub fn copy_opt(s: &Option<String>) -> (r: Option<String>)
    ensures
        r.deep_view() == s.deep_view(),
{
    match s {
        Some(t) => Some(copy_text(t.as_str())),
        None => None,
    }
}

/// Two texts joined.
pub fn join2(a: &str, b: &str) -> (r: String)
    ensures
        r@ == a@ + b@,
{
    let mut out = copy_text(a);
    out.append(b);
    out
}

/// Three texts joined.
pub fn join3(a: &str, b: &str, c: &str) -> (r: String)
    ensures
        r@ == a@ + b@ + c@,
{
    let mut out = copy_text(a);
    out.append(b);
    out.append(c);
    out
}

/// Four texts joined.
pub fn join4(a: &str, b: &str, c: &str, d: &str) -> (r: String)
    ensures
        r@ == a@ + b@ + c@ + d@,
{
    let mut out = join3(a, b, c);
    out.append(d);
    out
}

/// Five texts joined.
pub fn join5(a: &str, b: &str, c: &str, d: &str, e: &str) -> (r: String)
    ensures
        r@ == a@ + b@ + c@ + d@ + e@,
{
    let mut out = join4(a, b, c, d);
    out.append(e);
    out
}

/// A text of one character.
pub fn char_text(c: char) -> (r: String)
    ensures
        r@ == seq![c],
{
    let mut out = String::new();
    out.push(c);
    assert(out@ =~= seq![c]);
    out
}

// ---------------------------------------------------------------------------
// Scanning
// ---------------------------------------------------------------------------
/// The sets of characters that the readers skip or collect.
#[derive(Clone, Copy, Debug, PartialEq, Eq, Structural)]
pub enum CharClass {
    /// White space.
    Space,
    /// Anything but white space.
    Word,
    /// Decimal digits.
    Digit,
    /// Anything but a decimal digit.
    NonDigit,
    /// Anything that can begin no signed number.
    NonNumber,
    /// White space and commas.
    SpaceComma,
    /// White space, commas and full stops.
    SpaceSeparator,
    /// Anything but white space and commas.
    EntryValue,
    /// Accidentals.
    Accidental,
    /// Dots after a length.
    Dot,
    /// What a command name of unknown shape may go on with.
    CommandTail,
    /// Anything but a line feed.
    LineRest,
}

pub open spec fn in_class(k: CharClass, c: char) -> bool {
    match k {
        CharClass::Space => is_space(c),
        CharClass::Word => !is_space(c),
        CharClass::Digit => is_digit(c),
        CharClass::NonDigit => !is_digit(c),
        CharClass::NonNumber => !is_digit(c) && c != '-' && c != '+',
        CharClass::SpaceComma => is_space(c) || c == ',',
        CharClass::SpaceSeparator => is_space(c) || c == ',' || c == '.',
        CharClass::EntryValue => c != ',' && !is_space(c),
        CharClass::Accidental => c == '+' || c == '#' || c == '-',
        CharClass::Dot => c == '.',
        CharClass::CommandTail => is_alphabetic(c) || is_digit(c) || c == '+' || c == '-' || c
            == '_' || c == '\\' || c == '/' || c == '#',
        CharClass::LineRest => c != '\n',
    }
}

pub fn char_in_class(k: CharClass, c: char) -> (r: bool)
    ensures
        r == in_class(k, c),
{
    match k {
        CharClass::Space => char_is_space(c),
        CharClass::Word => !char_is_space(c),
        CharClass::Digit => char_is_digit(c),
        CharClass::NonDigit => !char_is_digit(c),
        CharClass::NonNumber => !char_is_digit(c) && c != '-' && c != '+',
        CharClass::SpaceComma => char_is_space(c) || c == ',',
        CharClass::SpaceSeparator => char_is_space(c) || c == ',' || c == '.',
        CharClass::EntryValue => c != ',' && !char_is_space(c),
        CharClass::Accidental => c == '+' || c == '#' || c == '-',
        CharClass::Dot => c == '.',
        CharClass::CommandTail => char_is_alphabetic(c) || char_is_digit(c) || c == '+' || c == '-'
            || c == '_' || c == '\\' || c == '/' || c == '#',
        CharClass::LineRest => c != '\n',
    }
}

/// The end of the run of characters of a class that begins at `pos`.
pub open spec fn run_end(s: Seq<char>, pos: int, k: CharClass) -> int
    decreases s.len() - pos,
{
    if 0 <= pos < s.len() && in_class(k, s[pos]) {
        run_end(s, pos + 1, k)
    } else {
        pos
    }
}

/// A run is the longest one: it holds characters of the class only, and what
/// follows it, if anything, is not of the class.
pub proof fn run_end_is_longest(s: Seq<char>, pos: int, k: CharClass)
    requires
        0 <= pos <= s.len(),
    ensures
        pos <= run_end(s, pos, k) <= s.len(),
        forall|i: int| pos <= i < run_end(s, pos, k) ==> in_class(k, #[trigger] s[i]),
        run_end(s, pos, k) < s.len() ==> !in_class(k, s[run_end(s, pos, k)]),
    decreases s.len() - pos,
{
    if pos < s.len() && in_class(k, s[pos]) {
        run_end_is_longest(s, pos + 1, k);
    }
}

pub fn skip_class(s: &[char], pos: usize, k: CharClass) -> (r: usize)
    requires
        pos <= s@.len(),
    ensures
        r == run_end(s@, pos as int, k),
        pos <= r <= s@.len(),
{
    let mut p: usize = pos;
    while p < s.len() && char_in_class(k, s[p])
        invariant
            pos <= p <= s@.len(),
            run_end(s@, pos as int, k) == run_end(s@, p as int, k),
        decreases s@.len() - p,
    {
        p += 1;
    }
    p
}

/// The position after white space.
pub open spec fn ws_end(s: Seq<char>, pos: int) -> int {
    run_end(s, pos, CharClass::Space)
}

pub fn skip_ws(s: &[char], pos: usize) -> (r: usize)
    requires
        pos <= s@.len(),
    ensures
        r == ws_end(s@, pos as int),
        pos <= r <= s@.len(),
{
    skip_class(s, pos, CharClass::Space)
}

/// The character at a position is the given one.
pub open spec fn at(s: Seq<char>, pos: int, c: char) -> bool {
    0 <= pos < s.len() && s[pos] == c
}

pub fn char_at(s: &[char], pos: usize, c: char) -> (r: bool)
    ensures
        r == at(s@, pos as int, c),
        r ==> pos < usize::MAX,
{
    pos < s.len() && s[pos] == c
}

/// The position after a character.
pub fn next_pos(s: &[char], pos: usize) -> (r: usize)
    requires
        pos < s@.len(),
    ensures
        r == pos + 1,
        r <= s@.len(),
{
    let len = s.len();
    assert(pos < len);
    pos + 1
}

/// The text without leading white space.
pub open spec fn trim_start(s: Seq<char>) -> Seq<char> {
    s.skip(ws_end(s, 0))
}

/// The text without trailing white space.
pub open spec fn trim_end(s: Seq<char>) -> Seq<char>
    decreases s.len(),
{
    if s.len() > 0 && is_space(s.last()) {
        trim_end(s.drop_last())
    } else {
        s
    }
}

/// The text without leading and trailing white space.
pub open spec fn trim(s: Seq<char>) -> Seq<char> {
    trim_end(trim_start(s))
}

pub fn trimmed_start(s: &[char]) -> (r: &[char])
    ensures
        r@ == trim_start(s@),
{
    let n = skip_ws(s, 0);
    after(s, n)
}

pub fn trimmed_end(s: &[char]) -> (r: &[char])
    ensures
        r@ == trim_end(s@),
{
    let mut n: usize = s.len();
    assert(s@.take(n as int) =~= s@);
    while n > 0 && char_is_space(s[n - 1])
        invariant
            n <= s@.len(),
            trim_end(s@) == trim_end(s@.take(n as int)),
        decreases n,
    {
        assert(s@.take(n as int).drop_last() =~= s@.take(n - 1));
        n -= 1;
    }
    slice_subrange(s, 0, n)
}

pub fn trimmed(s: &[char]) -> (r: &[char])
    ensures
        r@ == trim(s@),
{
    trimmed_end(trimmed_start(s))
}

/// The position of the first occurrence of a character at or after `pos`.
pub open spec fn find_from(s: Seq<char>, pos: int, c: char) -> Option<int>
    decreases s.len() - pos,
{
    if 0 <= pos < s.len() {
        if s[pos] == c {
            Some(pos)
        } else {
            find_from(s, pos + 1, c)
        }
    } else {
        None
    }
}

pub open spec fn opt_pos(p: Option<usize>) -> Option<int> {
    match p {
        Some(i) => Some(i as int),
        None => None,
    }
}

pub fn find_char(s: &[char], pos: usize, c: char) -> (r: Option<usize>)
    requires
        pos <= s@.len(),
    ensures
        opt_pos(r) == find_from(s@, pos as int, c),
        r matches Some(i) ==> pos <= i < s@.len() && s@[i as int] == c,
{
    let mut p: usize = pos;
    while p < s.len()
        invariant
            pos <= p <= s@.len(),
            find_from(s@, pos as int, c) == find_from(s@, p as int, c),
        decreases s@.len() - p,
    {
        if s[p] == c {
            return Some(p);
        }
        p += 1;
    }
    None
}

/// The position of the last occurrence of a character in the first `end`
/// characters.
pub open spec fn find_last(s: Seq<char>, end: int, c: char) -> Option<int>
    decreases end,
{
    if 0 < end <= s.len() {
        if s[end - 1] == c {
            Some(end - 1)
        } else {
            find_last(s, end - 1, c)
        }
    } else {
        None
    }
}

pub fn rfind_char(s: &[char], c: char) -> (r: Option<usize>)
    ensures
        opt_pos(r) == find_last(s@, s@.len() as int, c),
        r matches Some(i) ==> i < s@.len() && s@[i as int] == c,
{
    let mut n: usize = s.len();
    while n > 0
        invariant
            n <= s@.len(),
            find_last(s@, s@.len() as int, c) == find_last(s@, n as int, c),
        decreases n,
    {
        if s[n - 1] == c {
            return Some(n - 1);
        }
        n -= 1;
    }
    None
}

// ---------------------------------------------------------------------------
// Lines and words
// ---------------------------------------------------------------------------
/// A line without the carriage return before its line feed.
pub open spec fn without_cr(s: Seq<char>) -> Seq<char> {
    if s.len() > 0 && s.last() == '\r' {
        s.drop_last()
    } else {
        s
    }
}

/// The lines of a text: each ends at a line feed, before which a carriage
/// return is dropped; the last one may end with the text.
pub open spec fn lines_from(s: Seq<char>, pos: int) -> Seq<Seq<char>>
    decreases s.len() - pos,
{
    if pos < 0 || pos >= s.len() {
        Seq::empty()
    } else {
        let end = run_end(s, pos, CharClass::LineRest);
        if pos <= end < s.len() {
            seq![without_cr(s.subrange(pos, end))] + lines_from(s, end + 1)
        } else {
            seq![s.skip(pos)]
        }
    }
}

pub open spec fn text_lines(s: Seq<char>) -> Seq<Seq<char>> {
    lines_from(s, 0)
}

/// The contents of a sequence of character vectors.
pub open spec fn texts(v: Seq<Vec<char>>) -> Seq<Seq<char>> {
    Seq::new(v.len(), |i: int| v[i]@)
}

pub fn split_lines(s: &[char]) -> (r: Vec<Vec<char>>)
    ensures
        texts(r@) == text_lines(s@),
{
    let mut out: Vec<Vec<char>> = Vec::new();
    let mut pos: usize = 0;
    assert(texts(out@) + lines_from(s@, 0) =~= text_lines(s@));
    while pos < s.len()
        invariant
            pos <= s@.len(),
            texts(out@) + lines_from(s@, pos as int) == text_lines(s@),
        decreases s@.len() - pos,
    {
        let ghost before = out@;
        let end = skip_class(s, pos, CharClass::LineRest);
        if end < s.len() {
            let mut stop: usize = end;
            if pos < end && s[end - 1] == '\r' {
                stop = end - 1;
            }
            let line = to_chars(slice_subrange(s, pos, stop));
            assert(line@ =~= without_cr(s@.subrange(pos as int, end as int)));
            out.push(line);
            assert(texts(out@) =~= texts(before).push(line@));
            assert(texts(before) + (seq![line@] + lines_from(s@, end + 1)) =~= texts(out@)
                + lines_from(s@, end + 1));
            pos = end + 1;
        } else {
            let line = to_chars(slice_subrange(s, pos, s.len()));
            out.push(line);
            assert(line@ =~= s@.skip(pos as int));
            assert(texts(out@) =~= texts(before).push(line@));
            assert(texts(before) + seq![line@] =~= texts(out@));
            pos = s.len();
            assert(texts(out@) + lines_from(s@, pos as int) =~= texts(out@));
        }
    }
    assert(texts(out@) + lines_from(s@, pos as int) =~= texts(out@));
    out
}

/// The words of a text: its longest runs without white space.
pub open spec fn words_from(s: Seq<char>, pos: int) -> Seq<Seq<char>>
    decreases s.len() - pos,
{
    let start = ws_end(s, pos);
    let end = run_end(s, start, CharClass::Word);
    if 0 <= pos <= start < end <= s.len() {
        seq![s.subrange(start, end)] + words_from(s, end)
    } else {
        Seq::empty()
    }
}

pub open spec fn words(s: Seq<char>) -> Seq<Seq<char>> {
    words_from(s, 0)
}

pub fn split_words(s: &[char]) -> (r: Vec<Vec<char>>)
    ensures
        texts(r@) == words(s@),
{
    let mut out: Vec<Vec<char>> = Vec::new();
    let mut pos: usize = 0;
    assert(texts(out@) + words_from(s@, 0) =~= words(s@));
    loop
        invariant
            pos <= s@.len(),
            texts(out@) + words_from(s@, pos as int) == words(s@),
        ensures
            texts(out@) == words(s@),
        decreases s@.len() - pos,
    {
        let ghost before = out@;
        let start = skip_ws(s, pos);
        let end = skip_class(s, start, CharClass::Word);
        if end <= start {
            assert(words_from(s@, pos as int) =~= Seq::<Seq<char>>::empty());
            assert(texts(out@) + words_from(s@, pos as int) =~= texts(out@));
            break;
        }
        let word = to_chars(slice_subrange(s, start, end));
        out.push(word);
        assert(texts(out@) =~= texts(before).push(word@));
        assert(texts(before) + (seq![word@] + words_from(s@, end as int)) =~= texts(out@)
            + words_from(s@, end as int));
        pos = end;
    }
    out
}

// ---------------------------------------------------------------------------
// Numbers as text
// ---------------------------------------------------------------------------
/// The decimal digit of a value below ten.
pub open spec fn digit_char(d: nat) -> char {
    ((d + 48) as u32) as char
}

/// The decimal notation of a natural number.
pub open spec fn decimal(n: nat) -> Seq<char>
    decreases n,
{
    if n < 10 {
        seq![digit_char(n)]
    } else {
        decimal(n / 10).push(digit_char(n % 10))
    }
}

/// The decimal notation of an integer.
pub open spec fn signed_decimal(n: int) -> Seq<char> {
    if n < 0 {
        seq!['-'] + decimal((-n) as nat)
    } else {
        decimal(n as nat)
    }
}

pub fn decimal_chars(n: u128) -> (r: Vec<char>)
    ensures
        r@ == decimal(n as nat),
    decreases n,
{
    let c: char = ((n % 10) as u8 + 48) as char;
    if n < 10 {
        let mut out: Vec<char> = Vec::new();
        out.push(c);
        assert(out@ =~= seq![c]);
        out
    } else {
        let mut out = decimal_chars(n / 10);
        out.push(c);
        out
    }
}

pub fn number_text(n: u64) -> (r: String)
    ensures
        r@ == decimal(n as nat),
{
    let v = decimal_chars(n as u128);
    string_of(&v)
}

pub fn signed_text(n: i128) -> (r: String)
    requires
        n > i128::MIN,
    ensures
        r@ == signed_decimal(n as int),
{
    if n < 0 {
        let v = decimal_chars((-n) as u128);
        let mut out: Vec<char> = Vec::new();
        out.push('-');
        assert(out@ =~= seq!['-']);
        push_chars(&mut out, &v);
        string_of(&out)
    } else {
        let v = decimal_chars(n as u128);
        string_of(&v)
    }
}

/// The value that a run of decimal digits at `pos` adds to `acc` on its left.
pub open spec fn digits_value(s: Seq<char>, pos: int, acc: nat) -> nat
    decreases s.len() - pos,
{
    if 0 <= pos < s.len() && is_digit(s[pos]) {
        digits_value(s, pos + 1, acc * 10 + (s[pos] as nat - 48) as nat)
    } else {
        acc
    }
}

pub open spec fn min_int(a: int, b: int) -> int {
    if a <= b {
        a
    } else {
        b
    }
}

pub open spec fn clamp_int(v: int, low: int, high: int) -> int {
    if v < low {
        low
    } else if v > high {
        high
    } else {
        v
    }
}

pub fn clamp_i64(v: i64, low: i64, high: i64) -> (r: i64)
    requires
        low <= high,
    ensures
        r == clamp_int(v as int, low as int, high as int),
        low <= r <= high,
{
    if v < low {
        low
    } else if v > high {
        high
    } else {
        v
    }
}

/// Where the unsigned number at `pos` ends: after white space and its digits.
pub open spec fn u32_end(s: Seq<char>, pos: int) -> int {
    run_end(s, ws_end(s, pos), CharClass::Digit)
}

/// The unsigned number at `pos`, after white space, held at `u32::MAX` when it
/// is larger; `None` when there is no digit.
pub open spec fn u32_at(s: Seq<char>, pos: int) -> Option<u32> {
    let start = ws_end(s, pos);
    if u32_end(s, pos) == start {
        None
    } else {
        Some(min_int(digits_value(s, start, 0) as int, u32::MAX as int) as u32)
    }
}

proof fn digits_value_grows(s: Seq<char>, pos: int, acc: nat)
    ensures
        digits_value(s, pos, acc) >= acc,
    decreases s.len() - pos,
{
    if 0 <= pos < s.len() && is_digit(s[pos]) {
        digits_value_grows(s, pos + 1, acc * 10 + (s[pos] as nat - 48) as nat);
    }
}

pub fn scan_u32(s: &[char], pos: usize) -> (r: (Option<u32>, usize))
    requires
        pos <= s@.len(),
    ensures
        r.0 == u32_at(s@, pos as int),
        r.1 == u32_end(s@, pos as int),
        pos <= r.1 <= s@.len(),
        r.0 is Some ==> pos < r.1,
{
    let start = skip_ws(s, pos);
    let mut p: usize = start;
    let mut value: u64 = 0;
    let mut over: bool = false;
    let ghost mut exact: nat = 0;
    while p < s.len() && char_is_digit(s[p])
        invariant
            start <= p <= s@.len(),
            run_end(s@, start as int, CharClass::Digit) == run_end(s@, p as int, CharClass::Digit),
            digits_value(s@, start as int, 0) == digits_value(s@, p as int, exact),
            !over ==> value == exact && value <= u32::MAX,
            over ==> exact > u32::MAX,
        decreases s@.len() - p,
    {
        let d: u64 = s[p] as u64 - 48;
        if !over {
            value = value * 10 + d;
            if value > u32::MAX as u64 {
                over = true;
            }
        }
        proof {
            exact = exact * 10 + (s@[p as int] as nat - 48) as nat;
        }
        p += 1;
    }
    proof {
        digits_value_grows(s@, p as int, exact);
    }
    if p == start {
        (None, p)
    } else if over {
        (Some(u32::MAX), p)
    } else {
        (Some(value as u32), p)
    }
}

/// The 32-bit two's complement reading of an unsigned value.
pub open spec fn as_signed(v: u32) -> int {
    if v <= 0x7fff_ffff {
        v as int
    } else {
        v - 0x1_0000_0000
    }
}

/// The 32-bit negative; the least value is its own negative.
pub open spec fn negated(v: int) -> int {
    if v == i32::MIN {
        v
    } else {
        -v
    }
}

/// The position of the digits of a signed number: after white space and a sign.
pub open spec fn sign_end(s: Seq<char>, pos: int) -> int {
    let start = ws_end(s, pos);
    if at(s, start, '-') || at(s, start, '+') {
        start + 1
    } else {
        start
    }
}

pub open spec fn i32_end(s: Seq<char>, pos: int) -> int {
    u32_end(s, sign_end(s, pos))
}

/// The signed number at `pos`: an optional sign and an unsigned number, read as
/// a 32-bit value.
pub open spec fn i32_at(s: Seq<char>, pos: int) -> Option<i32> {
    match u32_at(s, sign_end(s, pos)) {
        Some(v) => if at(s, ws_end(s, pos), '-') {
            Some(negated(as_signed(v)) as i32)
        } else {
            Some(as_signed(v) as i32)
        },
        None => None,
    }
}

/// A scanned number ends no earlier than it begins.
pub proof fn u32_end_bounds(s: Seq<char>, pos: int)
    requires
        0 <= pos <= s.len(),
    ensures
        pos <= u32_end(s, pos) <= s.len(),
{
    run_end_is_longest(s, pos, CharClass::Space);
    run_end_is_longest(s, ws_end(s, pos), CharClass::Digit);
}

pub proof fn i32_end_bounds(s: Seq<char>, pos: int)
    requires
        0 <= pos <= s.len(),
    ensures
        pos <= i32_end(s, pos) <= s.len(),
{
    run_end_is_longest(s, pos, CharClass::Space);
    u32_end_bounds(s, sign_end(s, pos));
}

pub fn scan_i32(s: &[char], pos: usize) -> (r: (Option<i32>, usize))
    requires
        pos <= s@.len(),
    ensures
        r.0 == i32_at(s@, pos as int),
        r.1 == i32_end(s@, pos as int),
        pos <= r.1 <= s@.len(),
        r.0 is Some ==> pos < r.1,
{
    let start = skip_ws(s, pos);
    let minus = char_at(s, start, '-');
    let signed = minus || char_at(s, start, '+');
    let first: usize = if signed {
        start + 1
    } else {
        start
    };
    let (value, end) = scan_u32(s, first);
    match value {
        Some(v) => {
            let w: i64 = if v <= 0x7fff_ffff {
                v as i64
            } else {
                v as i64 - 0x1_0000_0000
            };
            if minus && w != i32::MIN as i64 {
                (Some((-w) as i32), end)
            } else {
                (Some(w as i32), end)
            }
        },
        None => (None, end),
    }
}

/// The value of a text made of digits in a base; `None` when one is no digit.
pub open spec fn radix_value(s: Seq<char>, radix: int) -> Option<int>
    decreases s.len(),
{
    if s.len() == 0 {
        Some(0)
    } else {
        match (radix_value(s.drop_last(), radix), digit_value(s.last(), radix)) {
            (Some(v), Some(d)) => Some(v * radix + d),
            _ => None,
        }
    }
}

/// The digits of a number with an optional sign.
pub open spec fn unsigned_part(s: Seq<char>, minus: bool) -> Seq<char> {
    if begins(s, '+') || (minus && begins(s, '-')) {
        s.skip(1)
    } else {
        s
    }
}

/// A whole text read as a number in a base: an optional sign (`-` only where
/// `minus` allows it), at least one digit and nothing else, within the bounds.
pub open spec fn whole_number(s: Seq<char>, radix: int, minus: bool, low: int, high: int) -> Option<
    int,
> {
    let digits = unsigned_part(s, minus);
    if digits.len() == 0 {
        None
    } else {
        match radix_value(digits, radix) {
            Some(v) => {
                let n = if minus && begins(s, '-') {
                    -v
                } else {
                    v
                };
                if low <= n <= high {
                    Some(n)
                } else {
                    None
                }
            },
            None => None,
        }
    }
}

proof fn radix_value_prefix(s: Seq<char>, n: int, radix: int)
    requires
        0 <= n <= s.len(),
        radix >= 1,
    ensures
        radix_value(s, radix) matches Some(v) ==> radix_value(s.take(n), radix) matches Some(w)
            && 0 <= w <= v,
    decreases s.len(),
{
    if s.len() == 0 {
        assert(s.take(n) =~= s);
    } else {
        if n == s.len() {
            assert(s.take(n) =~= s);
            radix_value_prefix(s.drop_last(), (s.len() - 1) as int, radix);
            assert(s.drop_last().take((s.len() - 1) as int) =~= s.drop_last());
            if radix_value(s, radix) is Some {
                let w = radix_value(s.drop_last(), radix)->0;
                assert(w * radix >= 0) by (nonlinear_arith)
                    requires
                        w >= 0,
                        radix >= 1,
                ;
            }
        } else {
            radix_value_prefix(s.drop_last(), n, radix);
            assert(s.drop_last().take(n) =~= s.take(n));
            if radix_value(s, radix) is Some {
                let w = radix_value(s.drop_last(), radix)->0;
                assert(w * radix >= w) by (nonlinear_arith)
                    requires
                        w >= 0,
                        radix >= 1,
                ;
            }
        }
    }
}

pub open spec fn opt_int(v: Option<i64>) -> Option<int> {
    match v {
        Some(n) => Some(n as int),
        None => None,
    }
}

pub fn read_whole(s: &[char], radix: u32, minus: bool, low: i64, high: i64) -> (r: Option<i64>)
    requires
        1 <= radix <= 16,
        -0x1_0000_0000 <= low <= high <= 0x1_0000_0000,
    ensures
        opt_int(r) == whole_number(s@, radix as int, minus, low as int, high as int),
        r matches Some(n) ==> low <= n <= high,
{
    let negative = minus && begins_with_char(s, '-');
    let digits = if begins_with_char(s, '+') || negative {
        after(s, 1)
    } else {
        s
    };
    assert(digits@ =~= unsigned_part(s@, minus));
    if digits.len() == 0 {
        return None;
    }
    let mut i: usize = 0;
    let mut value: i64 = 0;
    while i < digits.len()
        invariant
            i <= digits@.len(),
            1 <= radix <= 16,
            0 <= value <= 0x1_0000_0000,
            radix_value(digits@.take(i as int), radix as int) == Some(value as int),
            digits@ == unsigned_part(s@, minus),
            digits@.len() > 0,
            negative == (minus && begins(s@, '-')),
            -0x1_0000_0000 <= low <= high <= 0x1_0000_0000,
        decreases digits@.len() - i,
    {
        proof {
            radix_value_prefix(digits@, i + 1, radix as int);
            assert(digits@.take(i + 1).drop_last() =~= digits@.take(i as int));
        }
        match char_digit_value(digits[i], radix) {
            Some(d) => {
                assert(0 <= value * radix <= 0x10_0000_0000) by (nonlinear_arith)
                    requires
                        0 <= value <= 0x1_0000_0000,
                        1 <= radix <= 16,
                ;
                value = value * (radix as i64) + d as i64;
                if value > 0x1_0000_0000 {
                    return None;
                }
            },
            None => {
                return None;
            },
        }
        i += 1;
    }
    assert(digits@.take(digits@.len() as int) =~= digits@);
    let n: i64 = if negative {
        -value
    } else {
        value
    };
    if low <= n && n <= high {
        Some(n)
    } else {
        None
    }
}

// ---------------------------------------------------------------------------
// Lines of joined texts
// ---------------------------------------------------------------------------
/// A text that ends with a line, or is empty.
pub open spec fn ends_a_line(s: Seq<char>) -> bool {
    s.len() == 0 || s.last() == '\n'
}

proof fn line_end_in_front(a: Seq<char>, b: Seq<char>, pos: int)
    requires
        0 <= pos < a.len(),
        ends_a_line(a),
    ensures
        run_end(a + b, pos, CharClass::LineRest) == run_end(a, pos, CharClass::LineRest),
        pos <= run_end(a, pos, CharClass::LineRest) < a.len(),
    decreases a.len() - pos,
{
    assert((a + b)[pos] == a[pos]);
    if in_class(CharClass::LineRest, a[pos]) {
        assert(pos < a.len() - 1);
        line_end_in_front(a, b, pos + 1);
    }
}

proof fn run_end_behind(a: Seq<char>, b: Seq<char>, pos: int, k: CharClass)
    requires
        0 <= pos <= b.len(),
    ensures
        run_end(a + b, a.len() + pos, k) == a.len() + run_end(b, pos, k),
    decreases b.len() - pos,
{
    if pos < b.len() {
        assert((a + b)[a.len() + pos] == b[pos]);
        run_end_behind(a, b, pos + 1, k);
    }
}

proof fn lines_behind(a: Seq<char>, b: Seq<char>, pos: int)
    requires
        0 <= pos <= b.len(),
    ensures
        lines_from(a + b, a.len() + pos) == lines_from(b, pos),
    decreases b.len() - pos,
{
    if pos < b.len() {
        run_end_behind(a, b, pos, CharClass::LineRest);
        run_end_is_longest(b, pos, CharClass::LineRest);
        let end = run_end(b, pos, CharClass::LineRest);
        if end < b.len() {
            assert((a + b).subrange(a.len() + pos, a.len() + end) =~= b.subrange(pos, end));
            lines_behind(a, b, end + 1);
        } else {
            assert((a + b).skip(a.len() + pos) =~= b.skip(pos));
        }
    }
}

proof fn lines_in_front(a: Seq<char>, b: Seq<char>, pos: int)
    requires
        0 <= pos <= a.len(),
        ends_a_line(a),
    ensures
        lines_from(a + b, pos) == lines_from(a, pos) + lines_from(b, 0),
    decreases a.len() - pos,
{
    if pos < a.len() {
        line_end_in_front(a, b, pos);
        let end = run_end(a, pos, CharClass::LineRest);
        assert((a + b).subrange(pos, end) =~= a.subrange(pos, end));
        lines_in_front(a, b, end + 1);
        let first = seq![without_cr(a.subrange(pos, end))];
        assert(first + (lines_from(a, end + 1) + lines_from(b, 0)) =~= first + lines_from(
            a,
            end + 1,
        ) + lines_from(b, 0));
    } else {
        lines_behind(a, b, 0);
        assert(lines_from(a, pos) + lines_from(b, 0) =~= lines_from(b, 0));
    }
}

/// Behind the end of a line, the lines of a text are those of its parts.
pub proof fn joined_lines(a: Seq<char>, b: Seq<char>)
    requires
        ends_a_line(a),
    ensures
        text_lines(a + b) == text_lines(a) + text_lines(b),
{
    lines_in_front(a, b, 0);
}

proof fn one_line_ends(line: Seq<char>, pos: int)
    requires
        0 <= pos <= line.len(),
        !line.contains('\n'),
    ensures
        run_end(line.push('\n'), pos, CharClass::LineRest) == line.len(),
    decreases line.len() - pos,
{
    if pos < line.len() {
        assert(line.push('\n')[pos] == line[pos]);
        one_line_ends(line, pos + 1);
    }
}

/// A line and its line feed are one line.
pub proof fn one_line(line: Seq<char>)
    requires
        !line.contains('\n'),
    ensures
        text_lines(line.push('\n')) == seq![without_cr(line)],
{
    let s = line.push('\n');
    one_line_ends(line, 0);
    assert(s.subrange(0, line.len() as int) =~= line);
    assert(lines_from(s, s.len() as int) =~= Seq::<Seq<char>>::empty());
    assert(seq![without_cr(line)] + Seq::<Seq<char>>::empty() =~= seq![without_cr(line)]);
}

/// A trimmed text is the text without the white space round it: what is left
/// begins and ends with something else.
pub proof fn trimmed_texts_are_bare(s: Seq<char>)
    ensures
        trim(s).len() > 0 ==> !is_space(trim(s)[0]) && !is_space(trim(s).last()),
        exists|a: int, b: int|
            0 <= a <= b <= s.len() && trim(s) == #[trigger] s.subrange(a, b) && (forall|i: int|
                0 <= i < a || b <= i < s.len() ==> is_space(#[trigger] s[i])),
{
    run_end_is_longest(s, 0, CharClass::Space);
    let a = ws_end(s, 0);
    let t = trim_start(s);
    let n = trimmed_end_is_bare(t);
    assert(t.take(n) =~= s.subrange(a, a + n));
    assert forall|i: int| 0 <= i < a || a + n <= i < s.len() implies is_space(
        #[trigger] s[i],
    ) by {
        if i >= a + n {
            assert(t[i - a] == s[i]);
        }
    }
    if n > 0 {
        assert(t[0] == s[a]);
    }
}

proof fn trimmed_end_is_bare(t: Seq<char>) -> (n: int)
    ensures
        0 <= n <= t.len(),
        trim_end(t) == t.take(n),
        n > 0 ==> !is_space(t[n - 1]),
        forall|i: int| n <= i < t.len() ==> is_space(#[trigger] t[i]),
    decreases t.len(),
{
    if t.len() > 0 && is_space(t.last()) {
        let n = trimmed_end_is_bare(t.drop_last());
        assert(t.drop_last().take(n) =~= t.take(n));
        assert forall|i: int| n <= i < t.len() implies is_space(#[trigger] t[i]) by {
            if i < t.len() - 1 {
                assert(t.drop_last()[i] == t[i]);
            }
        }
        n
    } else {
        assert(t.take(t.len() as int) =~= t);
        t.len() as int
    }
}

} // verus!
