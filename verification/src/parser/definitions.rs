//! Top-level statements: directives, and the definitions of envelopes, texts,
//! tones and macros.

use std::collections::BTreeMap;

use vstd::prelude::*;
use vstd::slice::slice_subrange;

use crate::diagnostics::{Diagnostics, DiagnosticsView};
use crate::fraction;
use crate::ir::{
    ECommand, EnvelopeE, EnvelopeEView, EnvelopeR, EnvelopeTableView, IrEvent, IrEventView,
    Rational, SongIr, SongIrView, SourceFamily, TempoEvent, TempoEventView, TrackKind,
};
use crate::parser::statements;
use crate::parser::statements::parse_play_track_selectors;
use crate::text;
use crate::text::{
    CharClass, after, begins_with_char, char_at, char_digit_value, char_is_alphabetic, char_lower,
    char_text, chars_are, clamp_i64, copy_text, find_char, join2, join3, join4, lower_chars,
    number_text, push_chars, rfind_char, same_text, scan_i32, scan_u32, signed_text, skip_class,
    skip_ws, split_words, string_of, trimmed, trimmed_start,
};
use crate::views;
use crate::views::push_viewed;

verus! {

// ---------------------------------------------------------------------------
// Macro offsets
// ---------------------------------------------------------------------------
/// What is added to macro numbers: one offset for plain numbers, and one for
/// each letter that was given one (by its code point).
#[derive(Debug)]
pub struct MacroOffsets {
    pub numeric: i32,
    pub named: BTreeMap<u32, i32>,
}

#[verifier::ext_equal]
pub struct MacroOffsetsView {
    pub numeric: i32,
    pub named: Map<u32, i32>,
}

impl DeepView for MacroOffsets {
    type V = MacroOffsetsView;

    open spec fn deep_view(&self) -> MacroOffsetsView {
        MacroOffsetsView { numeric: self.numeric, named: self.named@ }
    }
}

impl Clone for MacroOffsets {
    fn clone(&self) -> (r: Self)
        ensures
            r.deep_view() == self.deep_view(),
    {
        MacroOffsets { numeric: self.numeric, named: self.named.clone() }
    }
}

impl Default for MacroOffsets {
    fn default() -> (r: Self)
        ensures
            r.deep_view() == (MacroOffsetsView { numeric: 0, named: Map::empty() }),
    {
        MacroOffsets { numeric: 0, named: BTreeMap::new() }
    }
}

/// The macro number after its offset, if there is such a macro.
pub open spec fn offset_macro(id: u32, offset: i32) -> Option<u32> {
    if 0 <= id + offset <= 255 {
        Some((id + offset) as u32)
    } else {
        None
    }
}

pub fn apply_macro_offset(id: u32, macro_offset: i32) -> (r: Option<u32>)
    ensures
        r == offset_macro(id, macro_offset),
{
    let effective: i64 = id as i64 + macro_offset as i64;
    if 0 <= effective && effective <= 255 {
        Some(effective as u32)
    } else {
        None
    }
}

// ---------------------------------------------------------------------------
// What the top level holds
// ---------------------------------------------------------------------------
/// A piece of MML of a track.
#[derive(Debug)]
pub struct Chunk {
    pub track: String,
    pub line: usize,
    pub body: Vec<char>,
    pub offsets: MacroOffsets,
    pub kind: TrackKind,
    pub family: SourceFamily,
}

#[verifier::ext_equal]
pub struct ChunkView {
    pub track: Seq<char>,
    pub line: usize,
    pub body: Seq<char>,
    pub offsets: MacroOffsetsView,
    pub kind: TrackKind,
    pub family: SourceFamily,
}

impl DeepView for Chunk {
    type V = ChunkView;

    open spec fn deep_view(&self) -> ChunkView {
        ChunkView {
            track: self.track@,
            line: self.line,
            body: self.body@,
            offsets: self.offsets.deep_view(),
            kind: self.kind,
            family: self.family,
        }
    }
}

/// A manual request for a track, made at the top level.
#[derive(Debug)]
pub struct TrackRequest {
    pub track: String,
    pub event: IrEvent,
}

#[verifier::ext_equal]
pub struct TrackRequestView {
    pub track: Seq<char>,
    pub event: IrEventView,
}

impl DeepView for TrackRequest {
    type V = TrackRequestView;

    open spec fn deep_view(&self) -> TrackRequestView {
        TrackRequestView { track: self.track@, event: self.event.deep_view() }
    }
}

/// Everything that the statements read so far have set.
#[derive(Debug)]
pub struct Top {
    pub song: SongIr,
    pub macros: BTreeMap<u32, String>,
    pub chunks: Vec<Chunk>,
    pub requests: Vec<TrackRequest>,
    pub offsets: MacroOffsets,
    pub opll_mode: i32,
    pub filter: Option<Vec<char>>,
    pub loop_count: Option<u32>,
}

#[verifier::ext_equal]
pub struct TopView {
    pub song: SongIrView,
    pub macros: Map<u32, Seq<char>>,
    pub chunks: Seq<ChunkView>,
    pub requests: Seq<TrackRequestView>,
    pub offsets: MacroOffsetsView,
    pub opll_mode: i32,
    pub filter: Option<Seq<char>>,
    pub loop_count: Option<u32>,
}

impl DeepView for Top {
    type V = TopView;

    open spec fn deep_view(&self) -> TopView {
        TopView {
            song: self.song.deep_view(),
            macros: views::map_views(self.macros@),
            chunks: views::all_views(self.chunks@),
            requests: views::all_views(self.requests@),
            offsets: self.offsets.deep_view(),
            opll_mode: self.opll_mode,
            filter: opt_chars(self.filter),
            loop_count: self.loop_count,
        }
    }
}

pub open spec fn opt_chars(v: Option<Vec<char>>) -> Option<Seq<char>> {
    match v {
        Some(c) => Some(c@),
        None => None,
    }
}

impl TopView {
    pub open spec fn start(ppq: u16, loop_count: Option<u32>) -> Self {
        TopView {
            song: SongIrView::empty(ppq),
            macros: Map::empty(),
            chunks: Seq::empty(),
            requests: Seq::empty(),
            offsets: MacroOffsetsView { numeric: 0, named: Map::empty() },
            opll_mode: 0,
            filter: None,
            loop_count,
        }
    }

    pub open spec fn with_song(self, song: SongIrView) -> Self {
        TopView { song, ..self }
    }

    pub open spec fn with_diagnostics(self, d: DiagnosticsView) -> Self {
        self.with_song(self.song.with_diagnostics(d))
    }

    /// With a warning about a line.
    pub open spec fn warned(self, line: usize, message: Seq<char>) -> Self {
        self.with_diagnostics(self.song.diagnostics.with_warning(Some(line), None, message))
    }

    /// With a note on something not rendered.
    pub open spec fn reported(self, line: usize, command: Seq<char>, policy: Seq<char>) -> Self {
        self.with_diagnostics(
            self.song.diagnostics.with_unsupported(Some(line), None, command, policy),
        )
    }
}

impl Top {
    pub fn start(ppq: u16, loop_count: Option<u32>) -> (r: Self)
        ensures
            r.deep_view() == TopView::start(ppq, loop_count),
    {
        let r = Top {
            song: SongIr::new(ppq),
            macros: BTreeMap::new(),
            chunks: Vec::new(),
            requests: Vec::new(),
            offsets: MacroOffsets::default(),
            opll_mode: 0,
            filter: None,
            loop_count,
        };
        assert(views::map_views(r.macros@) =~= Map::empty());
        assert(r.deep_view() =~= TopView::start(ppq, loop_count));
        r
    }

    pub fn warn(&mut self, line: usize, message: &str)
        ensures
            final(self).deep_view() == old(self).deep_view().warned(line, message@),
    {
        self.song.diagnostics.add_parse_warning(Some(line), None, message);
    }

    pub fn report(&mut self, line: usize, command: &str, policy: &str)
        ensures
            final(self).deep_view() == old(self).deep_view().reported(line, command@, policy@),
    {
        self.song.diagnostics.add_unsupported(Some(line), None, command, policy);
    }
}

// ---------------------------------------------------------------------------
// Directives
// ---------------------------------------------------------------------------
/// The text inside the outermost braces.
pub open spec fn braced(s: Seq<char>) -> Option<Seq<char>> {
    match (text::find_from(s, 0, '{'), text::find_last(s, s.len() as int, '}')) {
        (Some(a), Some(b)) => if b <= a {
            None
        } else {
            Some(s.subrange(a + 1, b))
        },
        _ => None,
    }
}

pub fn extract_braced(s: &[char]) -> (r: Option<&[char]>)
    ensures
        statements::opt_text(r) == braced(s@),
{
    match find_char(s, 0, '{') {
        Some(a) => match rfind_char(s, '}') {
            Some(b) => if b <= a {
                None
            } else {
                Some(slice_subrange(s, a + 1, b))
            },
            None => None,
        },
        None => None,
    }
}

/// A text without the quotes around it, if it has them on both sides.
pub open spec fn unquoted(s: Seq<char>) -> Seq<char> {
    let t = text::trim(s);
    if t.len() >= 2 && t[0] == '"' && t.last() == '"' {
        t.subrange(1, t.len() - 1)
    } else {
        t
    }
}

pub fn unquote(s: &[char]) -> (r: &[char])
    ensures
        r@ == unquoted(s@),
{
    let t = trimmed(s);
    if t.len() >= 2 && t[0] == '"' && t[t.len() - 1] == '"' {
        slice_subrange(t, 1, t.len() - 1)
    } else {
        t
    }
}

/// The first unsigned number in a text.
pub open spec fn first_unsigned(s: Seq<char>) -> Option<u32> {
    text::u32_at(s, text::run_end(s, 0, CharClass::NonDigit))
}

/// The first signed number in a text.
pub open spec fn first_signed(s: Seq<char>) -> Option<i32> {
    text::i32_at(s, text::run_end(s, 0, CharClass::NonNumber))
}

pub fn first_u32(s: &[char]) -> (r: Option<u32>)
    ensures
        r == first_unsigned(s@),
{
    let p = skip_class(s, 0, CharClass::NonDigit);
    scan_u32(s, p).0
}

pub fn first_i32(s: &[char]) -> (r: Option<i32>)
    ensures
        r == first_signed(s@),
{
    let p = skip_class(s, 0, CharClass::NonNumber);
    scan_i32(s, p).0
}

/// The entries of a macro offset map from `pos` on: a letter, `=` and a number
/// each.
pub open spec fn offset_entries(s: Seq<char>, pos: int, t: TopView, line: usize, found: bool) -> (
    TopView,
    bool,
)
    decreases s.len() - pos,
    when 0 <= pos <= s.len()
{
    proof {
        text::run_end_is_longest(s, pos, CharClass::SpaceComma);
    }
    let start = text::run_end(s, pos, CharClass::SpaceComma);
    if start >= s.len() {
        (t, found)
    } else {
        let key = text::lower(s[start]);
        proof {
            text::run_end_is_longest(s, start + 1, CharClass::Space);
        }
        let eq = text::ws_end(s, start + 1);
        if !text::is_alphabetic(key) {
            offset_entries(
                s,
                start + 1,
                t.warned(line, "ignored #macro_offset map character: "@ + seq![s[start]]),
                line,
                found,
            )
        } else if !text::at(s, eq, '=') {
            proof {
                text::run_end_is_longest(s, eq, CharClass::EntryValue);
            }
            offset_entries(
                s,
                text::run_end(s, eq, CharClass::EntryValue),
                t.warned(line, "#macro_offset map entry '"@ + seq![key] + "' without '='"@),
                line,
                found,
            )
        } else {
            proof {
                text::i32_end_bounds(s, eq + 1);
            }
            match text::i32_at(s, eq + 1) {
                Some(v) => offset_entries(
                    s,
                    text::i32_end(s, eq + 1),
                    TopView {
                        offsets: MacroOffsetsView {
                            named: t.offsets.named.insert(key as u32, v),
                            ..t.offsets
                        },
                        ..t
                    },
                    line,
                    true,
                ),
                None => offset_entries(
                    s,
                    text::i32_end(s, eq + 1),
                    t.warned(line, "#macro_offset map entry '"@ + seq![key] + "' without value"@),
                    line,
                    found,
                ),
            }
        }
    }
}

/// A macro offset map.
pub open spec fn offset_map(s: Seq<char>, t: TopView, line: usize) -> TopView {
    match braced(s) {
        Some(content) => {
            let (u, found) = offset_entries(content, 0, t, line, false);
            if found {
                u
            } else {
                u.warned(line, "#macro_offset map without entries"@)
            }
        },
        None => t.warned(line, "#macro_offset map without braced content"@),
    }
}

pub fn parse_macro_offset_map(s: &[char], t: &mut Top, line: usize)
    ensures
        final(t).deep_view() == offset_map(s@, old(t).deep_view(), line),
{
    let content = match extract_braced(s) {
        Some(c) => c,
        None => {
            t.warn(line, "#macro_offset map without braced content");
            return ;
        },
    };
    let mut pos: usize = 0;
    let mut found: bool = false;
    let ghost goal = offset_entries(content@, 0, t.deep_view(), line, false);
    while pos < content.len()
        invariant
            pos <= content@.len(),
            goal == offset_entries(content@, pos as int, t.deep_view(), line, found),
        decreases content@.len() - pos,
    {
        let start = skip_class(content, pos, CharClass::SpaceComma);
        if start >= content.len() {
            pos = start;
        } else {
            let c = content[start];
            let key = char_lower(c);
            let eq = skip_ws(content, start + 1);
            if !char_is_alphabetic(key) {
                let shown = char_text(c);
                let m = join2("ignored #macro_offset map character: ", shown.as_str());
                t.warn(line, m.as_str());
                pos = start + 1;
            } else if !char_at(content, eq, '=') {
                let shown = char_text(key);
                let m = join3("#macro_offset map entry '", shown.as_str(), "' without '='");
                t.warn(line, m.as_str());
                pos = skip_class(content, eq, CharClass::EntryValue);
            } else {
                let (value, end) = scan_i32(content, eq + 1);
                match value {
                    Some(v) => {
                        t.offsets.named.insert(key as u32, v);
                        found = true;
                    },
                    None => {
                        let shown = char_text(key);
                        let m = join3("#macro_offset map entry '", shown.as_str(), "' without value");
                        t.warn(line, m.as_str());
                    },
                }
                pos = end;
            }
        }
    }
    if !found {
        t.warn(line, "#macro_offset map without entries");
    }
}

/// What a directive, the trimmed statement that begins with `#`, sets.
pub open spec fn directive(s: Seq<char>, t: TopView, line: usize) -> TopView {
    let end = text::run_end(s, 0, CharClass::Word);
    let name = text::lower_all(s.take(end));
    let rest = if end < s.len() {
        text::trim(s.skip(end + 1))
    } else {
        Seq::empty()
    };
    if name == "#tempo"@ {
        match first_unsigned(rest) {
            Some(bpm) => t.with_song(
                t.song.with_tempo(
                    TempoEventView { at: fraction::whole(0), bpm, source: "#tempo"@, line: Some(line) },
                ),
            ),
            None => t.warned(line, "#tempo without BPM"@),
        }
    } else if name == "#title"@ {
        t.with_song(SongIrView { title: Some(unquoted(rest)), ..t.song })
    } else if name == "#macro_offset"@ {
        if text::begins(text::trim_start(rest), '{') {
            offset_map(rest, t, line)
        } else {
            match first_signed(rest) {
                Some(v) => TopView {
                    offsets: MacroOffsetsView { numeric: v, ..t.offsets },
                    ..t
                },
                None => t.warned(line, "#macro_offset without value"@),
            }
        }
    } else if name == "#opll_mode"@ {
        match first_signed(rest) {
            Some(v) => TopView { opll_mode: v, ..t },
            None => t.warned(line, "#opll_mode without value"@),
        }
    } else if name == "#play_track"@ {
        let tracks = statements::selectors_in(rest, rest.len() as int);
        if tracks.len() == 0 {
            t.warned(line, "#play_track without track selectors"@)
        } else {
            TopView { filter: Some(tracks), ..t }
        }
    } else if name == "#end"@ {
        t
    } else {
        t.reported(line, name, "ignored directive"@)
    }
}

pub fn parse_directive(s: &[char], t: &mut Top, line: usize)
    ensures
        final(t).deep_view() == directive(s@, old(t).deep_view(), line),
{
    let end = skip_class(s, 0, CharClass::Word);
    let head = slice_subrange(s, 0, end);
    assert(head@ =~= s@.take(end as int));
    let name = lower_chars(head);
    let empty: Vec<char> = Vec::new();
    assert(empty@ =~= Seq::empty());
    let rest: &[char] = if end < s.len() {
        trimmed(after(s, end + 1))
    } else {
        &empty
    };
    if chars_are(&name, "#tempo") {
        match first_u32(rest) {
            Some(bpm) => {
                push_viewed(
                    &mut t.song.tempo_events,
                    TempoEvent {
                        at_steps: Rational::zero(),
                        bpm,
                        source: copy_text("#tempo"),
                        line: Some(line),
                    },
                );
            },
            None => {
                t.warn(line, "#tempo without BPM");
            },
        }
    } else if chars_are(&name, "#title") {
        t.song.title = Some(string_of(unquote(rest)));
    } else if chars_are(&name, "#macro_offset") {
        if begins_with_char(trimmed_start(rest), '{') {
            parse_macro_offset_map(rest, t, line);
        } else {
            match first_i32(rest) {
                Some(v) => {
                    t.offsets.numeric = v;
                },
                None => {
                    t.warn(line, "#macro_offset without value");
                },
            }
        }
    } else if chars_are(&name, "#opll_mode") {
        match first_i32(rest) {
            Some(v) => {
                t.opll_mode = v;
            },
            None => {
                t.warn(line, "#opll_mode without value");
            },
        }
    } else if chars_are(&name, "#play_track") {
        let tracks = parse_play_track_selectors(rest);
        if tracks.len() == 0 {
            t.warn(line, "#play_track without track selectors");
        } else {
            t.filter = Some(tracks);
        }
    } else if chars_are(&name, "#end") {
    } else {
        let shown = string_of(&name);
        t.report(line, shown.as_str(), "ignored directive");
    }
}

// ---------------------------------------------------------------------------
// Envelope, text and tone definitions
// ---------------------------------------------------------------------------
/// A numbered definition such as `@e3 = { ... }`: its number, of which eight
/// bits count, and the text up to the last closing brace.
pub open spec fn numbered_definition(s: Seq<char>) -> Option<(u8, Seq<char>)> {
    match text::u32_at(s, 2) {
        Some(id) => {
            let a = text::ws_end(s, text::u32_end(s, 2));
            let b = if text::at(s, a, '=') {
                a + 1
            } else {
                a
            };
            let open = text::ws_end(s, b);
            if text::at(s, open, '{') {
                let end = match text::find_last(s, s.len() as int, '}') {
                    Some(e) => if e > open {
                        e
                    } else {
                        s.len() as int
                    },
                    None => s.len() as int,
                };
                Some(((id % 256) as u8, s.subrange(open + 1, end)))
            } else {
                None
            }
        },
        None => None,
    }
}

pub fn parse_at_definition(s: &[char]) -> (r: Option<(u8, &[char])>)
    requires
        s@.len() >= 2,
    ensures
        match r {
            Some((id, content)) => numbered_definition(s@) == Some((id, content@)),
            None => numbered_definition(s@) is None,
        },
{
    let (id, after_id) = scan_u32(s, 2);
    let id: u32 = match id {
        Some(v) => v,
        None => {
            return None;
        },
    };
    let a = skip_ws(s, after_id);
    let b: usize = if char_at(s, a, '=') {
        a + 1
    } else {
        a
    };
    let open = skip_ws(s, b);
    if !char_at(s, open, '{') {
        return None;
    }
    let end: usize = match rfind_char(s, '}') {
        Some(e) => if e > open {
            e
        } else {
            s.len()
        },
        None => s.len(),
    };
    Some(((id % 256) as u8, slice_subrange(s, open + 1, end)))
}

/// The next number of a list whose items are parted by white space, commas and
/// full stops; zero where there is none.
pub open spec fn list_value(s: Seq<char>, pos: int) -> i32 {
    match text::i32_at(s, text::run_end(s, pos, CharClass::SpaceSeparator)) {
        Some(v) => v,
        None => 0,
    }
}

/// The position after that number.
pub open spec fn list_next(s: Seq<char>, pos: int) -> int {
    text::i32_end(s, text::run_end(s, pos, CharClass::SpaceSeparator))
}

pub fn next_i32(s: &[char], pos: usize) -> (r: (i32, usize))
    requires
        pos <= s@.len(),
    ensures
        r.0 == list_value(s@, pos as int),
        r.1 == list_next(s@, pos as int),
        r.1 <= s@.len(),
{
    let p = skip_class(s, pos, CharClass::SpaceSeparator);
    let (v, end) = scan_i32(s, p);
    match v {
        Some(n) => (n, end),
        None => (0, end),
    }
}

/// What a definition has given so far.
#[verifier::ext_equal]
pub struct ReadCommands {
    pub commands: Seq<ECommand>,
    pub diagnostics: DiagnosticsView,
}

impl ReadCommands {
    pub open spec fn with(self, c: ECommand) -> Self {
        ReadCommands { commands: self.commands.push(c), ..self }
    }

    pub open spec fn warned(self, line: usize, message: Seq<char>) -> Self {
        ReadCommands {
            diagnostics: self.diagnostics.with_warning(Some(line), None, message),
            ..self
        }
    }

    /// With a command that is kept and not rendered.
    pub open spec fn kept(self, c: ECommand, line: usize, shown: Seq<char>) -> Self {
        ReadCommands {
            commands: self.commands.push(c),
            diagnostics: self.diagnostics.with_unsupported(
                Some(line),
                None,
                shown,
                "preserved but not rendered"@,
            ),
        }
    }
}

/// A count of at least one; one where none is written.
pub open spec fn count_at(s: Seq<char>, pos: int) -> u32 {
    match text::u32_at(s, pos) {
        Some(v) => if v < 1 {
            1
        } else {
            v
        },
        None => 1,
    }
}

/// Reads the envelope command that begins at `pos`: the position after it, and
/// what has been read then.
pub open spec fn e_command(s: Seq<char>, pos: int, r: ReadCommands, line: usize) -> (
    int,
    ReadCommands,
) {
    let c = s[pos];
    let p = pos + 1;
    if c == '[' {
        (p, r.with(ECommand::LoopStart))
    } else if c == ']' {
        (p, r.with(ECommand::LoopEnd))
    } else if text::digit_value(c, 16) is Some {
        let level = text::digit_value(c, 16)->0 as u8;
        if text::at(s, p, ':') {
            (text::u32_end(s, p + 1), r.with(ECommand::Hold { level, count: count_at(s, p + 1) }))
        } else if text::at(s, p, '=') {
            (text::u32_end(s, p + 1), r.with(ECommand::Ramp { target: level, count: count_at(s, p + 1) }))
        } else {
            (p, r.with(ECommand::Level(level)))
        }
    } else if c == '@' {
        (
            text::u32_end(s, p),
            match text::u32_at(s, p) {
                Some(v) => r.with(ECommand::ToneChange(text::min_int(v as int, 255) as u8)),
                None => r.warned(line, "@e tone change command without tone number"@),
            },
        )
    } else if c == 'n' {
        (
            text::u32_end(s, p),
            match text::u32_at(s, p) {
                Some(v) => r.kept(ECommand::Noise(v), line, "@e:n"@ + text::decimal(v as nat)),
                None => r.warned(line, "@e noise command without value"@),
            },
        )
    } else if c == '/' || c == '*' {
        (
            text::i32_end(s, p),
            match text::i32_at(s, p) {
                Some(v) => r.kept(
                    ECommand::ModeChange { command: c, value: v },
                    line,
                    "@e:"@ + seq![c] + text::signed_decimal(v as int),
                ),
                None => r.warned(line, "@e mode command "@ + seq![c] + " without value"@),
            },
        )
    } else if c == 'y' {
        let q = data_start(s, p);
        (
            text::i32_end(s, q),
            match (text::i32_at(s, p), text::i32_at(s, q)) {
                (Some(register), Some(data)) => r.kept(
                    ECommand::RegisterWrite { register, data },
                    line,
                    "@e:y"@ + text::signed_decimal(register as int) + ","@ + text::signed_decimal(data as int),
                ),
                _ => r.warned(line, "@e register write command without register/data"@),
            },
        )
    } else if c == '\\' {
        (
            text::i32_end(s, p),
            match text::i32_at(s, p) {
                Some(v) => r.kept(
                    ECommand::FrequencyOffset(v),
                    line,
                    "@e:\\"@ + text::signed_decimal(v as int),
                ),
                None => r.warned(line, "@e frequency offset command without value"@),
            },
        )
    } else {
        (p, r.warned(line, "ignored character in @e definition: "@ + seq![c]))
    }
}

/// Where the data of a register write begins: after the register number and a
/// comma.
pub open spec fn data_start(s: Seq<char>, pos: int) -> int {
    let q = text::ws_end(s, text::i32_end(s, pos));
    if text::at(s, q, ',') {
        q + 1
    } else {
        q
    }
}

/// The register number, the data, and the position after both.
pub fn scan_register(s: &[char], pos: usize) -> (r: (Option<i32>, Option<i32>, usize))
    requires
        pos <= s@.len(),
    ensures
        r.0 == text::i32_at(s@, pos as int),
        r.1 == text::i32_at(s@, data_start(s@, pos as int)),
        r.2 == text::i32_end(s@, data_start(s@, pos as int)),
        pos <= r.2 <= s@.len(),
{
    let (register, end) = scan_i32(s, pos);
    let q = skip_ws(s, end);
    let start: usize = if char_at(s, q, ',') {
        q + 1
    } else {
        q
    };
    let (data, last) = scan_i32(s, start);
    (register, data, last)
}

pub proof fn e_command_advances(s: Seq<char>, pos: int, r: ReadCommands, line: usize)
    requires
        0 <= pos < s.len(),
    ensures
        pos < e_command(s, pos, r, line).0 <= s.len(),
{
    text::u32_end_bounds(s, pos + 1);
    text::i32_end_bounds(s, pos + 1);
    if pos + 1 < s.len() {
        text::u32_end_bounds(s, pos + 2);
    }
    text::run_end_is_longest(s, text::i32_end(s, pos + 1), CharClass::Space);
    text::i32_end_bounds(s, data_start(s, pos + 1));
}

/// The commands of an envelope definition from `pos` on.
pub open spec fn e_commands(s: Seq<char>, pos: int, r: ReadCommands, line: usize) -> ReadCommands
    decreases s.len() - pos,
    when 0 <= pos <= s.len()
{
    proof {
        text::run_end_is_longest(s, pos, CharClass::SpaceSeparator);
    }
    let start = text::run_end(s, pos, CharClass::SpaceSeparator);
    if start >= s.len() {
        r
    } else {
        proof {
            e_command_advances(s, start, r, line);
        }
        let (next, q) = e_command(s, start, r, line);
        e_commands(s, next, q, line)
    }
}

fn scan_count(s: &[char], pos: usize) -> (r: (u32, usize))
    requires
        pos <= s@.len(),
    ensures
        r.0 == count_at(s@, pos as int),
        r.1 == text::u32_end(s@, pos as int),
        pos <= r.1 <= s@.len(),
{
    let (v, end) = scan_u32(s, pos);
    match v {
        Some(n) => if n < 1 {
            (1, end)
        } else {
            (n, end)
        },
        None => (1, end),
    }
}

pub open spec fn read_view(commands: Seq<ECommand>, d: Diagnostics) -> ReadCommands {
    ReadCommands { commands, diagnostics: d.deep_view() }
}

fn keep_command(
    commands: &mut Vec<ECommand>,
    d: &mut Diagnostics,
    c: ECommand,
    line: usize,
    shown: &str,
)
    ensures
        read_view(final(commands)@, *final(d)) == read_view(old(commands)@, *old(d)).kept(
            c,
            line,
            shown@,
        ),
{
    commands.push(c);
    d.add_unsupported(Some(line), None, shown, "preserved but not rendered");
}

fn read_e_command(
    s: &[char],
    pos: usize,
    commands: &mut Vec<ECommand>,
    d: &mut Diagnostics,
    line: usize,
) -> (next: usize)
    requires
        pos < s@.len(),
    ensures
        e_command(s@, pos as int, read_view(old(commands)@, *old(d)), line) == (
            next as int,
            read_view(final(commands)@, *final(d)),
        ),
        pos < next <= s@.len(),
{
    proof {
        e_command_advances(s@, pos as int, read_view(commands@, *d), line);
    }
    let c = s[pos];
    let p: usize = pos + 1;
    if c == '[' {
        commands.push(ECommand::LoopStart);
        return p;
    }
    if c == ']' {
        commands.push(ECommand::LoopEnd);
        return p;
    }
    match char_digit_value(c, 16) {
        Some(v) => {
            let level: u8 = v as u8;
            if char_at(s, p, ':') {
                let (count, end) = scan_count(s, p + 1);
                commands.push(ECommand::Hold { level, count });
                return end;
            }
            if char_at(s, p, '=') {
                let (count, end) = scan_count(s, p + 1);
                commands.push(ECommand::Ramp { target: level, count });
                return end;
            }
            commands.push(ECommand::Level(level));
            return p;
        },
        None => {},
    }
    if c == '@' {
        let (v, end) = scan_u32(s, p);
        match v {
            Some(tone) => {
                let t: u8 = if tone <= 255 {
                    tone as u8
                } else {
                    255
                };
                commands.push(ECommand::ToneChange(t));
            },
            None => {
                d.add_parse_warning(
                    Some(line),
                    None,
                    "@e tone change command without tone number",
                );
            },
        }
        return end;
    }
    if c == 'n' {
        let (v, end) = scan_u32(s, p);
        match v {
            Some(value) => {
                let n = number_text(value as u64);
                let shown = join2("@e:n", n.as_str());
                keep_command(commands, d, ECommand::Noise(value), line, shown.as_str());
            },
            None => {
                d.add_parse_warning(Some(line), None, "@e noise command without value");
            },
        }
        return end;
    }
    if c == '/' || c == '*' {
        let (v, end) = scan_i32(s, p);
        let name = char_text(c);
        match v {
            Some(value) => {
                let n = signed_text(value as i128);
                let shown = join3("@e:", name.as_str(), n.as_str());
                keep_command(
                    commands,
                    d,
                    ECommand::ModeChange { command: c, value },
                    line,
                    shown.as_str(),
                );
            },
            None => {
                let m = join3("@e mode command ", name.as_str(), " without value");
                d.add_parse_warning(Some(line), None, m.as_str());
            },
        }
        return end;
    }
    if c == 'y' {
        let (register, data, end) = scan_register(s, p);
        match (register, data) {
            (Some(a), Some(b)) => {
                let m = signed_text(a as i128);
                let n = signed_text(b as i128);
                let shown = join4("@e:y", m.as_str(), ",", n.as_str());
                keep_command(
                    commands,
                    d,
                    ECommand::RegisterWrite { register: a, data: b },
                    line,
                    shown.as_str(),
                );
            },
            _ => {
                d.add_parse_warning(
                    Some(line),
                    None,
                    "@e register write command without register/data",
                );
            },
        }
        return end;
    }
    if c == '\\' {
        let (v, end) = scan_i32(s, p);
        match v {
            Some(value) => {
                let n = signed_text(value as i128);
                let shown = join2("@e:\\", n.as_str());
                keep_command(commands, d, ECommand::FrequencyOffset(value), line, shown.as_str());
            },
            None => {
                d.add_parse_warning(
                    Some(line),
                    None,
                    "@e frequency offset command without value",
                );
            },
        }
        return end;
    }
    let name = char_text(c);
    let m = join2("ignored character in @e definition: ", name.as_str());
    d.add_parse_warning(Some(line), None, m.as_str());
    p
}

pub fn parse_e_commands(s: &[char], d: &mut Diagnostics, line: usize) -> (r: Vec<ECommand>)
    ensures
        e_commands(s@, 0, read_view(Seq::empty(), *old(d)), line) == read_view(r@, *final(d)),
{
    let mut commands: Vec<ECommand> = Vec::new();
    let mut pos: usize = 0;
    let ghost goal = e_commands(s@, 0, read_view(Seq::empty(), *d), line);
    assert(commands@ =~= Seq::empty());
    while pos < s.len()
        invariant
            pos <= s@.len(),
            goal == e_commands(s@, pos as int, read_view(commands@, *d), line),
        decreases s@.len() - pos,
    {
        let start = skip_class(s, pos, CharClass::SpaceSeparator);
        if start >= s.len() {
            pos = start;
        } else {
            pos = read_e_command(s, start, &mut commands, d, line);
        }
    }
    commands
}

/// A software envelope: a mode, a noise value and commands.
pub open spec fn e_definition(s: Seq<char>, t: TopView, line: usize) -> Result<TopView, Seq<char>> {
    match numbered_definition(s) {
        Some((id, content)) => {
            let p = list_next(content, 0);
            let q = list_next(content, p);
            let read = e_commands(
                content.skip(q),
                0,
                ReadCommands { commands: Seq::empty(), diagnostics: t.song.diagnostics },
                line,
            );
            Ok(
                t.with_song(
                    SongIrView {
                        envelopes: EnvelopeTableView {
                            e: t.song.envelopes.e.insert(
                                id,
                                EnvelopeEView {
                                    id,
                                    mode: list_value(content, 0),
                                    noise: list_value(content, p),
                                    commands: read.commands,
                                },
                            ),
                            ..t.song.envelopes
                        },
                        diagnostics: read.diagnostics,
                        ..t.song
                    },
                ),
            )
        },
        None => Err("invalid @e definition at line "@ + text::decimal(line as nat)),
    }
}

pub open spec fn top_result(r: Result<(), String>, t: Top) -> Result<TopView, Seq<char>> {
    match r {
        Ok(_) => Ok(t.deep_view()),
        Err(e) => Err(e@),
    }
}

pub fn parse_e_definition(s: &[char], t: &mut Top, line: usize) -> (r: Result<(), String>)
    requires
        s@.len() >= 2,
    ensures
        top_result(r, *final(t)) == e_definition(s@, old(t).deep_view(), line),
{
    match parse_at_definition(s) {
        Some((id, content)) => {
            let (mode, p) = next_i32(content, 0);
            let (noise, q) = next_i32(content, p);
            let commands = parse_e_commands(after(content, q), &mut t.song.diagnostics, line);
            let e = EnvelopeE { id, mode, noise, commands };
            let ghost before = t.song.envelopes.e@;
            t.song.envelopes.e.insert(id, e);
            proof {
                views::map_views_insert(before, id, e);
            }
            Ok(())
        },
        None => {
            let n = number_text(line as u64);
            Err(join2("invalid @e definition at line ", n.as_str()))
        },
    }
}

pub open spec fn byte(v: i32) -> u8 {
    text::clamp_int(v as int, 0, 255) as u8
}

pub fn to_byte(v: i32) -> (r: u8)
    ensures
        r == byte(v),
{
    clamp_i64(v as i64, 0, 255) as u8
}

/// The position after the first `n` numbers of a list.
pub open spec fn list_pos(s: Seq<char>, n: nat) -> int
    decreases n,
{
    if n == 0 {
        0
    } else {
        list_next(s, list_pos(s, (n - 1) as nat))
    }
}

/// The number of a list at an index.
pub open spec fn list_item(s: Seq<char>, n: nat) -> i32 {
    list_value(s, list_pos(s, n))
}

/// A hardware-style envelope: a mode, a noise value and six rates.
pub open spec fn r_definition(s: Seq<char>, t: TopView, line: usize) -> Result<TopView, Seq<char>> {
    match numbered_definition(s) {
        Some((id, c)) => Ok(
            t.with_song(
                SongIrView {
                    envelopes: EnvelopeTableView {
                        r: t.song.envelopes.r.insert(
                            id,
                            EnvelopeR {
                                id,
                                mode: list_item(c, 0),
                                noise: list_item(c, 1),
                                al: byte(list_item(c, 2)),
                                ar: byte(list_item(c, 3)),
                                dr: byte(list_item(c, 4)),
                                sl: byte(list_item(c, 5)),
                                sr: byte(list_item(c, 6)),
                                rr: byte(list_item(c, 7)),
                            },
                        ),
                        ..t.song.envelopes
                    },
                    ..t.song
                },
            ),
        ),
        None => Err("invalid @r definition at line "@ + text::decimal(line as nat)),
    }
}

pub fn parse_r_definition(s: &[char], t: &mut Top, line: usize) -> (r: Result<(), String>)
    requires
        s@.len() >= 2,
    ensures
        top_result(r, *final(t)) == r_definition(s@, old(t).deep_view(), line),
{
    match parse_at_definition(s) {
        Some((id, c)) => {
            proof {
                reveal_with_fuel(list_pos, 9);
            }
            let (mode, p1) = next_i32(c, 0);
            let (noise, p2) = next_i32(c, p1);
            let (al, p3) = next_i32(c, p2);
            let (ar, p4) = next_i32(c, p3);
            let (dr, p5) = next_i32(c, p4);
            let (sl, p6) = next_i32(c, p5);
            let (sr, p7) = next_i32(c, p6);
            let (rr, _) = next_i32(c, p7);
            let e = EnvelopeR {
                id,
                mode,
                noise,
                al: to_byte(al),
                ar: to_byte(ar),
                dr: to_byte(dr),
                sl: to_byte(sl),
                sr: to_byte(sr),
                rr: to_byte(rr),
            };
            t.song.envelopes.r.insert(id, e);
            Ok(())
        },
        None => {
            let n = number_text(line as u64);
            Err(join2("invalid @r definition at line ", n.as_str()))
        },
    }
}

/// A text that a track can show.
pub open spec fn m_definition(s: Seq<char>, t: TopView, line: usize) -> Result<TopView, Seq<char>> {
    match numbered_definition(s) {
        Some((id, content)) => Ok(
            t.with_song(
                SongIrView {
                    control_texts: t.song.control_texts.insert(id, unquoted(text::trim(content))),
                    ..t.song
                },
            ),
        ),
        None => Err("invalid @m definition at line "@ + text::decimal(line as nat)),
    }
}

pub fn parse_m_definition(s: &[char], t: &mut Top, line: usize) -> (r: Result<(), String>)
    requires
        s@.len() >= 2,
    ensures
        top_result(r, *final(t)) == m_definition(s@, old(t).deep_view(), line),
{
    match parse_at_definition(s) {
        Some((id, content)) => {
            let text = string_of(unquote(trimmed(content)));
            let ghost before = t.song.control_texts@;
            t.song.control_texts.insert(id, text);
            proof {
                views::map_views_insert(before, id, text);
            }
            Ok(())
        },
        None => {
            let n = number_text(line as u64);
            Err(join2("invalid @m definition at line ", n.as_str()))
        },
    }
}

/// The assignment of a ROM tone to an OPLL tone number, `@#n = m`.
pub open spec fn tone_assignment(s: Seq<char>, t: TopView, line: usize) -> TopView {
    match text::u32_at(s, 2) {
        Some(logical) => {
            let a = text::ws_end(s, text::u32_end(s, 2));
            let b = if text::at(s, a, '=') {
                a + 1
            } else {
                a
            };
            match text::u32_at(s, b) {
                Some(rom) => t.with_song(
                    SongIrView {
                        opll_tone_assignments: t.song.opll_tone_assignments.insert(
                            text::min_int(logical as int, 255) as u8,
                            text::min_int(rom as int, 255) as u8,
                        ),
                        ..t.song
                    },
                ),
                None => t.warned(line, "invalid @# assignment without ROM tone"@),
            }
        },
        None => t.warned(line, "invalid @# assignment without tone number"@),
    }
}

pub fn capped(v: u32) -> (r: u8)
    ensures
        r == text::min_int(v as int, 255),
{
    if v <= 255 {
        v as u8
    } else {
        255
    }
}

pub fn parse_at_hash_assignment(s: &[char], t: &mut Top, line: usize)
    requires
        s@.len() >= 2,
    ensures
        final(t).deep_view() == tone_assignment(s@, old(t).deep_view(), line),
{
    let (logical, end) = scan_u32(s, 2);
    match logical {
        Some(l) => {
            let a = skip_ws(s, end);
            let b: usize = if char_at(s, a, '=') {
                a + 1
            } else {
                a
            };
            match scan_u32(s, b).0 {
                Some(rom) => {
                    t.song.opll_tone_assignments.insert(capped(l), capped(rom));
                },
                None => {
                    t.warn(line, "invalid @# assignment without ROM tone");
                },
            }
        },
        None => {
            t.warn(line, "invalid @# assignment without tone number");
        },
    }
}

/// The first `n` words, with a space between each two.
pub open spec fn spaced(words: Seq<Seq<char>>, n: int) -> Seq<char>
    decreases n,
{
    if n <= 0 || n > words.len() {
        Seq::empty()
    } else if n == 1 {
        words[0]
    } else {
        spaced(words, n - 1).push(' ') + words[n - 1]
    }
}

/// A statement on one line, its white space reduced to single spaces.
pub open spec fn compact(s: Seq<char>) -> Seq<char> {
    spaced(text::words(s), text::words(s).len() as int)
}

pub fn compact_statement_for_meta(s: &[char]) -> (r: Vec<char>)
    ensures
        r@ == compact(s@),
{
    let all = split_words(s);
    let ghost every = text::words(s@);
    let mut out: Vec<char> = Vec::new();
    let mut i: usize = 0;
    assert(out@ =~= Seq::empty());
    while i < all.len()
        invariant
            i <= all@.len(),
            text::texts(all@) == every,
            out@ == spaced(every, i as int),
        decreases all@.len() - i,
    {
        let ghost before = out@;
        assert(every[i as int] == all@[i as int]@);
        if i > 0 {
            out.push(' ');
        }
        push_chars(&mut out, &all[i]);
        assert(i == 0 ==> out@ =~= every[0]);
        i += 1;
    }
    out
}

/// A tone definition is reported and kept as text.
pub open spec fn ignored_tone(s: Seq<char>, t: TopView, line: usize, command: Seq<char>) -> TopView {
    let policy = if command == "@#"@ {
        "ignored tone assignment"@
    } else {
        "ignored tone definition"@
    };
    let u = t.reported(line, command, policy);
    u.with_diagnostics(u.song.diagnostics.with_ignored_tone(Some(line), command, compact(s)))
}

pub fn record_ignored_tone_definition(s: &[char], t: &mut Top, line: usize, command: &str)
    ensures
        final(t).deep_view() == ignored_tone(s@, old(t).deep_view(), line, command@),
{
    if same_text(command, "@#") {
        t.report(line, command, "ignored tone assignment");
    } else {
        t.report(line, command, "ignored tone definition");
    }
    let c = compact_statement_for_meta(s);
    let text = string_of(&c);
    t.song.diagnostics.add_ignored_tone_definition(Some(line), command, text.as_str());
}

/// The definition of a macro, `*n = { ... }`.
pub open spec fn macro_definition(s: Seq<char>, t: TopView, line: usize) -> TopView {
    match (text::u32_at(s, 1), braced(s)) {
        (Some(id), Some(content)) => match offset_macro(id, t.offsets.numeric) {
            Some(n) => TopView { macros: t.macros.insert(n, content), ..t },
            None => t.warned(
                line,
                "macro id out of range after #macro_offset: *"@ + text::decimal(id as nat) + " + "@
                    + text::signed_decimal(t.offsets.numeric as int),
            ),
        },
        _ => t.warned(line, "invalid macro definition"@),
    }
}

pub fn parse_macro_definition(s: &[char], t: &mut Top, line: usize)
    requires
        s@.len() >= 1,
    ensures
        final(t).deep_view() == macro_definition(s@, old(t).deep_view(), line),
{
    let (id, _) = scan_u32(s, 1);
    match (id, extract_braced(s)) {
        (Some(id), Some(content)) => match apply_macro_offset(id, t.offsets.numeric) {
            Some(n) => {
                let body = string_of(content);
                let ghost before = t.macros@;
                t.macros.insert(n, body);
                proof {
                    views::map_views_insert(before, n, body);
                }
            },
            None => {
                let a = number_text(id as u64);
                let b = signed_text(t.offsets.numeric as i128);
                let m = join4(
                    "macro id out of range after #macro_offset: *",
                    a.as_str(),
                    " + ",
                    b.as_str(),
                );
                t.warn(line, m.as_str());
            },
        },
        _ => {
            t.warn(line, "invalid macro definition");
        },
    }
}

} // verus!
