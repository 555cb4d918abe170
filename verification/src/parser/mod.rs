//! Reading `.MUS` source text.

pub mod arranged;
pub mod asked;
pub mod called;
pub mod changes;
pub mod defined;
pub mod definitions;
pub mod invariants;
pub mod loader;
pub mod loops;
pub mod mml;
pub mod music;
pub mod prolonged;
pub mod repeats;
pub mod smf;
pub mod sources;
pub mod statements;
pub mod timing;
pub mod tokens;
pub mod tracks;

use vstd::prelude::*;

use crate::fraction;
use crate::ir::{ConversionOptions, IrEvent, IrEventView, OptionsView, Rational, SongIr, SongIrView};
use crate::parser::definitions::{
    Chunk, ChunkView, Top, TopView, TrackRequest, TrackRequestView, parse_at_hash_assignment,
    parse_directive, parse_e_definition, parse_m_definition, parse_macro_definition,
    parse_r_definition, record_ignored_tone_definition,
};
use crate::parser::smf::{names_unknown_command, parse_smf_directive, unknown_error};
use crate::parser::statements::{
    Statement, StatementView, collect_statements, leading_comment_body, parse_msxplay_loop_count,
    parse_track_line, smf_comment_body, strip_normal_comment, track_kind_for_selector,
};
use crate::parser::tracks::assemble;
use crate::text;
use crate::text::{
    begins_with, begins_with_char, char_text, chars_of, copy_opt, join2, lower_chars, string_of,
    to_chars, trimmed,
};
use crate::views;
use crate::views::push_viewed;

verus! {

// ---------------------------------------------------------------------------
// Statements of the top level
// ---------------------------------------------------------------------------
/// What a comment that makes up a whole statement does.
pub open spec fn comment_statement(
    t: TopView,
    body: Seq<char>,
    line: usize,
    o: OptionsView,
) -> Result<TopView, Seq<char>> {
    let u = TopView {
        loop_count: match t.loop_count {
            Some(n) => Some(n),
            None => statements::comment_loop_count(body),
        },
        ..t
    };
    match statements::smf_comment(body) {
        Some(directive) => match smf::smf_directive(
            directive,
            None,
            fraction::whole(0),
            line,
            o.smfmap.program_numbering,
            o.smfmap.channel_numbering,
        ) {
            Ok(event) => Ok(
                match event {
                    IrEventView::ManualSmf { track: Some(track), .. } => TopView {
                        requests: u.requests.push(TrackRequestView { track, event }),
                        ..u
                    },
                    _ => u.with_song(
                        SongIrView {
                            conductor_events: u.song.conductor_events.push(event),
                            ..u.song
                        },
                    ),
                },
            ),
            Err(message) => if o.smfmap.manual_smf_enabled && o.smfmap.unknown_requests_fail
                && smf::is_unknown(message) {
                Err(smf::unknown_at(message, line))
            } else {
                Ok(u.warned(line, message))
            },
        },
        None => Ok(u),
    }
}

/// The piece of MML for a selector.
pub open spec fn selector_chunk(
    t: TopView,
    selector: char,
    body: Seq<char>,
    line: usize,
    o: OptionsView,
) -> ChunkView {
    let track = seq![selector];
    let kind = statements::selector_kind(track, t.opll_mode, o.rhythm_map);
    ChunkView {
        track,
        line,
        body,
        offsets: t.offsets,
        kind,
        family: o.smfmap.family(track, t.opll_mode, kind),
    }
}

/// The pieces of MML with those for the first `n` selectors of a track line.
pub open spec fn with_chunks(
    t: TopView,
    selectors: Seq<char>,
    n: int,
    body: Seq<char>,
    line: usize,
    o: OptionsView,
) -> TopView
    decreases n,
{
    if n <= 0 || n > selectors.len() {
        t
    } else {
        let u = with_chunks(t, selectors, n - 1, body, line, o);
        TopView {
            chunks: u.chunks.push(selector_chunk(t, selectors[n - 1], body, line, o)),
            ..u
        }
    }
}

/// What a statement does.
pub enum Effect {
    /// Reading goes on.
    Go(TopView),
    /// The source ends here.
    End,
    /// The source is refused.
    Fail(Seq<char>),
}

pub open spec fn effect_of(r: Result<TopView, Seq<char>>) -> Effect {
    match r {
        Ok(t) => Effect::Go(t),
        Err(e) => Effect::Fail(e),
    }
}

/// A definition or directive: a trimmed statement without its comment.
pub open spec fn definition(t: TopView, s: Seq<char>, line: usize) -> Effect {
    let l = text::lower_all(s);
    if "#end"@.is_prefix_of(l) {
        Effect::End
    } else if text::begins(l, '#') {
        Effect::Go(definitions::directive(s, t, line))
    } else if "@e"@.is_prefix_of(l) {
        effect_of(definitions::e_definition(s, t, line))
    } else if "@r"@.is_prefix_of(l) {
        effect_of(definitions::r_definition(s, t, line))
    } else if "@m"@.is_prefix_of(l) {
        effect_of(definitions::m_definition(s, t, line))
    } else if "@s"@.is_prefix_of(l) {
        Effect::Go(definitions::ignored_tone(s, t, line, "@s"@))
    } else if "@v"@.is_prefix_of(l) {
        Effect::Go(definitions::ignored_tone(s, t, line, "@v"@))
    } else if "@#"@.is_prefix_of(l) {
        Effect::Go(definitions::ignored_tone(s, definitions::tone_assignment(s, t, line), line, "@#"@))
    } else if text::begins(l, '*') {
        Effect::Go(definitions::macro_definition(s, t, line))
    } else {
        Effect::Go(t.warned(line, "unrecognized top-level statement: "@ + s))
    }
}

/// What a statement does.
pub open spec fn statement(t: TopView, st: StatementView, o: OptionsView) -> Effect {
    let raw = text::trim(st.text);
    if raw.len() == 0 {
        Effect::Go(t)
    } else {
        match statements::leading_comment(raw) {
            Some(body) => match comment_statement(t, body, st.line, o) {
                Ok(u) => Effect::Go(u),
                Err(e) => Effect::Fail(e),
            },
            None => match statements::track_line(raw) {
                Some((selectors, body)) => Effect::Go(
                    with_chunks(t, selectors, selectors.len() as int, body, st.line, o),
                ),
                None => {
                    let s = text::trim(statements::without_comment(raw));
                    if s.len() == 0 {
                        Effect::Go(t)
                    } else {
                        definition(t, s, st.line)
                    }
                },
            },
        }
    }
}

/// The statements from `i` on, up to the end of the source.
pub open spec fn run_statements(all: Seq<StatementView>, i: int, t: TopView, o: OptionsView) ->
    Result<TopView, Seq<char>>
    decreases all.len() - i,
{
    if i < 0 || i >= all.len() {
        Ok(t)
    } else {
        match statement(t, all[i], o) {
            Effect::Go(u) => run_statements(all, i + 1, u, o),
            Effect::End => Ok(t),
            Effect::Fail(e) => Err(e),
        }
    }
}

/// The song of a source text, or why the source is refused.
pub open spec fn parsed(text: Seq<char>, o: OptionsView) -> Result<SongIrView, Seq<char>> {
    match run_statements(statements::statements(text), 0, TopView::start(o.ppq, o.loop_count), o) {
        Ok(t) => tracks::assembled(t, o),
        Err(e) => Err(e),
    }
}

fn read_comment_statement(
    t: &mut Top,
    body: &[char],
    line: usize,
    o: &ConversionOptions,
) -> (r: Result<(), String>)
    ensures
        match comment_statement(old(t).deep_view(), body@, line, o.deep_view()) {
            Ok(u) => r is Ok && final(t).deep_view() == u,
            Err(e) => r matches Err(m) && m@ == e,
        },
{
    if t.loop_count.is_none() {
        t.loop_count = parse_msxplay_loop_count(body);
    }
    let directive = match smf_comment_body(body) {
        Some(d) => d,
        None => {
            return Ok(());
        },
    };
    match parse_smf_directive(
        directive,
        None,
        Rational::zero(),
        line,
        o.smfmap.program_numbering,
        o.smfmap.channel_numbering,
    ) {
        Ok(event) => {
            let track: Option<String> = match &event {
                IrEvent::ManualSmf { source_track, .. } => copy_opt(source_track),
                _ => None,
            };
            match track {
                Some(track) => {
                    push_viewed(&mut t.requests, TrackRequest { track, event });
                },
                None => {
                    push_viewed(&mut t.song.conductor_events, event);
                },
            }
        },
        Err(message) => {
            if o.smfmap.manual_smf_enabled && o.smfmap.unknown_requests_fail
                && names_unknown_command(message.as_str()) {
                return Err(unknown_error(message.as_str(), line));
            }
            t.warn(line, message.as_str());
        },
    }
    Ok(())
}

fn read_track_line(
    t: &mut Top,
    selectors: &Vec<char>,
    body: &[char],
    line: usize,
    o: &ConversionOptions,
)
    ensures
        final(t).deep_view() == with_chunks(
            old(t).deep_view(),
            selectors@,
            selectors@.len() as int,
            body@,
            line,
            o.deep_view(),
        ),
{
    let ghost base = t.deep_view();
    let mut i: usize = 0;
    while i < selectors.len()
        invariant
            i <= selectors@.len(),
            base == old(t).deep_view(),
            t.deep_view() == with_chunks(
                base,
                selectors@,
                i as int,
                body@,
                line,
                o.deep_view(),
            ),
            t.opll_mode == base.opll_mode,
            t.offsets.deep_view() == base.offsets,
        decreases selectors@.len() - i,
    {
        let track = char_text(selectors[i]);
        let kind = track_kind_for_selector(track.as_str(), t.opll_mode, o.rhythm_map);
        let family = o.smfmap.family_for_track(track.as_str(), t.opll_mode, kind);
        let offsets = t.offsets.clone();
        push_viewed(
            &mut t.chunks,
            Chunk { track, line, body: to_chars(body), offsets, kind, family },
        );
        i += 1;
    }
}

/// What a statement did, in executable code.
enum Did {
    Go,
    End,
    Fail(String),
}

spec fn did_view(d: Did, t: Top) -> Effect {
    match d {
        Did::Go => Effect::Go(t.deep_view()),
        Did::End => Effect::End,
        Did::Fail(e) => Effect::Fail(e@),
    }
}

fn to_did(r: Result<(), String>) -> (d: Did)
    ensures
        d == match r {
            Ok(_) => Did::Go,
            Err(e) => Did::Fail(e),
        },
{
    match r {
        Ok(_) => Did::Go,
        Err(e) => Did::Fail(e),
    }
}

fn read_definition(t: &mut Top, s: &[char], line: usize) -> (d: Did)
    ensures
        did_view(d, *final(t)) == definition(old(t).deep_view(), s@, line) || (d is End
            && definition(old(t).deep_view(), s@, line) is End),
        d is End ==> final(t).deep_view() == old(t).deep_view(),
{
    proof {
        reveal_strlit("@e");
        reveal_strlit("@r");
        reveal_strlit("@m");
        reveal_strlit("@#");
    }
    let l = lower_chars(s);
    if begins_with(&l, "#end") {
        return Did::End;
    }
    if begins_with_char(&l, '#') {
        parse_directive(s, t, line);
        return Did::Go;
    }
    if begins_with(&l, "@e") {
        return to_did(parse_e_definition(s, t, line));
    }
    if begins_with(&l, "@r") {
        return to_did(parse_r_definition(s, t, line));
    }
    if begins_with(&l, "@m") {
        return to_did(parse_m_definition(s, t, line));
    }
    if begins_with(&l, "@s") {
        record_ignored_tone_definition(s, t, line, "@s");
        return Did::Go;
    }
    if begins_with(&l, "@v") {
        record_ignored_tone_definition(s, t, line, "@v");
        return Did::Go;
    }
    if begins_with(&l, "@#") {
        parse_at_hash_assignment(s, t, line);
        record_ignored_tone_definition(s, t, line, "@#");
        return Did::Go;
    }
    if begins_with_char(&l, '*') {
        parse_macro_definition(s, t, line);
        return Did::Go;
    }
    let shown = string_of(s);
    let m = join2("unrecognized top-level statement: ", shown.as_str());
    t.warn(line, m.as_str());
    Did::Go
}

fn read_statement(t: &mut Top, st: &Statement, o: &ConversionOptions) -> (d: Did)
    ensures
        match statement(old(t).deep_view(), st.deep_view(), o.deep_view()) {
            Effect::Go(u) => d is Go && final(t).deep_view() == u,
            Effect::End => d is End && final(t).deep_view() == old(t).deep_view(),
            Effect::Fail(e) => d matches Did::Fail(m) && m@ == e,
        },
{
    let raw = trimmed(&st.text);
    if raw.len() == 0 {
        return Did::Go;
    }
    match leading_comment_body(raw) {
        Some(body) => {
            return to_did(read_comment_statement(t, body, st.line, o));
        },
        None => {},
    }
    match parse_track_line(raw) {
        Some((selectors, body)) => {
            read_track_line(t, &selectors, body, st.line, o);
            return Did::Go;
        },
        None => {},
    }
    let s = trimmed(strip_normal_comment(raw));
    if s.len() == 0 {
        return Did::Go;
    }
    read_definition(t, s, st.line)
}

/// Reads a source text.
pub fn parse_source(text: &str, options: &ConversionOptions) -> (r: Result<SongIr, String>)
    ensures
        views::result_view(r) == parsed(text@, options.deep_view()),
{
    let chars = chars_of(text);
    let all = collect_statements(&chars);
    let ghost every = views::all_views(all@);
    let mut t = Top::start(options.ppq, options.loop_count);
    let ghost goal = run_statements(every, 0, t.deep_view(), options.deep_view());
    let mut i: usize = 0;
    let mut ended: bool = false;
    while i < all.len() && !ended
        invariant
            i <= all@.len(),
            every == views::all_views(all@),
            !ended ==> goal == run_statements(every, i as int, t.deep_view(), options.deep_view()),
            ended ==> goal == Ok::<TopView, Seq<char>>(t.deep_view()),
            parsed(text@, options.deep_view()) == match goal {
                Ok(u) => tracks::assembled(u, options.deep_view()),
                Err(e) => Err(e),
            },
        decreases all@.len() - i,
    {
        assert(every[i as int] == all@[i as int].deep_view());
        match read_statement(&mut t, &all[i], options) {
            Did::Go => {},
            Did::End => {
                ended = true;
            },
            Did::Fail(e) => {
                return Err(e);
            },
        }
        i += 1;
    }
    assemble(t, options)
}

} // verus!
