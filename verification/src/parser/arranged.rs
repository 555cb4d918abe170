//! How the lines of a source make up its tracks.

use vstd::prelude::*;

use crate::diagnostics::DiagnosticsView;
use crate::fraction;
use crate::ir::{IrEventView, OptionsView, TempoEventView};
use crate::parser;
use crate::parser::Effect;
use crate::parser::definitions::{ChunkView, TopView};
use crate::parser::mml::MachineView;
use crate::parser::statements;
use crate::parser::statements::StatementView;
use crate::parser::tracks;
use crate::text;
use crate::text::CharClass;

verus! {

// ---------------------------------------------------------------------------
// Comments and braces
// ---------------------------------------------------------------------------
/// A text without quotes and semicolons.
pub open spec fn is_plain(s: Seq<char>) -> bool {
    forall|i: int| 0 <= i < s.len() ==> #[trigger] s[i] != '"' && s[i] != ';'
}

proof fn plain_goes_on(s: Seq<char>, a: Seq<char>, i: int)
    requires
        is_plain(a),
        a.len() <= s.len(),
        s.take(a.len() as int) == a,
        0 <= i <= a.len(),
    ensures
        statements::comment_start(s, i, false, false) == statements::comment_start(s, a.len() as int, false, false),
    decreases a.len() - i,
{
    if i < a.len() {
        assert(s.take(a.len() as int)[i] == s[i]);
        assert(a[i] != '"' && a[i] != ';');
        plain_goes_on(s, a, i + 1);
    }
}

/// A statement ends where its comment begins.
pub proof fn comments_are_no_code(code: Seq<char>, comment: Seq<char>)
    requires
        is_plain(code),
    ensures
        statements::without_comment(code + seq![';'] + comment) == code,
        statements::without_comment(code) == code,
{
    let s = code + seq![';'] + comment;
    assert(s.take(code.len() as int) =~= code);
    plain_goes_on(s, code, 0);
    assert(s[code.len() as int] == ';');
    assert(code.take(code.len() as int) =~= code);
    plain_goes_on(code, code, 0);
}

/// What can stand between quotes with nothing hidden.
pub open spec fn is_quotable(s: Seq<char>) -> bool {
    forall|i: int| 0 <= i < s.len() ==> #[trigger] s[i] != '"' && s[i] != '\\'
}

proof fn quotes_go_on(s: Seq<char>, from: int, q: Seq<char>, i: int)
    requires
        is_quotable(q),
        0 <= from,
        from + q.len() <= s.len(),
        s.subrange(from, from + q.len()) == q,
        0 <= i <= q.len(),
    ensures
        statements::comment_start(s, from + i, true, false) == statements::comment_start(
            s,
            from + q.len(),
            true,
            false,
        ),
    decreases q.len() - i,
{
    if i < q.len() {
        assert(s.subrange(from, from + q.len())[i] == s[from + i]);
        assert(q[i] != '"' && q[i] != '\\');
        quotes_go_on(s, from, q, i + 1);
    }
}

/// A semicolon between quotes begins no comment.
pub proof fn quotes_hide_semicolons(code: Seq<char>, q: Seq<char>)
    requires
        is_plain(code),
        is_quotable(q),
    ensures
        statements::without_comment(code + seq!['"'] + q + seq!['"']) == code + seq!['"'] + q + seq!['"'],
{
    let s = code + seq!['"'] + q + seq!['"'];
    let n = code.len() as int;
    assert(s.take(n) =~= code);
    plain_goes_on(s, code, 0);
    assert(s[n] == '"');
    assert(s.subrange(n + 1, n + 1 + q.len()) =~= q);
    quotes_go_on(s, n + 1, q, 0);
    assert(s[n + 1 + q.len()] == '"');
    assert(statements::comment_start(s, n + 1 + q.len(), true, false) == statements::comment_start(
        s,
        s.len() as int,
        false,
        false,
    ));
    assert(s.take(s.len() as int) =~= s);
}

proof fn nesting_of_parts(a: Seq<char>, b: Seq<char>, pos: int, open: char, close: char)
    requires
        is_plain(a),
        is_plain(b),
        0 <= pos <= a.len(),
    ensures
        statements::nesting(a + b, pos, false, false, open, close) == statements::nesting(
            a,
            pos,
            false,
            false,
            open,
            close,
        ) + statements::nesting(b, 0, false, false, open, close),
    decreases a.len() - pos,
{
    let s = a + b;
    if pos < a.len() {
        assert(s[pos] == a[pos]);
        assert(a[pos] != '"' && a[pos] != ';');
        nesting_of_parts(a, b, pos + 1, open, close);
    } else {
        nesting_behind(a, b, 0, open, close);
    }
}

proof fn nesting_behind(a: Seq<char>, b: Seq<char>, i: int, open: char, close: char)
    requires
        is_plain(b),
        0 <= i <= b.len(),
    ensures
        statements::nesting(a + b, a.len() + i, false, false, open, close) == statements::nesting(
            b,
            i,
            false,
            false,
            open,
            close,
        ),
    decreases b.len() - i,
{
    if i < b.len() {
        assert((a + b)[a.len() + i] == b[i]);
        assert(b[i] != '"' && b[i] != ';');
        nesting_behind(a, b, i + 1, open, close);
    }
}

/// An opening bracket counts one and a closing one takes one away: the count of
/// two texts is the sum of their counts, and a semicolon ends it.
pub proof fn brackets_add_up(
    a: Seq<char>,
    b: Seq<char>,
    c: char,
    open: char,
    close: char,
)
    requires
        is_plain(a),
        is_plain(b),
        open != close,
        c != '"' && c != ';',
    ensures
        statements::nesting(a + b, 0, false, false, open, close) == statements::nesting(a, 0, false, false, open, close)
            + statements::nesting(b, 0, false, false, open, close),
        statements::nesting(seq![c], 0, false, false, open, close) == if c == open {
            1int
        } else if c == close {
            -1int
        } else {
            0int
        },
        statements::nesting(Seq::empty(), 0, false, false, open, close) == 0,
{
    nesting_of_parts(a, b, 0, open, close);
    assert(statements::nesting(seq![c], 1, false, false, open, close) == 0);
}

// ---------------------------------------------------------------------------
// Track lines
// ---------------------------------------------------------------------------
/// A text of track names.
pub open spec fn names_tracks(s: Seq<char>) -> bool {
    s.len() > 0 && forall|i: int|
        0 <= i < s.len() ==> ('a' <= #[trigger] s[i] <= 'h' || '1' <= s[i] <= '9' || s[i] == 'r')
}

proof fn chunks_are_given(
    t: TopView,
    selectors: Seq<char>,
    n: int,
    body: Seq<char>,
    line: usize,
    o: OptionsView,
    i: int,
)
    requires
        0 <= i < n <= selectors.len(),
    ensures
        ({
            let u = parser::with_chunks(t, selectors, n, body, line, o);
            &&& u == (TopView { chunks: u.chunks, ..t })
            &&& u.chunks.len() == t.chunks.len() + n
            &&& u.chunks.take(t.chunks.len() as int) == t.chunks
            &&& u.chunks[t.chunks.len() + i].track == seq![selectors[i]]
            &&& u.chunks[t.chunks.len() + i].body == body
            &&& u.chunks[t.chunks.len() + i].line == line
            &&& u.chunks[t.chunks.len() + i].offsets == t.offsets
        }),
    decreases n,
{
    let u = parser::with_chunks(t, selectors, n, body, line, o);
    let b = parser::with_chunks(t, selectors, n - 1, body, line, o);
    if n - 1 > 0 {
        chunks_are_given(
            t,
            selectors,
            n - 1,
            body,
            line,
            o,
            if i < n - 1 {
                i
            } else {
                0
            },
        );
        assert(u.chunks.take(t.chunks.len() as int) =~= b.chunks.take(t.chunks.len() as int));
    } else {
        assert(b == t);
        assert(u.chunks.take(t.chunks.len() as int) =~= t.chunks);
    }
}

/// A line that begins with track names gives its music to each of these tracks,
/// with the line that it stands on and the macro offsets in force.
pub proof fn lines_go_to_their_tracks(
    t: TopView,
    names: Seq<char>,
    body: Seq<char>,
    line: usize,
    o: OptionsView,
    i: int,
)
    requires
        names_tracks(names),
        body.len() > 0,
        !text::is_space(body[0]),
        !text::is_space(body.last()),
        0 <= i < names.len(),
    ensures
        ({
            let st = StatementView { line, text: names + seq![' '] + body };
            parser::statement(t, st, o) matches Effect::Go(u) && u.chunks.len() == t.chunks.len()
                + names.len() && u.chunks.take(t.chunks.len() as int) == t.chunks
                && u.chunks[t.chunks.len() + i].track == seq![names[i]]
                && u.chunks[t.chunks.len() + i].body == body && u.chunks[t.chunks.len() + i].line
                == line && u.chunks[t.chunks.len() + i].offsets == t.offsets
        }),
{
    let s = names + seq![' '] + body;
    let n = names.len() as int;
    assert(s.last() == body.last());
    assert(s[0] == names[0]);
    assert(!text::is_space(names[0]));
    assert(text::ws_end(s, 0) == 0);
    assert(s.skip(0) =~= s);
    assert(text::trim(s) == s);
    assert(names[0] != ';');
    assert forall|j: int| 0 <= j < n implies !text::is_space(#[trigger] names[j]) && names[j] == s[j] by {}
    line_name_ends(s, names, 0);
    assert forall|j: int| 0 <= j < n implies statements::is_selector(#[trigger] s[j]) by {
        assert(s[j] == names[j]);
    }
    assert(text::lower_all(s.take(n)) =~= names) by {
        assert forall|j: int| 0 <= j < n implies text::lower(s[j]) == names[j] by {
            assert(s[j] == names[j]);
        }
    }
    let rest = s.skip(n);
    assert(rest[0] == ' ');
    assert(rest[1] == body[0]);
    assert(text::ws_end(rest, 1) == 1);
    assert(text::ws_end(rest, 0) == 1);
    assert(rest.skip(1) =~= body);
    assert(statements::track_line(s) == Some((names, body)));
    chunks_are_given(t, names, n, body, line, o, i);
}

proof fn line_name_ends(s: Seq<char>, name: Seq<char>, i: int)
    requires
        0 <= i <= name.len(),
        name.len() < s.len(),
        forall|j: int| 0 <= j < name.len() ==> !text::is_space(#[trigger] name[j]) && name[j] == s[j],
        s[name.len() as int] == ' ',
    ensures
        text::run_end(s, i, CharClass::Word) == name.len(),
    decreases name.len() - i,
{
    if i < name.len() {
        assert(!text::is_space(name[i]));
        line_name_ends(s, name, i + 1);
    }
}

// ---------------------------------------------------------------------------
// Pieces of a track
// ---------------------------------------------------------------------------
proof fn pieces_from(chunks: Seq<ChunkView>, i: int, track: Seq<char>)
    requires
        0 <= i <= chunks.len(),
        forall|j: int| 0 <= j < chunks.len() ==> {
            let c = #[trigger] chunks[j];
            c.track == track && statements::nesting(c.body, 0, false, false, '[', ']') == 0
        },
    ensures
        tracks::segments_from(chunks, i, track, None, 0) == chunks.skip(i),
    decreases chunks.len() - i,
{
    if i < chunks.len() {
        pieces_from(chunks, i + 1, track);
        assert(chunks[i] == chunks[i]);
        assert(seq![chunks[i]] + chunks.skip(i + 1) =~= chunks.skip(i));
    } else {
        assert(chunks.skip(i) =~= Seq::empty());
    }
}

/// The pieces of a track are its lines, in their order, where every loop ends on
/// the line that it begins on.
pub proof fn lines_are_pieces(chunks: Seq<ChunkView>, track: Seq<char>)
    requires
        forall|j: int| 0 <= j < chunks.len() ==> {
            let c = #[trigger] chunks[j];
            c.track == track && statements::nesting(c.body, 0, false, false, '[', ']') == 0
        },
    ensures
        tracks::segments_from(chunks, 0, track, None, 0) == chunks,
{
    pieces_from(chunks, 0, track);
    assert(chunks.skip(0) =~= chunks);
}

/// A loop may go on over lines: they are one piece, joined by line ends.
pub proof fn loops_go_on_over_lines(x: ChunkView, y: ChunkView, track: Seq<char>)
    requires
        x.track == track,
        y.track == track,
        x.body.len() > 0,
        statements::nesting(x.body, 0, false, false, '[', ']') > 0,
        statements::nesting(x.body, 0, false, false, '[', ']') + statements::nesting(y.body, 0, false, false, '[', ']')
            == 0,
    ensures
        tracks::segments_from(seq![x, y], 0, track, None, 0) == seq![
            (ChunkView { body: x.body + seq!['\n'] + y.body, ..x }),
        ],
{
    let chunks = seq![x, y];
    let joined = tracks::with_body(x, y.body);
    assert(joined.body =~= x.body + seq!['\n'] + y.body);
    assert(tracks::segments_from(chunks, 2, track, None, 0) =~= Seq::empty());
    let level = statements::nesting(x.body, 0, false, false, '[', ']');
    assert(tracks::segments_from(chunks, 1, track, Some(x), level) =~= seq![joined]);
}

proof fn others_from(
    chunks: Seq<ChunkView>,
    k: int,
    i: int,
    track: Seq<char>,
    open: Option<ChunkView>,
    depth: int,
)
    requires
        0 <= i <= k < chunks.len(),
        chunks[k].track != track,
    ensures
        tracks::segments_from(chunks, i, track, open, depth) == tracks::segments_from(
            chunks.remove(k),
            i,
            track,
            open,
            depth,
        ),
    decreases chunks.len() - i,
{
    let rest = chunks.remove(k);
    if i < k {
        assert(rest[i] == chunks[i]);
        if chunks[i].track != track {
            others_from(chunks, k, i + 1, track, open, depth);
        } else {
            let joined = match open {
                Some(s) => tracks::with_body(s, chunks[i].body),
                None => chunks[i],
            };
            let level = depth + statements::nesting(chunks[i].body, 0, false, false, '[', ']');
            if level <= 0 {
                others_from(chunks, k, i + 1, track, None, 0);
            } else {
                others_from(chunks, k, i + 1, track, Some(joined), level);
            }
        }
    } else {
        rest_from(chunks, k, k, track, open, depth);
    }
}

proof fn rest_from(
    chunks: Seq<ChunkView>,
    k: int,
    i: int,
    track: Seq<char>,
    open: Option<ChunkView>,
    depth: int,
)
    requires
        0 <= k <= i < chunks.len(),
    ensures
        tracks::segments_from(chunks, i + 1, track, open, depth) == tracks::segments_from(
            chunks.remove(k),
            i,
            track,
            open,
            depth,
        ),
    decreases chunks.len() - i,
{
    let rest = chunks.remove(k);
    if i + 1 < chunks.len() {
        assert(rest[i] == chunks[i + 1]);
        if chunks[i + 1].track != track {
            rest_from(chunks, k, i + 1, track, open, depth);
        } else {
            let joined = match open {
                Some(s) => tracks::with_body(s, chunks[i + 1].body),
                None => chunks[i + 1],
            };
            let level = depth + statements::nesting(chunks[i + 1].body, 0, false, false, '[', ']');
            if level <= 0 {
                rest_from(chunks, k, i + 1, track, None, 0);
            } else {
                rest_from(chunks, k, i + 1, track, Some(joined), level);
            }
        }
    }
}

/// A line of another track changes nothing in the pieces of a track.
pub proof fn other_tracks_do_not_count(chunks: Seq<ChunkView>, k: int, track: Seq<char>)
    requires
        0 <= k < chunks.len(),
        chunks[k].track != track,
    ensures
        tracks::segments_from(chunks, 0, track, None, 0) == tracks::segments_from(
            chunks.remove(k),
            0,
            track,
            None,
            0,
        ),
{
    others_from(chunks, k, 0, track, None, 0);
}

// ---------------------------------------------------------------------------
// What holds from the start
// ---------------------------------------------------------------------------
/// A track begins in the fourth octave, with quarter notes that sound in full, and
/// with no tone and no envelope.
pub proof fn tracks_begin_alike(
    octave_base: i32,
    events: Seq<IrEventView>,
    tempo_events: Seq<TempoEventView>,
    diagnostics: DiagnosticsView,
)
    ensures
        ({
            let m = MachineView::start(octave_base, events, tempo_events, diagnostics);
            &&& m.cursor == fraction::whole(0)
            &&& m.octave == 4
            &&& m.octave_base == octave_base
            &&& m.default_length.num == 48 * m.default_length.den
            &&& m.q == 8
            &&& m.tone is None
            &&& m.envelope is None
            &&& !m.slur_from_previous
            &&& m.events == events
            &&& m.tempo_events == tempo_events
        }),
{
    fraction::frac_reduces(192, 4);
}

/// A song that sets no tempo is played at 120 beats a minute.
pub proof fn songs_have_a_tempo(t: TopView, o: OptionsView)
    ensures
        tracks::assembled(t, o) matches Ok(song) ==> song.tempo_events.len() > 0,
        tracks::assembled(t, o) matches Ok(song) ==> t.song.tempo_events.len() == 0 && t.chunks.len() == 0
            && t.requests.len() == 0 ==> song.tempo_events.len() == 1 && song.tempo_events[0].bpm
            == 120 && song.tempo_events[0].at == fraction::whole(0),
{
    if t.chunks.len() == 0 && t.requests.len() == 0 {
        assert(tracks::track_order(t) =~= Seq::empty());
    }
}

} // verus!
