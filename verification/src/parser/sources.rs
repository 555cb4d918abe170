//! Laws of whole sources: what the order of statements and tracks rests on.

use vstd::prelude::*;

use crate::fraction::Frac;
use crate::ir::{OptionsView, TrackIrView};
use crate::parser;
use crate::parser::Effect;
use crate::parser::definitions::{ChunkView, TopView, TrackRequestView};
use crate::parser::invariants;
use crate::parser::loops;
use crate::parser::statements;
use crate::parser::statements::StatementView;
use crate::parser::tracks;
use crate::parser::tracks::ReadTracks;
use crate::text;
use crate::text::CharClass;

verus! {

// ---------------------------------------------------------------------------
// Statements of joined sources
// ---------------------------------------------------------------------------
/// How many braces are open behind the lines from `idx` on.
pub open spec fn depth_after(lines: Seq<Seq<char>>, idx: int, depth: int) -> int
    decreases lines.len() - idx,
{
    if idx < 0 || idx >= lines.len() {
        depth
    } else {
        let level = depth + statements::nesting(lines[idx], 0, false, false, '{', '}');
        depth_after(
            lines,
            idx + 1,
            if level <= 0 {
                0
            } else {
                level
            },
        )
    }
}

/// A text behind which a statement begins: it ends with a line, and no brace is
/// open.
pub open spec fn ends_a_statement(s: Seq<char>) -> bool {
    text::ends_a_line(s) && depth_after(text::text_lines(s), 0, 0) == 0
}

proof fn nesting_needs_text(s: Seq<char>)
    ensures
        s.len() == 0 ==> statements::nesting(s, 0, false, false, '{', '}') == 0,
{
}

proof fn statements_begin_anywhere(lines: Seq<Seq<char>>, idx: int, l: usize, m: usize)
    ensures
        statements::statements_from(lines, idx, Seq::empty(), l, 0) == statements::statements_from(
            lines,
            idx,
            Seq::empty(),
            m,
            0,
        ),
{
}

proof fn statements_in_front(
    a: Seq<Seq<char>>,
    b: Seq<Seq<char>>,
    idx: int,
    open: Seq<char>,
    line: usize,
    depth: int,
)
    requires
        0 <= idx <= a.len(),
        0 <= depth,
        depth == 0 <==> open.len() == 0,
        depth_after(a, idx, depth) == 0,
    ensures
        statements::statements_from(a + b, idx, open, line, depth) == statements::statements_from(
            a,
            idx,
            open,
            line,
            depth,
        ) + statements::statements_from(a + b, a.len() as int, Seq::empty(), 1, 0),
    decreases a.len() - idx,
{
    let rest = statements::statements_from(a + b, a.len() as int, Seq::empty(), 1, 0);
    if idx < a.len() {
        assert((a + b)[idx] == a[idx]);
        let first = if open.len() == 0 {
            (idx + 1) as usize
        } else {
            line
        };
        let joined = if open.len() == 0 {
            a[idx]
        } else {
            open.push('\n') + a[idx]
        };
        let level = depth + statements::nesting(a[idx], 0, false, false, '{', '}');
        nesting_needs_text(a[idx]);
        if level <= 0 {
            statements_in_front(a, b, idx + 1, Seq::empty(), first, 0);
            let one = seq![StatementView { line: first, text: joined }];
            let more = statements::statements_from(a, idx + 1, Seq::empty(), first, 0);
            assert(one + (more + rest) =~= one + more + rest);
        } else {
            statements_in_front(a, b, idx + 1, joined, first, level);
        }
    } else {
        assert(open =~= Seq::<char>::empty());
        statements_begin_anywhere(a + b, idx, line, 1);
        assert(text::trim(Seq::<char>::empty()).len() == 0) by {
            text::run_end_is_longest(Seq::<char>::empty(), 0, CharClass::Space);
        }
        assert(statements::statements_from(a, idx, open, line, depth) + rest =~= rest);
    }
}

/// The statements of a text behind another that ends a statement.
proof fn joined_statements(a: Seq<char>, b: Seq<char>)
    requires
        ends_a_statement(a),
    ensures
        statements::statements(a + b) == statements::statements(a) + statements::statements_from(
            text::text_lines(a) + text::text_lines(b),
            text::text_lines(a).len() as int,
            Seq::empty(),
            1,
            0,
        ),
{
    text::joined_lines(a, b);
    statements_in_front(text::text_lines(a), text::text_lines(b), 0, Seq::empty(), 1, 0);
}

proof fn statements_of_equal_lines(
    a: Seq<Seq<char>>,
    b: Seq<Seq<char>>,
    idx: int,
    open: Seq<char>,
    line: usize,
    depth: int,
)
    requires
        a.len() == b.len(),
        0 <= idx <= a.len(),
        forall|i: int| idx <= i < a.len() ==> #[trigger] a[i] == b[i],
    ensures
        statements::statements_from(a, idx, open, line, depth) == statements::statements_from(b, idx, open, line, depth),
    decreases a.len() - idx,
{
    if idx < a.len() {
        assert(a[idx] == b[idx]);
        let first = if open.len() == 0 {
            (idx + 1) as usize
        } else {
            line
        };
        let joined = if open.len() == 0 {
            a[idx]
        } else {
            open.push('\n') + a[idx]
        };
        let level = depth + statements::nesting(a[idx], 0, false, false, '{', '}');
        if level <= 0 {
            statements_of_equal_lines(a, b, idx + 1, Seq::empty(), first, 0);
        } else {
            statements_of_equal_lines(a, b, idx + 1, joined, first, level);
        }
    }
}

/// Reading a list of statements and then another.
proof fn statements_run_on(
    a: Seq<StatementView>,
    b: Seq<StatementView>,
    i: int,
    t: TopView,
    o: OptionsView,
)
    requires
        0 <= i <= a.len(),
    ensures
        parser::run_statements(a + b, i, t, o) == match parser::run_statements(a, i, t, o) {
            Ok(u) => if stops(a, i, t, o) {
                Ok(u)
            } else {
                parser::run_statements(a + b, a.len() as int, u, o)
            },
            Err(e) => Err(e),
        },
    decreases a.len() - i,
{
    if i < a.len() {
        assert((a + b)[i] == a[i]);
        if let Effect::Go(u) = parser::statement(t, a[i], o) {
            statements_run_on(a, b, i + 1, u, o);
        }
    }
}

/// Whether one of the statements from `i` on ends the source.
pub open spec fn stops(all: Seq<StatementView>, i: int, t: TopView, o: OptionsView) -> bool
    decreases all.len() - i,
{
    if i < 0 || i >= all.len() {
        false
    } else {
        match parser::statement(t, all[i], o) {
            Effect::Go(u) => stops(all, i + 1, u, o),
            Effect::End => true,
            Effect::Fail(_) => false,
        }
    }
}

// ---------------------------------------------------------------------------
// The end of a source
// ---------------------------------------------------------------------------
/// A line that ends the source: a statement that begins with `#end`.
pub open spec fn is_end(line: Seq<char>) -> bool {
    let raw = text::trim(line);
    &&& statements::leading_comment(raw) is None
    &&& statements::track_line(raw) is None
    &&& "#end"@.is_prefix_of(text::lower_all(text::trim(statements::without_comment(raw))))
    &&& statements::nesting(line, 0, false, false, '{', '}') <= 0
}

proof fn end_ends(t: TopView, line: Seq<char>, number: usize, o: OptionsView)
    requires
        is_end(line),
    ensures
        parser::statement(t, StatementView { line: number, text: line }, o) is End,
{
    reveal_strlit("#end");
    let raw = text::trim(line);
    if raw.len() == 0 {
        assert(statements::without_comment(raw) =~= Seq::<char>::empty());
        assert(text::trim(Seq::<char>::empty()).len() == 0) by {
            text::run_end_is_longest(Seq::<char>::empty(), 0, CharClass::Space);
        }
    }
}

/// The plain word is such a line.
pub proof fn the_word_end_is_an_end()
    ensures
        is_end("#end"@),
{
    reveal_strlit("#end");
    let s = "#end"@;
    assert(text::trim_start(s) =~= s);
    assert(text::trim(s) == s);
    reveal_with_fuel(statements::comment_start, 6);
    reveal_with_fuel(statements::nesting, 6);
    assert(statements::without_comment(s) =~= s);
    assert(text::lower_all(s) =~= s);
    assert(!statements::is_selector(s[0]));
}

/// Nothing counts behind the end of a source.
pub proof fn nothing_counts_after_the_end(
    a: Seq<char>,
    line: Seq<char>,
    b: Seq<char>,
    o: OptionsView,
)
    requires
        ends_a_statement(a),
        !line.contains('\n'),
        is_end(text::without_cr(line)),
    ensures
        parser::parsed(a + line.push('\n') + b, o) == parser::parsed(a, o),
{
    let c = line.push('\n') + b;
    let end = text::without_cr(line);
    assert(a + line.push('\n') + b =~= a + c);
    joined_statements(a, c);
    text::joined_lines(line.push('\n'), b);
    text::one_line(line);
    let lines = text::text_lines(a) + text::text_lines(c);
    let n = text::text_lines(a).len() as int;
    assert(text::text_lines(c)[0] == end);
    assert(lines[n] == end);
    let first = StatementView { line: (n + 1) as usize, text: end };
    let rest = statements::statements_from(lines, n, Seq::empty(), 1, 0);
    assert(rest == seq![first] + statements::statements_from(lines, n + 1, Seq::empty(), first.line, 0));
    let all = statements::statements(a);
    let start = TopView::start(o.ppq, o.loop_count);
    statements_run_on(all, rest, 0, start, o);
    assert((all + rest)[all.len() as int] == first);
    if let Ok(u) = parser::run_statements(all, 0, start, o) {
        end_ends(u, end, first.line, o);
    }
}

// ---------------------------------------------------------------------------
// The loop count
// ---------------------------------------------------------------------------
/// A line that holds nothing but a player settings comment with a loop count.
pub open spec fn sets_loop_count(line: Seq<char>) -> bool {
    &&& statements::leading_comment(text::trim(line)) matches Some(body)
    &&& statements::comment_loop_count(body) is Some
}

proof fn comments_open_nothing(s: Seq<char>, pos: int, at: int)
    requires
        0 <= pos <= at < s.len(),
        s[at] == ';',
        forall|i: int| pos <= i < at ==> text::is_space(#[trigger] s[i]),
    ensures
        statements::nesting(s, pos, false, false, '{', '}') == 0,
    decreases at - pos,
{
    if pos < at {
        assert(text::is_space(s[pos]));
        comments_open_nothing(s, pos + 1, at);
    }
}

proof fn trim_end_is_in_front(s: Seq<char>)
    ensures
        text::trim_end(s).len() <= s.len(),
        text::trim_end(s) == s.take(text::trim_end(s).len() as int),
    decreases s.len(),
{
    if s.len() > 0 && text::is_space(s.last()) {
        trim_end_is_in_front(s.drop_last());
        let n = text::trim_end(s).len() as int;
        assert(s.drop_last().take(n) =~= s.take(n));
    } else {
        assert(s.take(s.len() as int) =~= s);
    }
}

proof fn trimmed_begins(s: Seq<char>)
    ensures
        text::trim(s).len() > 0 ==> text::ws_end(s, 0) < s.len() && text::trim(s)[0] == s[text::ws_end(s, 0)]
            && !text::is_space(text::trim(s)[0]),
        forall|i: int| 0 <= i < text::ws_end(s, 0) ==> text::is_space(#[trigger] s[i]),
        0 <= text::ws_end(s, 0) <= s.len(),
{
    text::run_end_is_longest(s, 0, CharClass::Space);
    trim_end_is_in_front(text::trim_start(s));
}

proof fn comment_line_opens_nothing(line: Seq<char>)
    requires
        statements::leading_comment(text::trim(line)) is Some,
    ensures
        statements::nesting(line, 0, false, false, '{', '}') == 0,
{
    let raw = text::trim(line);
    trimmed_begins(line);
    text::run_end_is_longest(raw, 0, CharClass::Space);
    if raw.len() > 0 {
        assert(text::ws_end(raw, 0) == 0);
    }
    comments_open_nothing(line, 0, text::ws_end(line, 0));
}

proof fn setting_changes_nothing(t: TopView, line: Seq<char>, number: usize, o: OptionsView)
    requires
        t.loop_count is Some,
        sets_loop_count(line),
    ensures
        parser::statement(t, StatementView { line: number, text: line }, o) == Effect::Go(t),
{
    reveal_strlit("@smf");
    let body = statements::leading_comment(text::trim(line))->0;
    let b = text::trim_start(body);
    assert(b.len() > 0 && b[0] == '[');
    assert("@smf"@[0] == '@');
    assert(statements::smf_comment(body) is None);
    text::run_end_is_longest(text::trim(line), 0, CharClass::Space);
}

proof fn statement_keeps_loop_count(t: TopView, st: StatementView, o: OptionsView)
    requires
        t.loop_count is Some,
    ensures
        parser::statement(t, st, o) matches Effect::Go(u) ==> u.loop_count == t.loop_count,
{
    let raw = text::trim(st.text);
    if statements::leading_comment(raw) is None {
        match statements::track_line(raw) {
            Some((selectors, body)) => {
                invariants::chunks_leave_requests(t, selectors, selectors.len() as int, body, st.line, o);
            },
            None => {
                invariants::definitions_leave_requests(t, text::trim(statements::without_comment(raw)), st.line);
            },
        }
    }
}

proof fn loop_count_stays(
    all: Seq<StatementView>,
    i: int,
    t: TopView,
    o: OptionsView,
)
    requires
        t.loop_count is Some,
    ensures
        parser::run_statements(all, i, t, o) matches Ok(u) ==> u.loop_count == t.loop_count,
    decreases all.len() - i,
{
    if 0 <= i < all.len() {
        statement_keeps_loop_count(t, all[i], o);
        if let Effect::Go(u) = parser::statement(t, all[i], o) {
            loop_count_stays(all, i + 1, u, o);
        }
    }
}

proof fn statements_run_alike(
    a: Seq<StatementView>,
    b: Seq<StatementView>,
    i: int,
    t: TopView,
    o: OptionsView,
)
    requires
        a.len() == b.len(),
        0 <= i,
        forall|k: int| i <= k < a.len() ==> #[trigger] a[k] == b[k],
    ensures
        parser::run_statements(a, i, t, o) == parser::run_statements(b, i, t, o),
    decreases a.len() - i,
{
    if i < a.len() {
        assert(a[i] == b[i]);
        if let Effect::Go(u) = parser::statement(t, a[i], o) {
            statements_run_alike(a, b, i + 1, u, o);
        }
    }
}

proof fn empty_comment_changes_nothing(t: TopView, number: usize, o: OptionsView)
    requires
        t.loop_count is Some,
    ensures
        parser::statement(t, StatementView { line: number, text: seq![';'] }, o) == Effect::Go(t),
        statements::leading_comment(text::trim(seq![';'])) is Some,
{
    reveal_strlit("@smf");
    let s = seq![';'];
    assert(text::trim_start(s) =~= s);
    assert(text::trim(s) == s);
    let body = statements::leading_comment(s)->0;
    assert(body =~= Seq::<char>::empty());
    assert(text::trim_start(body) =~= Seq::<char>::empty());
    assert("@smf"@.len() == 4);
}

/// The statements of the second of two parts with one comment line between them.
spec fn second_part(a: Seq<char>, b: Seq<char>) -> Seq<StatementView> {
    statements::statements_from(
        text::text_lines(a) + seq![Seq::empty()] + text::text_lines(b),
        text::text_lines(a).len() as int + 1,
        Seq::empty(),
        1,
        0,
    )
}

proof fn comment_between(a: Seq<char>, line: Seq<char>, b: Seq<char>)
    requires
        ends_a_statement(a),
        !line.contains('\n'),
        statements::leading_comment(text::trim(text::without_cr(line))) is Some,
    ensures
        statements::statements(a + line.push('\n') + b) == statements::statements(a) + (seq![
            StatementView {
                line: (text::text_lines(a).len() as int + 1) as usize,
                text: text::without_cr(line),
            },
        ] + second_part(a, b)),
{
    let c = line.push('\n') + b;
    let text = text::without_cr(line);
    assert(a + line.push('\n') + b =~= a + c);
    joined_statements(a, c);
    text::joined_lines(line.push('\n'), b);
    text::one_line(line);
    let lines = text::text_lines(a) + text::text_lines(c);
    let n = text::text_lines(a).len() as int;
    assert(text::text_lines(c)[0] == text);
    assert(lines[n] == text);
    comment_line_opens_nothing(text);
    statements_begin_anywhere(lines, n + 1, (n + 1) as usize, 1);
    let plain = text::text_lines(a) + seq![Seq::empty()] + text::text_lines(b);
    assert(plain.len() == lines.len());
    assert forall|i: int| n + 1 <= i < lines.len() implies #[trigger] lines[i] == plain[i] by {}
    statements_of_equal_lines(lines, plain, n + 1, Seq::empty(), 1, 0);
}

/// Two statements that change nothing can stand for each other.
proof fn idle_statements_are_alike(
    all: Seq<StatementView>,
    x: StatementView,
    y: StatementView,
    tail: Seq<StatementView>,
    t: TopView,
    o: OptionsView,
)
    requires
        parser::run_statements(all, 0, t, o) matches Ok(u) ==> parser::statement(u, x, o) == Effect::Go(u)
            && parser::statement(u, y, o) == Effect::Go(u),
    ensures
        parser::run_statements(all + (seq![x] + tail), 0, t, o) == parser::run_statements(
            all + (seq![y] + tail),
            0,
            t,
            o,
        ),
{
    let n = all.len() as int;
    let a = all + (seq![x] + tail);
    let b = all + (seq![y] + tail);
    statements_run_on(all, seq![x] + tail, 0, t, o);
    statements_run_on(all, seq![y] + tail, 0, t, o);
    assert(a[n] == x && b[n] == y);
    if let Ok(u) = parser::run_statements(all, 0, t, o) {
        assert forall|k: int| n + 1 <= k < a.len() implies #[trigger] a[k] == b[k] by {}
        statements_run_alike(a, b, n + 1, u, o);
    }
}

proof fn same_reading(x: Seq<char>, y: Seq<char>, o: OptionsView)
    requires
        parser::run_statements(statements::statements(x), 0, TopView::start(o.ppq, o.loop_count), o)
            == parser::run_statements(statements::statements(y), 0, TopView::start(o.ppq, o.loop_count), o),
    ensures
        parser::parsed(x, o) == parser::parsed(y, o),
{
}

/// A loop count that is given overrides one in the source: the source is read as
/// with an empty comment in place of the line that sets it.
pub proof fn given_loop_count_overrides(
    a: Seq<char>,
    line: Seq<char>,
    b: Seq<char>,
    o: OptionsView,
)
    requires
        o.loop_count is Some,
        ends_a_statement(a),
        !line.contains('\n'),
        sets_loop_count(text::without_cr(line)),
    ensures
        parser::parsed(a + line.push('\n') + b, o) == parser::parsed(a + seq![';', '\n'] + b, o),
{
    let start = TopView::start(o.ppq, o.loop_count);
    let number = (text::text_lines(a).len() as int + 1) as usize;
    let text = text::without_cr(line);
    let empty = seq![';'];
    assert(empty.push('\n') =~= seq![';', '\n']);
    empty_comment_changes_nothing(start, number, o);
    comment_between(a, line, b);
    comment_between(a, empty, b);
    if let Ok(u) = parser::run_statements(statements::statements(a), 0, start, o) {
        loop_count_stays(statements::statements(a), 0, start, o);
        empty_comment_changes_nothing(u, number, o);
        setting_changes_nothing(u, text, number, o);
    }
    idle_statements_are_alike(
        statements::statements(a),
        StatementView { line: number, text },
        StatementView { line: number, text: empty },
        second_part(a, b),
        start,
        o,
    );
    same_reading(a + line.push('\n') + b, a + empty.push('\n') + b, o);
}

// ---------------------------------------------------------------------------
// The order of tracks
// ---------------------------------------------------------------------------
/// No entry occurs twice.
pub open spec fn all_differ(names: Seq<Seq<char>>) -> bool {
    forall|i: int, j: int|
        #![trigger names[i], names[j]]
        0 <= i < j < names.len() ==> names[i] != names[j]
}

/// The first `n` pieces of MML hold one of a track.
pub open spec fn has_chunk(chunks: Seq<ChunkView>, n: int, track: Seq<char>) -> bool {
    exists|k: int| 0 <= k < n && (#[trigger] chunks[k]).track == track
}

/// The first `n` requests hold one for a track.
pub open spec fn has_request(requests: Seq<TrackRequestView>, n: int, track: Seq<char>) -> bool {
    exists|k: int| 0 <= k < n && (#[trigger] requests[k]).track == track
}

/// The first piece of one track stands in front of every piece of another.
pub open spec fn appears_first(chunks: Seq<ChunkView>, x: Seq<char>, y: Seq<char>) -> bool {
    exists|k: int|
        0 <= k < chunks.len() && (#[trigger] chunks[k]).track == x && !has_chunk(chunks, k, y)
}

proof fn chunk_order_is_by_appearance(chunks: Seq<ChunkView>, n: int, filter: Option<Seq<char>>)
    requires
        0 <= n <= chunks.len(),
    ensures
        ({
            let order = tracks::chunk_order(chunks, n, filter);
            &&& all_differ(order)
            &&& forall|i: int|
                0 <= i < order.len() ==> statements::is_played(filter, #[trigger] order[i]) && has_chunk(
                    chunks,
                    n,
                    order[i],
                )
            &&& forall|x: Seq<char>|
                statements::is_played(filter, x) && #[trigger] has_chunk(chunks, n, x) ==> order.contains(x)
            &&& forall|i: int, j: int|
                #![trigger order[i], order[j]]
                0 <= i < j < order.len() ==> appears_first(chunks, order[i], order[j])
        }),
    decreases n,
{
    if n > 0 {
        chunk_order_is_by_appearance(chunks, n - 1, filter);
        let before = tracks::chunk_order(chunks, n - 1, filter);
        let order = tracks::chunk_order(chunks, n, filter);
        let track = chunks[n - 1].track;
        assert(has_chunk(chunks, n, track));
        assert forall|i: int| 0 <= i < order.len() implies statements::is_played(filter, #[trigger] order[i])
            && has_chunk(chunks, n, order[i]) by {
            if i < before.len() {
                assert(order[i] == before[i]);
                let k = choose|k: int|
                    0 <= k < n - 1 && (#[trigger] chunks[k]).track == before[i];
                assert(chunks[k].track == order[i]);
            }
        }
        assert forall|x: Seq<char>|
            statements::is_played(filter, x) && #[trigger] has_chunk(
                chunks,
                n,
                x,
            ) implies order.contains(x) by {
            let k = choose|k: int| 0 <= k < n && (#[trigger] chunks[k]).track == x;
            if k < n - 1 {
                assert(has_chunk(chunks, n - 1, x));
                let i = choose|i: int| 0 <= i < before.len() && before[i] == x;
                assert(order[i] == x);
            } else if before.contains(x) {
                let i = choose|i: int| 0 <= i < before.len() && before[i] == x;
                assert(order[i] == x);
            } else {
                assert(order.last() == x);
            }
        }
        assert forall|i: int, j: int|
            #![trigger order[i], order[j]]
            0 <= i < j < order.len() implies appears_first(chunks, order[i], order[j]) by {
            assert(order[i] == before[i]);
            if j < before.len() {
                assert(order[j] == before[j]);
            } else {
                assert(has_chunk(chunks, n - 1, before[i]));
                let k = choose|k: int|
                    0 <= k < n - 1 && (#[trigger] chunks[k]).track == before[i];
                if has_chunk(chunks, k, track) {
                    let l = choose|l: int| 0 <= l < k && (#[trigger] chunks[l]).track == track;
                    assert(chunks[l].track == track);
                    assert(has_chunk(chunks, n - 1, track));
                }
                assert(chunks[k].track == order[i] && !has_chunk(chunks, k, order[j]));
            }
        }
    }
}

proof fn place_is_in_range(keys: Seq<Seq<char>>, name: Seq<char>, i: int)
    requires
        0 <= i <= keys.len(),
    ensures
        i <= tracks::place_from(keys, name, i) <= keys.len(),
    decreases keys.len() - i,
{
    if i < keys.len() && tracks::before_from(keys[i], name, 0) {
        place_is_in_range(keys, name, i + 1);
    }
}

proof fn key_is_added(keys: Seq<Seq<char>>, name: Seq<char>, x: Seq<char>)
    ensures
        tracks::with_key(keys, name).contains(x) <==> keys.contains(x) || x == name,
{
    let i = tracks::place_from(keys, name, 0);
    place_is_in_range(keys, name, 0);
    let all = tracks::with_key(keys, name);
    if i < keys.len() && keys[i] == name {
    } else {
        assert(all[i] == name);
        if keys.contains(x) {
            let k = choose|k: int| 0 <= k < keys.len() && keys[k] == x;
            assert(all[if k < i {
                k
            } else {
                k + 1
            }] == x);
        }
        if all.contains(x) && x != name {
            let k = choose|k: int| 0 <= k < all.len() && all[k] == x;
            assert(keys[if k < i {
                k
            } else {
                k - 1
            }] == x);
        }
    }
}

proof fn requests_are_listed(requests: Seq<TrackRequestView>, n: int, x: Seq<char>)
    requires
        0 <= n <= requests.len(),
    ensures
        tracks::request_tracks(requests, n).contains(x) <==> has_request(requests, n, x),
    decreases n,
{
    if n > 0 {
        requests_are_listed(requests, n - 1, x);
        key_is_added(tracks::request_tracks(requests, n - 1), requests[n - 1].track, x);
        if has_request(requests, n - 1, x) {
            let k = choose|k: int| 0 <= k < n - 1 && (#[trigger] requests[k]).track == x;
            assert(requests[k].track == x);
        }
        if requests[n - 1].track == x {
            assert(has_request(requests, n, x));
        }
    }
}

proof fn others_come_after(
    order: Seq<Seq<char>>,
    others: Seq<Seq<char>>,
    n: int,
    filter: Option<Seq<char>>,
)
    requires
        0 <= n <= others.len(),
        all_differ(order),
    ensures
        ({
            let all = tracks::with_tracks(order, others, n, filter);
            &&& all_differ(all)
            &&& order.len() <= all.len()
            &&& forall|i: int| 0 <= i < order.len() ==> all[i] == #[trigger] order[i]
            &&& forall|i: int|
                order.len() <= i < all.len() ==> statements::is_played(filter, #[trigger] all[i])
                    && others.contains(all[i])
            &&& forall|k: int|
                0 <= k < n && statements::is_played(filter, #[trigger] others[k]) ==> all.contains(others[k])
        }),
    decreases n,
{
    if n > 0 {
        others_come_after(order, others, n - 1, filter);
        let before = tracks::with_tracks(order, others, n - 1, filter);
        let all = tracks::with_tracks(order, others, n, filter);
        assert forall|k: int|
            0 <= k < n && statements::is_played(filter, #[trigger] others[k]) implies all.contains(
            others[k],
        ) by {
            if before.contains(others[k]) {
                let i = choose|i: int| 0 <= i < before.len() && before[i] == others[k];
                assert(all[i] == others[k]);
            } else {
                assert(all.last() == others[k]);
            }
        }
        assert forall|i: int| order.len() <= i < all.len() implies statements::is_played(
            filter,
            #[trigger] all[i],
        ) && others.contains(all[i]) by {
            if i < before.len() {
                assert(all[i] == before[i]);
            } else {
                assert(others[n - 1] == all[i]);
            }
        }
        assert forall|i: int| 0 <= i < order.len() implies all[i] == #[trigger] order[i] by {
            assert(before[i] == order[i]);
        }
    }
}

/// The tracks of a song: no track occurs twice, and only tracks that are to be
/// played occur, each that has a piece of MML or a request. Those with MML come
/// first, in the order in which they first appear; the others follow.
pub proof fn tracks_are_ordered_by_appearance(t: TopView)
    ensures
        ({
            let order = tracks::track_order(t);
            let n = tracks::chunk_order(t.chunks, t.chunks.len() as int, t.filter).len() as int;
            &&& all_differ(order)
            &&& n <= order.len()
            &&& forall|x: Seq<char>|
                #![trigger order.contains(x)]
                order.contains(x) <==> statements::is_played(t.filter, x) && (has_chunk(
                    t.chunks,
                    t.chunks.len() as int,
                    x,
                ) || has_request(t.requests, t.requests.len() as int, x))
            &&& forall|i: int|
                0 <= i < order.len() ==> (i < n <==> has_chunk(
                    t.chunks,
                    t.chunks.len() as int,
                    #[trigger] order[i],
                ))
            &&& forall|i: int, j: int|
                #![trigger order[i], order[j]]
                0 <= i < j < n ==> appears_first(t.chunks, order[i], order[j])
        }),
{
    let count = t.chunks.len() as int;
    let first = tracks::chunk_order(t.chunks, count, t.filter);
    let others = tracks::request_tracks(t.requests, t.requests.len() as int);
    let order = tracks::track_order(t);
    chunk_order_is_by_appearance(t.chunks, count, t.filter);
    others_come_after(first, others, others.len() as int, t.filter);
    assert forall|x: Seq<char>| #![trigger order.contains(x)]
        order.contains(x) <==> statements::is_played(t.filter, x) && (has_chunk(t.chunks, count, x)
            || has_request(t.requests, t.requests.len() as int, x)) by {
        requests_are_listed(t.requests, t.requests.len() as int, x);
        if order.contains(x) {
            let i = choose|i: int| 0 <= i < order.len() && order[i] == x;
            if i < first.len() {
                assert(first[i] == x);
            }
        }
        if statements::is_played(t.filter, x) && has_chunk(t.chunks, count, x) {
            let i = choose|i: int| 0 <= i < first.len() && first[i] == x;
            assert(order[i] == first[i]);
        }
        if statements::is_played(t.filter, x) && has_request(t.requests, t.requests.len() as int, x) {
            let k = choose|k: int| 0 <= k < others.len() && others[k] == x;
            assert(order.contains(others[k]));
        }
    }
    assert forall|i: int| 0 <= i < order.len() implies (i < first.len() <==> has_chunk(
        t.chunks,
        count,
        #[trigger] order[i],
    )) by {
        if i < first.len() {
            assert(order[i] == first[i]);
        } else if has_chunk(t.chunks, count, order[i]) {
            assert(statements::is_played(t.filter, order[i]));
            let k = choose|k: int| 0 <= k < first.len() && first[k] == order[i];
            assert(order[k] == first[k]);
        }
    }
    assert forall|i: int, j: int|
        #![trigger order[i], order[j]]
        0 <= i < j < first.len() implies appears_first(t.chunks, order[i], order[j]) by {
        assert(order[i] == first[i] && order[j] == first[j]);
    }
}

/// The names of tracks.
pub open spec fn track_ids(tracks: Seq<TrackIrView>) -> Seq<Seq<char>> {
    Seq::new(tracks.len(), |i: int| tracks[i].source_id)
}

proof fn tracks_are_read_in_order(
    t: TopView,
    o: OptionsView,
    order: Seq<Seq<char>>,
    i: int,
    r: ReadTracks,
)
    requires
        0 <= i <= order.len(),
        track_ids(r.tracks) == order.take(i),
    ensures
        tracks::read_tracks(t, o, order, i, r) matches Ok(q) ==> track_ids(q.tracks) == order,
    decreases order.len() - i,
{
    if i < order.len() {
        if let Ok(q) = tracks::read_track(t, o, order[i], r) {
            assert(track_ids(q.tracks) =~= track_ids(r.tracks).push(order[i]));
            assert(order.take(i + 1) =~= order.take(i).push(order[i]));
            tracks_are_read_in_order(t, o, order, i + 1, q);
        }
    } else {
        assert(order.take(i) =~= order);
    }
}

proof fn loops_keep_ids(
    tracks: Seq<TrackIrView>,
    n: int,
    horizon: Frac,
    loop_count: Option<u32>,
)
    requires
        0 <= n <= tracks.len(),
    ensures
        loops::all_to_horizon(tracks, n, horizon, loop_count) matches Some(done) ==> track_ids(done)
            == track_ids(tracks).take(n),
    decreases n,
{
    if n > 0 {
        loops_keep_ids(tracks, n - 1, horizon, loop_count);
        if let Some(done) = loops::all_to_horizon(tracks, n, horizon, loop_count) {
            let before = loops::all_to_horizon(tracks, n - 1, horizon, loop_count)->0;
            assert(track_ids(done) =~= track_ids(before).push(tracks[n - 1].source_id));
            assert(track_ids(tracks).take(n) =~= track_ids(tracks).take(n - 1).push(
                tracks[n - 1].source_id,
            ));
        }
    } else if let Some(done) = loops::all_to_horizon(tracks, n, horizon, loop_count) {
        assert(track_ids(done) =~= track_ids(tracks).take(n));
    }
}

/// A song has the tracks of its source, in their order.
pub proof fn songs_keep_the_order_of_tracks(t: TopView, o: OptionsView)
    ensures
        tracks::assembled(t, o) matches Ok(song) ==> track_ids(song.tracks) == tracks::track_order(t),
{
    let start = ReadTracks {
        tracks: Seq::empty(),
        tempo_events: t.song.tempo_events,
        diagnostics: t.song.diagnostics,
    };
    let order = tracks::track_order(t);
    assert(track_ids(start.tracks) =~= order.take(0));
    tracks_are_read_in_order(t, o, order, 0, start);
    if let Ok(r) = tracks::read_tracks(t, o, order, 0, start) {
        let n = r.tracks.len() as int;
        if n > 0 {
            loops_keep_ids(r.tracks, n, loops::longest(r.tracks, n), t.loop_count);
            assert(track_ids(r.tracks).take(n) =~= track_ids(r.tracks));
        }
    }
}

/// No track of a song occurs twice.
pub proof fn songs_list_each_track_once(text: Seq<char>, o: OptionsView)
    ensures
        parser::parsed(text, o) matches Ok(song) ==> all_differ(track_ids(song.tracks)),
{
    if let Ok(t) = parser::run_statements(statements::statements(text), 0, TopView::start(o.ppq, o.loop_count), o) {
        songs_keep_the_order_of_tracks(t, o);
        tracks_are_ordered_by_appearance(t);
    }
}

} // verus!
