//! From the bytes of a source file to its text.

use vstd::prelude::*;
use vstd::slice::slice_subrange;
use vstd::utf8::*;

use crate::ir::EncodingChoice;
use crate::parser::statements;
use crate::parser::statements::{
    find_comment, parse_msxplay_loop_count, smf_comment_body, strip_normal_comment,
};
use crate::text;
use crate::text::{
    CharClass, after, char_at, chars_of, copy_text, join2, push_chars, split_lines, string_of,
};
use crate::views;

verus! {

// ---------------------------------------------------------------------------
// Encodings
// ---------------------------------------------------------------------------
/// The text that the Shift_JIS decoder of `encoding_rs` gives for bytes, and
/// whether it replaces malformed sequences in them.
pub uninterp spec fn shift_jis_decoded(bytes: Seq<u8>) -> (Seq<char>, bool);

/// The message of the error with which `std::str::from_utf8` refuses bytes.
pub uninterp spec fn utf8_error(bytes: Seq<u8>) -> Seq<char>;

/// `encoding_rs::SHIFT_JIS.decode` gives a text for any bytes, and tells whether
/// it replaced malformed sequences. A byte order mark selects another encoding,
/// as it does there. Which text it gives is not stated here.
#[verifier::external_body]
fn decode_shift_jis(bytes: &[u8]) -> (r: (String, bool))
    ensures
        (r.0@, r.1) == shift_jis_decoded(bytes@),
{
    let (text, _, malformed) = encoding_rs::SHIFT_JIS.decode(bytes);
    (text.into_owned(), malformed)
}

/// `std::str::from_utf8` gives the text of bytes that are valid UTF-8, and
/// refuses others with an error that is shown as its message.
#[verifier::external_body]
fn decode_utf8_text(bytes: &[u8]) -> (r: Result<String, String>)
    ensures
        match r {
            Ok(s) => valid_utf8(bytes@) && s@ == decode_utf8(bytes@),
            Err(e) => !valid_utf8(bytes@) && e@ == utf8_error(bytes@),
        },
{
    std::str::from_utf8(bytes).map(|s| s.to_string()).map_err(|e| e.to_string())
}

// ---------------------------------------------------------------------------
// Lines and comments
// ---------------------------------------------------------------------------
/// The text with a line feed for each line end, from `pos` on.
pub open spec fn line_feeds_from(s: Seq<char>, pos: int) -> Seq<char>
    decreases s.len() - pos,
{
    if pos < 0 || pos >= s.len() {
        Seq::empty()
    } else if s[pos] == '\r' {
        if text::at(s, pos + 1, '\n') {
            seq!['\n'] + line_feeds_from(s, pos + 2)
        } else {
            seq!['\n'] + line_feeds_from(s, pos + 1)
        }
    } else {
        seq![s[pos]] + line_feeds_from(s, pos + 1)
    }
}

/// The first `n` lines without their comments, each with a line feed.
pub open spec fn uncommented(lines: Seq<Seq<char>>, n: int) -> Seq<char>
    decreases n,
{
    if n <= 0 || n > lines.len() {
        Seq::empty()
    } else {
        uncommented(lines, n - 1) + statements::without_comment(lines[n - 1]).push('\n')
    }
}

/// A text without comments.
pub open spec fn without_comments(s: Seq<char>) -> Seq<char> {
    uncommented(text::text_lines(s), text::text_lines(s).len() as int)
}

/// Whether the reader of a source heeds a comment: one that requests a MIDI event
/// or sets how often endless loops are played.
pub open spec fn is_heeded(body: Seq<char>) -> bool {
    statements::smf_comment(body) is Some || statements::comment_loop_count(body) is Some
}

/// A line as it is loaded: without its comment, unless that is heeded.
pub open spec fn loaded_line(line: Seq<char>) -> Seq<char> {
    let start = statements::comment_start(line, 0, false, false);
    if start < line.len() && is_heeded(line.skip(start + 1)) {
        line
    } else {
        line.take(start)
    }
}

/// The first `n` lines as they are loaded, each with a line feed.
pub open spec fn loaded_lines(lines: Seq<Seq<char>>, n: int) -> Seq<char>
    decreases n,
{
    if n <= 0 || n > lines.len() {
        Seq::empty()
    } else {
        loaded_lines(lines, n - 1) + loaded_line(lines[n - 1]).push('\n')
    }
}

/// A text as it is loaded: comments that nothing heeds are dropped.
pub open spec fn source_text(s: Seq<char>) -> Seq<char> {
    loaded_lines(text::text_lines(s), text::text_lines(s).len() as int)
}

fn normalize_line_ends(s: &[char]) -> (r: Vec<char>)
    ensures
        r@ == line_feeds_from(s@, 0),
{
    let mut out: Vec<char> = Vec::new();
    let mut p: usize = 0;
    assert(out@ + line_feeds_from(s@, 0) =~= line_feeds_from(s@, 0));
    while p < s.len()
        invariant
            p <= s@.len(),
            line_feeds_from(s@, 0) == out@ + line_feeds_from(s@, p as int),
        decreases s@.len() - p,
    {
        let ghost before = out@;
        if s[p] == '\r' {
            out.push('\n');
            if char_at(s, p + 1, '\n') {
                assert(before + (seq!['\n'] + line_feeds_from(s@, p + 2)) =~= out@
                    + line_feeds_from(s@, p + 2));
                p += 2;
            } else {
                assert(before + (seq!['\n'] + line_feeds_from(s@, p + 1)) =~= out@
                    + line_feeds_from(s@, p + 1));
                p += 1;
            }
        } else {
            out.push(s[p]);
            assert(before + (seq![s@[p as int]] + line_feeds_from(s@, p + 1)) =~= out@
                + line_feeds_from(s@, p + 1));
            p += 1;
        }
    }
    assert(out@ + line_feeds_from(s@, p as int) =~= out@);
    out
}

fn strip_comment_chars(s: &[char]) -> (r: Vec<char>)
    ensures
        r@ == without_comments(s@),
{
    let lines = split_lines(s);
    let ghost all = text::text_lines(s@);
    let mut out: Vec<char> = Vec::new();
    let mut i: usize = 0;
    assert(out@ =~= Seq::empty());
    while i < lines.len()
        invariant
            i <= lines@.len(),
            text::texts(lines@) == all,
            out@ == uncommented(all, i as int),
        decreases lines@.len() - i,
    {
        let ghost before = out@;
        assert(all[i as int] == lines@[i as int]@);
        let code = strip_normal_comment(&lines[i]);
        push_chars(&mut out, code);
        out.push('\n');
        assert(before + code@.push('\n') =~= out@);
        i += 1;
    }
    out
}

/// The text without its comments: on each line, what follows a semicolon
/// outside quotes.
pub fn strip_comments(input: &str) -> (r: String)
    ensures
        r@ == without_comments(input@),
{
    let c = chars_of(input);
    let out = strip_comment_chars(&c);
    string_of(&out)
}

fn strip_idle_comment(line: &[char]) -> (r: &[char])
    ensures
        r@ == loaded_line(line@),
{
    let start = find_comment(line);
    if start < line.len() {
        let body = after(line, start + 1);
        if smf_comment_body(body).is_some() || parse_msxplay_loop_count(body).is_some() {
            return line;
        }
    }
    slice_subrange(line, 0, start)
}

/// The text without the comments that nothing heeds.
fn strip_idle_comments(s: &[char]) -> (r: Vec<char>)
    ensures
        r@ == source_text(s@),
{
    let lines = split_lines(s);
    let ghost all = text::text_lines(s@);
    let mut out: Vec<char> = Vec::new();
    let mut i: usize = 0;
    assert(out@ =~= Seq::empty());
    while i < lines.len()
        invariant
            i <= lines@.len(),
            text::texts(lines@) == all,
            out@ == loaded_lines(all, i as int),
        decreases lines@.len() - i,
    {
        let ghost before = out@;
        assert(all[i as int] == lines@[i as int]@);
        let code = strip_idle_comment(&lines[i]);
        push_chars(&mut out, code);
        out.push('\n');
        assert(before + code@.push('\n') =~= out@);
        i += 1;
    }
    out
}

// ---------------------------------------------------------------------------
// Loading
// ---------------------------------------------------------------------------
#[derive(Debug)]
pub struct LoadedSource {
    pub text: String,
    pub encoding_used: String,
    pub warnings: Vec<String>,
}

#[verifier::ext_equal]
pub struct LoadedView {
    pub text: Seq<char>,
    pub encoding_used: Seq<char>,
    pub warnings: Seq<Seq<char>>,
}

impl DeepView for LoadedSource {
    type V = LoadedView;

    open spec fn deep_view(&self) -> LoadedView {
        LoadedView {
            text: self.text@,
            encoding_used: self.encoding_used@,
            warnings: views::all_views(self.warnings@),
        }
    }
}

/// A decoded text made ready to be read.
pub open spec fn loaded(text: Seq<char>, encoding: Seq<char>, warning: Option<Seq<char>>) ->
    LoadedView {
    LoadedView {
        text: source_text(line_feeds_from(text, 0)),
        encoding_used: encoding,
        warnings: match warning {
            Some(w) => seq![w],
            None => Seq::empty(),
        },
    }
}

/// A text that the Shift_JIS decoder gave, made ready to be read; replaced
/// sequences are warned of.
pub open spec fn shift_jis_loaded(decoded: (Seq<char>, bool), found_out: bool) -> LoadedView {
    loaded(
        decoded.0,
        "shift_jis"@,
        if !decoded.1 {
            None
        } else if found_out {
            Some("auto encoding selected Shift-JIS fallback with malformed byte replacements"@)
        } else {
            Some("Shift-JIS decoder replaced malformed byte sequences"@)
        },
    )
}

/// What decoding gives, from what the Shift_JIS decoder and the UTF-8 error say
/// about the bytes.
pub open spec fn decoded(
    bytes: Seq<u8>,
    encoding: EncodingChoice,
    shift_jis: (Seq<char>, bool),
    utf8_message: Seq<char>,
) -> Result<LoadedView, Seq<char>> {
    if encoding != EncodingChoice::ShiftJis && valid_utf8(bytes) {
        Ok(loaded(decode_utf8(bytes), "utf-8"@, None))
    } else if encoding == EncodingChoice::Utf8 {
        Err("input is not valid UTF-8: "@ + utf8_message)
    } else {
        Ok(shift_jis_loaded(shift_jis, encoding == EncodingChoice::Auto))
    }
}

/// Makes a decoded text ready to be read.
pub fn load_text(text: &str, encoding: &str, warning: Option<&str>) -> (r: LoadedSource)
    ensures
        r.deep_view() == loaded(text@, encoding@, warning.deep_view()),
{
    let c = chars_of(text);
    let normal = normalize_line_ends(&c);
    let code = strip_idle_comments(&normal);
    let mut warnings: Vec<String> = Vec::new();
    match warning {
        Some(w) => {
            warnings.push(copy_text(w));
            assert(views::all_views(warnings@) =~= seq![w@]);
        },
        None => {
            assert(views::all_views(warnings@) =~= Seq::empty());
        },
    }
    LoadedSource { text: string_of(&code), encoding_used: copy_text(encoding), warnings }
}

/// Makes a text that the Shift_JIS decoder gave ready to be read.
pub fn load_shift_jis(text: &str, malformed: bool, found_out: bool) -> (r: LoadedSource)
    ensures
        r.deep_view() == shift_jis_loaded((text@, malformed), found_out),
{
    let warning = if !malformed {
        None
    } else if found_out {
        Some("auto encoding selected Shift-JIS fallback with malformed byte replacements")
    } else {
        Some("Shift-JIS decoder replaced malformed byte sequences")
    };
    load_text(text, "shift_jis", warning)
}

/// Decodes a source file. Bytes that are not valid UTF-8 are read as Shift_JIS
/// where the encoding is to be found out.
pub fn decode_bytes(bytes: &[u8], encoding: EncodingChoice) -> (r: Result<LoadedSource, String>)
    ensures
        views::result_view(r) == decoded(
            bytes@,
            encoding,
            shift_jis_decoded(bytes@),
            utf8_error(bytes@),
        ),
{
    if encoding != EncodingChoice::ShiftJis {
        match decode_utf8_text(bytes) {
            Ok(text) => {
                return Ok(load_text(text.as_str(), "utf-8", None));
            },
            Err(e) => {
                if encoding == EncodingChoice::Utf8 {
                    return Err(join2("input is not valid UTF-8: ", e.as_str()));
                }
            },
        }
    }
    let (text, malformed) = decode_shift_jis(bytes);
    Ok(load_shift_jis(text.as_str(), malformed, encoding == EncodingChoice::Auto))
}

/// A text that is stored as UTF-8 is loaded as that text, unless Shift_JIS is
/// asked for.
pub proof fn utf8_text_is_loaded(
    text: Seq<char>,
    encoding: EncodingChoice,
    shift_jis: (Seq<char>, bool),
    utf8_message: Seq<char>,
)
    requires
        encoding != EncodingChoice::ShiftJis,
    ensures
        decoded(encode_utf8(text), encoding, shift_jis, utf8_message) == Ok::<LoadedView, Seq<char>>(
            loaded(text, "utf-8"@, None),
        ),
{
    encode_utf8_valid_utf8(text);
    encode_utf8_decode_utf8(text);
}

/// Every line end becomes a line feed: no carriage return is left.
pub proof fn no_carriage_return_is_left(s: Seq<char>, pos: int)
    ensures
        forall|i: int|
            0 <= i < line_feeds_from(s, pos).len() ==> #[trigger] line_feeds_from(s, pos)[i]
                != '\r',
    decreases s.len() - pos,
{
    if 0 <= pos < s.len() {
        let next = if s[pos] == '\r' && text::at(s, pos + 1, '\n') {
            pos + 2
        } else {
            pos + 1
        };
        no_carriage_return_is_left(s, next);
        let all = line_feeds_from(s, pos);
        let rest = line_feeds_from(s, next);
        assert forall|i: int| 0 <= i < all.len() implies #[trigger] all[i] != '\r' by {
            if i > 0 {
                assert(all[i] == rest[i - 1]);
            }
        }
    }
}

/// How many line feeds a text has.
pub open spec fn feeds(s: Seq<char>) -> nat
    decreases s.len(),
{
    if s.len() == 0 {
        0
    } else {
        feeds(s.drop_last()) + if s.last() == '\n' {
            1nat
        } else {
            0
        }
    }
}

proof fn feeds_joined(a: Seq<char>, b: Seq<char>)
    ensures
        feeds(a + b) == feeds(a) + feeds(b),
    decreases b.len(),
{
    if b.len() == 0 {
        assert(a + b =~= a);
    } else {
        assert((a + b).drop_last() =~= a + b.drop_last());
        feeds_joined(a, b.drop_last());
    }
}

proof fn no_feeds(s: Seq<char>)
    requires
        forall|i: int| 0 <= i < s.len() ==> s[i] != '\n',
    ensures
        feeds(s) == 0,
    decreases s.len(),
{
    if s.len() > 0 {
        no_feeds(s.drop_last());
    }
}

/// A line holds no line feed.
pub proof fn lines_hold_no_feeds(s: Seq<char>, pos: int)
    ensures
        forall|i: int, k: int|
            0 <= i < text::lines_from(s, pos).len() && 0 <= k < text::lines_from(s, pos)[i].len()
                ==> #[trigger] text::lines_from(s, pos)[i][k] != '\n',
    decreases s.len() - pos,
{
    if 0 <= pos < s.len() {
        text::run_end_is_longest(s, pos, CharClass::LineRest);
        let end = text::run_end(s, pos, CharClass::LineRest);
        let lines = text::lines_from(s, pos);
        if end < s.len() {
            let rest = text::lines_from(s, end + 1);
            lines_hold_no_feeds(s, end + 1);
            assert forall|i: int, k: int|
                0 <= i < lines.len() && 0 <= k < lines[i].len() implies #[trigger] lines[i][k]
                != '\n' by {
                if i == 0 {
                    assert(lines[0][k] == s[pos + k]);
                } else {
                    assert(lines[i] == rest[i - 1]);
                    assert(rest[i - 1][k] != '\n');
                }
            }
        } else {
            assert forall|i: int, k: int|
                0 <= i < lines.len() && 0 <= k < lines[i].len() implies #[trigger] lines[i][k]
                != '\n' by {
                assert(lines[0][k] == s[pos + k]);
            }
        }
    }
}

proof fn comment_start_bounds(s: Seq<char>, pos: int, quoted: bool, escaped: bool)
    requires
        0 <= pos <= s.len(),
    ensures
        pos <= statements::comment_start(s, pos, quoted, escaped) <= s.len(),
    decreases s.len() - pos,
{
    if pos < s.len() {
        comment_start_bounds(s, pos + 1, quoted, false);
        comment_start_bounds(s, pos + 1, quoted, true);
        comment_start_bounds(s, pos + 1, !quoted, false);
    }
}

proof fn uncommented_lines(lines: Seq<Seq<char>>, n: int)
    requires
        0 <= n <= lines.len(),
        forall|i: int, k: int|
            0 <= i < lines.len() && 0 <= k < lines[i].len() ==> #[trigger] lines[i][k] != '\n',
    ensures
        feeds(uncommented(lines, n)) == n,
        feeds(loaded_lines(lines, n)) == n,
    decreases n,
{
    if n > 0 {
        uncommented_lines(lines, n - 1);
        let line = lines[n - 1];
        let code = statements::without_comment(line);
        let kept = loaded_line(line);
        comment_start_bounds(line, 0, false, false);
        assert forall|k: int| 0 <= k < code.len() implies code[k] != '\n' by {
            assert(code[k] == lines[n - 1][k]);
        }
        assert forall|k: int| 0 <= k < kept.len() implies kept[k] != '\n' by {
            assert(kept[k] == lines[n - 1][k]);
        }
        no_feeds(code);
        no_feeds(kept);
        assert(code.push('\n').drop_last() =~= code);
        assert(kept.push('\n').drop_last() =~= kept);
        feeds_joined(uncommented(lines, n - 1), code.push('\n'));
        feeds_joined(loaded_lines(lines, n - 1), kept.push('\n'));
    }
}

/// Comments go, lines stay: a text without its comments, and a text as it is
/// loaded, has as many lines as it had before.
pub proof fn lines_stay(s: Seq<char>)
    ensures
        feeds(without_comments(s)) == text::text_lines(s).len(),
        feeds(source_text(s)) == text::text_lines(s).len(),
{
    lines_hold_no_feeds(s, 0);
    uncommented_lines(text::text_lines(s), text::text_lines(s).len() as int);
}

/// A comment that nothing heeds is dropped when a line is loaded; one that is
/// heeded stays.
pub proof fn heeded_comments_stay(code: Seq<char>, body: Seq<char>)
    requires
        statements::comment_start(code + seq![';'] + body, 0, false, false) == code.len(),
    ensures
        loaded_line(code + seq![';'] + body) == if is_heeded(body) {
            code + seq![';'] + body
        } else {
            code
        },
{
    let line = code + seq![';'] + body;
    assert(line.skip(code.len() as int + 1) =~= body);
    assert(line.take(code.len() as int) =~= code);
}

proof fn comment_stays_away(s: Seq<char>, c: int, pos: int, quoted: bool, escaped: bool)
    requires
        0 <= pos <= c <= s.len(),
        statements::comment_start(s, pos, quoted, escaped) == c,
    ensures
        statements::comment_start(s.take(c), pos, quoted, escaped) == c,
    decreases c - pos,
{
    let t = s.take(c);
    if pos < c {
        assert(t[pos] == s[pos]);
        if escaped {
            comment_stays_away(s, c, pos + 1, quoted, false);
        } else if s[pos] == '\\' && quoted {
            comment_stays_away(s, c, pos + 1, quoted, true);
        } else if s[pos] == '"' {
            comment_stays_away(s, c, pos + 1, !quoted, false);
        } else {
            comment_stays_away(s, c, pos + 1, quoted, false);
        }
    }
}

/// The lines without their comments.
pub open spec fn bare_lines(lines: Seq<Seq<char>>) -> Seq<Seq<char>> {
    Seq::new(lines.len(), |i: int| statements::without_comment(lines[i]))
}

proof fn bare_lines_read_back(lines: Seq<Seq<char>>, n: int)
    requires
        0 <= n <= lines.len(),
        forall|i: int, k: int|
            0 <= i < lines.len() && 0 <= k < lines[i].len() ==> #[trigger] lines[i][k] != '\n',
        forall|i: int|
            0 <= i < lines.len() ==> text::without_cr(statements::without_comment(#[trigger] lines[i]))
                == statements::without_comment(lines[i]),
    ensures
        text::ends_a_line(uncommented(lines, n)),
        text::text_lines(uncommented(lines, n)) == bare_lines(lines).take(n),
        uncommented(bare_lines(lines), n) == uncommented(lines, n),
    decreases n,
{
    if n > 0 {
        bare_lines_read_back(lines, n - 1);
        let line = lines[n - 1];
        let bare = statements::without_comment(line);
        comment_start_bounds(line, 0, false, false);
        assert forall|k: int| 0 <= k < bare.len() implies bare[k] != '\n' by {
            assert(bare[k] == lines[n - 1][k]);
        }
        comment_stays_away(line, statements::comment_start(line, 0, false, false), 0, false, false);
        assert(statements::without_comment(bare) =~= bare);
        text::joined_lines(uncommented(lines, n - 1), bare.push('\n'));
        text::one_line(bare);
        assert(bare_lines(lines)[n - 1] == bare);
        assert(bare_lines(lines).take(n) =~= bare_lines(lines).take(n - 1) + seq![bare]);
    } else {
        assert(bare_lines(lines).take(0) =~= Seq::<Seq<char>>::empty());
    }
}

/// A text without comments has none to drop. Where a carriage return stands right
/// in front of a comment, it ends its line once the comment is gone, and goes
/// with the next pass.
pub proof fn comments_go_at_once(s: Seq<char>)
    requires
        forall|i: int|
            0 <= i < text::text_lines(s).len() ==> text::without_cr(
                statements::without_comment(#[trigger] text::text_lines(s)[i]),
            ) == statements::without_comment(text::text_lines(s)[i]),
    ensures
        without_comments(without_comments(s)) == without_comments(s),
{
    let lines = text::text_lines(s);
    let n = lines.len() as int;
    lines_hold_no_feeds(s, 0);
    bare_lines_read_back(lines, n);
    assert(bare_lines(lines).take(n) =~= bare_lines(lines));
}

} // verus!
