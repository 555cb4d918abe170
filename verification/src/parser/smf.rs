//! Manual MIDI requests: the `;@smf` comments.

use vstd::prelude::*;
use vstd::slice::slice_subrange;

use crate::fraction::Frac;
use crate::ir::{
    IrEvent, IrEventView, Rational, SmfRequest, SmfRequestView, SourceSpan, SourceSpanView,
};
use crate::smfmap::Numbering;
use crate::text;
use crate::text::{
    CharClass, after, begins_with, begins_with_char, chars_are, chars_of, clamp_i64, copy_text,
    join2, join3, join4, join5, lower_chars, number_text, read_whole, signed_text, skip_class,
    skip_ws, string_of, to_chars,
};
use crate::views;

verus! {

// ---------------------------------------------------------------------------
// Tokens
// ---------------------------------------------------------------------------
/// The rest of a quoted text from `pos` on, with what was read of it before,
/// and the position after its closing quote.
pub open spec fn quoted_rest(s: Seq<char>, pos: int, read: Seq<char>) -> (Seq<char>, int)
    decreases s.len() - pos,
{
    if pos < 0 || pos >= s.len() {
        (read, pos)
    } else if s[pos] == '"' {
        (read, pos + 1)
    } else if s[pos] == '\\' {
        if pos + 1 >= s.len() {
            (read.push('\\'), pos + 1)
        } else {
            quoted_rest(s, pos + 2, unescaped(read, s[pos + 1]))
        }
    } else {
        quoted_rest(s, pos + 1, read.push(s[pos]))
    }
}

/// What a character after a backslash stands for.
pub open spec fn unescaped(read: Seq<char>, c: char) -> Seq<char> {
    if c == '"' || c == '\\' {
        read.push(c)
    } else if c == 'n' {
        read.push('\n')
    } else if c == 't' {
        read.push('\t')
    } else {
        read.push('\\').push(c)
    }
}

/// The token at `pos`, after white space: a quoted text or a word.
pub open spec fn token_at(s: Seq<char>, pos: int) -> Option<(Seq<char>, int)> {
    let start = text::ws_end(s, pos);
    if start >= s.len() {
        None
    } else if s[start] == '"' {
        Some(quoted_rest(s, start + 1, Seq::empty()))
    } else {
        let end = text::run_end(s, start, CharClass::Word);
        Some((s.subrange(start, end), end))
    }
}

proof fn quoted_rest_advances(s: Seq<char>, pos: int, read: Seq<char>)
    requires
        0 <= pos <= s.len(),
    ensures
        pos <= quoted_rest(s, pos, read).1 <= s.len(),
    decreases s.len() - pos,
{
    if pos < s.len() && s[pos] != '"' {
        if s[pos] == '\\' {
            if pos + 1 < s.len() {
                quoted_rest_advances(s, pos + 2, unescaped(read, s[pos + 1]));
            }
        } else {
            quoted_rest_advances(s, pos + 1, read.push(s[pos]));
        }
    }
}

/// A token takes at least one character.
pub proof fn token_advances(s: Seq<char>, pos: int)
    requires
        0 <= pos <= s.len(),
    ensures
        token_at(s, pos) matches Some(t) ==> pos < t.1 <= s.len(),
{
    text::run_end_is_longest(s, pos, CharClass::Space);
    let start = text::ws_end(s, pos);
    if start < s.len() {
        text::run_end_is_longest(s, start, CharClass::Word);
        quoted_rest_advances(s, start + 1, Seq::empty());
        assert(!text::is_space(s[start]));
        assert(text::run_end(s, start, CharClass::Word) == text::run_end(s, start + 1, CharClass::Word));
        text::run_end_is_longest(s, start + 1, CharClass::Word);
    }
}

fn read_quoted(s: &[char], pos: usize) -> (r: (Vec<char>, usize))
    requires
        pos <= s@.len(),
    ensures
        (r.0@, r.1 as int) == quoted_rest(s@, pos as int, Seq::empty()),
        pos <= r.1 <= s@.len(),
{
    let mut out: Vec<char> = Vec::new();
    let mut p: usize = pos;
    while p < s.len()
        invariant
            pos <= p <= s@.len(),
            quoted_rest(s@, pos as int, Seq::empty()) == quoted_rest(s@, p as int, out@),
        decreases s@.len() - p,
    {
        let c = s[p];
        if c == '"' {
            return (out, p + 1);
        }
        if c == '\\' {
            if p + 1 >= s.len() {
                out.push('\\');
                return (out, p + 1);
            }
            let e = s[p + 1];
            if e == '"' || e == '\\' {
                out.push(e);
            } else if e == 'n' {
                out.push('\n');
            } else if e == 't' {
                out.push('\t');
            } else {
                out.push('\\');
                out.push(e);
            }
            p += 2;
        } else {
            out.push(c);
            p += 1;
        }
    }
    (out, p)
}

pub open spec fn token_view(t: Option<(Vec<char>, usize)>) -> Option<(Seq<char>, int)> {
    match t {
        Some(x) => Some((x.0@, x.1 as int)),
        None => None,
    }
}

pub fn next_token(s: &[char], pos: usize) -> (r: Option<(Vec<char>, usize)>)
    requires
        pos <= s@.len(),
    ensures
        token_view(r) == token_at(s@, pos as int),
        r matches Some(t) ==> pos < t.1 <= s@.len(),
{
    proof {
        token_advances(s@, pos as int);
    }
    let start = skip_ws(s, pos);
    if start >= s.len() {
        return None;
    }
    if s[start] == '"' {
        Some(read_quoted(s, start + 1))
    } else {
        let end = skip_class(s, start, CharClass::Word);
        Some((to_chars(slice_subrange(s, start, end)), end))
    }
}

// ---------------------------------------------------------------------------
// Numbers
// ---------------------------------------------------------------------------
/// A number without its outer sign: hexadecimal after `0x` or `$`, binary after
/// `%`, else decimal.
pub open spec fn radix_number(s: Seq<char>) -> Option<int> {
    if "0x"@.is_prefix_of(s) {
        text::whole_number(s.skip("0x"@.len() as int), 16, true, i32::MIN as int, i32::MAX as int)
    } else if text::begins(s, '$') {
        text::whole_number(s.skip(1), 16, true, i32::MIN as int, i32::MAX as int)
    } else if text::begins(s, '%') {
        text::whole_number(s.skip(1), 2, true, i32::MIN as int, i32::MAX as int)
    } else {
        text::whole_number(s, 10, true, i32::MIN as int, i32::MAX as int)
    }
}

/// A number as a token: an optional sign before a decimal, hexadecimal or
/// binary 32-bit number.
pub open spec fn smf_number(s: Seq<char>) -> Option<int> {
    let minus = text::begins(s, '-');
    let raw = if minus || text::begins(s, '+') {
        s.skip(1)
    } else {
        s
    };
    match radix_number(raw) {
        Some(v) => if !minus {
            Some(v)
        } else if v == i32::MIN {
            None
        } else {
            Some(-v)
        },
        None => None,
    }
}

pub open spec fn opt_i32(v: Option<i32>) -> Option<int> {
    match v {
        Some(n) => Some(n as int),
        None => None,
    }
}

fn read_radix_number(s: &[char]) -> (r: Option<i64>)
    ensures
        text::opt_int(r) == radix_number(s@),
        r matches Some(n) ==> i32::MIN <= n <= i32::MAX,
{
    proof {
        reveal_strlit("0x");
    }
    if begins_with(s, "0x") {
        read_whole(after(s, 2), 16, true, i32::MIN as i64, i32::MAX as i64)
    } else if begins_with_char(s, '$') {
        read_whole(after(s, 1), 16, true, i32::MIN as i64, i32::MAX as i64)
    } else if begins_with_char(s, '%') {
        read_whole(after(s, 1), 2, true, i32::MIN as i64, i32::MAX as i64)
    } else {
        read_whole(s, 10, true, i32::MIN as i64, i32::MAX as i64)
    }
}

pub fn parse_smf_number(s: &[char]) -> (r: Option<i32>)
    ensures
        opt_i32(r) == smf_number(s@),
{
    let minus = begins_with_char(s, '-');
    let raw = if minus || begins_with_char(s, '+') {
        after(s, 1)
    } else {
        s
    };
    match read_radix_number(raw) {
        Some(v) => if !minus {
            Some(v as i32)
        } else if v == i32::MIN as i64 {
            None
        } else {
            Some((-v) as i32)
        },
        None => None,
    }
}

/// The next token read as a number; the failure names what was to be read.
pub open spec fn smf_i32(s: Seq<char>, pos: int, name: Seq<char>) -> Result<(int, int), Seq<char>> {
    match token_at(s, pos) {
        Some((token, next)) => match smf_number(token) {
            Some(v) => Ok((v, next)),
            None => Err("invalid "@ + name + ": "@ + token),
        },
        None => Err(name + " requires a value"@),
    }
}

pub open spec fn smf_in_range(
    s: Seq<char>,
    pos: int,
    name: Seq<char>,
    high: int,
    range: Seq<char>,
) -> Result<(int, int), Seq<char>> {
    match smf_i32(s, pos, name) {
        Ok((v, next)) => if 0 <= v <= high {
            Ok((v, next))
        } else {
            Err(name + " out of range "@ + range + ": "@ + text::signed_decimal(v))
        },
        Err(e) => Err(e),
    }
}

/// A seven-bit value.
pub open spec fn smf_u8(s: Seq<char>, pos: int, name: Seq<char>) -> Result<(int, int), Seq<char>> {
    smf_in_range(s, pos, name, 127, "0..127"@)
}

/// A fourteen-bit value.
pub open spec fn smf_u14(s: Seq<char>, pos: int, name: Seq<char>) -> Result<(int, int), Seq<char>> {
    smf_in_range(s, pos, name, 16383, "0..16383"@)
}

pub open spec fn number_view(r: Result<(i32, usize), String>) -> Result<(int, int), Seq<char>> {
    match r {
        Ok((v, p)) => Ok((v as int, p as int)),
        Err(e) => Err(e@),
    }
}

fn parse_smf_i32(s: &[char], pos: usize, name: &str) -> (r: Result<(i32, usize), String>)
    requires
        pos <= s@.len(),
    ensures
        number_view(r) == smf_i32(s@, pos as int, name@),
        r matches Ok(v) ==> v.1 <= s@.len(),
{
    match next_token(s, pos) {
        Some((token, next)) => match parse_smf_number(&token) {
            Some(v) => Ok((v, next)),
            None => {
                let t = string_of(&token);
                Err(join4("invalid ", name, ": ", t.as_str()))
            },
        },
        None => Err(join2(name, " requires a value")),
    }
}

fn parse_smf_in_range(s: &[char], pos: usize, name: &str, high: i32, range: &str) -> (r: Result<
    (i32, usize),
    String,
>)
    requires
        pos <= s@.len(),
    ensures
        number_view(r) == smf_in_range(s@, pos as int, name@, high as int, range@),
        r matches Ok(v) ==> v.1 <= s@.len() && 0 <= v.0 <= high,
{
    match parse_smf_i32(s, pos, name) {
        Ok((v, next)) => if 0 <= v && v <= high {
            Ok((v, next))
        } else {
            let n = signed_text(v as i128);
            Err(join5(name, " out of range ", range, ": ", n.as_str()))
        },
        Err(e) => Err(e),
    }
}

fn parse_smf_u8(s: &[char], pos: usize, name: &str) -> (r: Result<(i32, usize), String>)
    requires
        pos <= s@.len(),
    ensures
        number_view(r) == smf_u8(s@, pos as int, name@),
        r matches Ok(v) ==> v.1 <= s@.len() && 0 <= v.0 <= 127,
{
    parse_smf_in_range(s, pos, name, 127, "0..127")
}

fn parse_smf_u14(s: &[char], pos: usize, name: &str) -> (r: Result<(i32, usize), String>)
    requires
        pos <= s@.len(),
    ensures
        number_view(r) == smf_u14(s@, pos as int, name@),
        r matches Ok(v) ==> v.1 <= s@.len() && 0 <= v.0 <= 16383,
{
    parse_smf_in_range(s, pos, name, 16383, "0..16383")
}

// ---------------------------------------------------------------------------
// Requests
// ---------------------------------------------------------------------------
pub open spec fn smf_bank(s: Seq<char>, pos: int) -> Result<SmfRequestView, Seq<char>> {
    match smf_u8(s, pos, "bank msb"@) {
        Ok((msb, p)) => match smf_u8(s, p, "bank lsb"@) {
            Ok((lsb, _)) => Ok(SmfRequestView::Bank { msb: msb as u8, lsb: lsb as u8 }),
            Err(e) => Err(e),
        },
        Err(e) => Err(e),
    }
}

pub open spec fn smf_cc(s: Seq<char>, pos: int) -> Result<SmfRequestView, Seq<char>> {
    match smf_u8(s, pos, "cc controller"@) {
        Ok((controller, p)) => match smf_u8(s, p, "cc value"@) {
            Ok((value, _)) => Ok(
                SmfRequestView::Cc { controller: controller as u8, value: value as u8 },
            ),
            Err(e) => Err(e),
        },
        Err(e) => Err(e),
    }
}

pub open spec fn smf_pitch_bend(s: Seq<char>, pos: int) -> Result<SmfRequestView, Seq<char>> {
    match smf_i32(s, pos, "pb value"@) {
        Ok((value, _)) => if -8192 <= value <= 16383 {
            Ok(SmfRequestView::PitchBend { value: value as i32 })
        } else {
            Err("pb value out of range: "@ + text::signed_decimal(value))
        },
        Err(e) => Err(e),
    }
}

/// A registered (or not registered) parameter: two numbers and a value.
pub open spec fn smf_parameter(
    s: Seq<char>,
    pos: int,
    registered: bool,
    msb_name: Seq<char>,
    lsb_name: Seq<char>,
    value_name: Seq<char>,
) -> Result<SmfRequestView, Seq<char>> {
    match smf_u8(s, pos, msb_name) {
        Ok((msb, p)) => match smf_u8(s, p, lsb_name) {
            Ok((lsb, q)) => match smf_u14(s, q, value_name) {
                Ok((value, _)) => if registered {
                    Ok(
                        SmfRequestView::Rpn {
                            msb: msb as u8,
                            lsb: lsb as u8,
                            value: value as u16,
                        },
                    )
                } else {
                    Ok(
                        SmfRequestView::Nrpn {
                            msb: msb as u8,
                            lsb: lsb as u8,
                            value: value as u16,
                        },
                    )
                },
                Err(e) => Err(e),
            },
            Err(e) => Err(e),
        },
        Err(e) => Err(e),
    }
}

/// The request that a lower-case command word and what follows it make.
pub open spec fn smf_request(
    s: Seq<char>,
    pos: int,
    command: Seq<char>,
    programs: Numbering,
) -> Result<SmfRequestView, Seq<char>> {
    if command == "pc"@ {
        match smf_u8(s, pos, "pc program"@) {
            Ok((v, _)) => Ok(SmfRequestView::Pc { program: programs.base_zero(v as u8) }),
            Err(e) => Err(e),
        }
    } else if command == "bank"@ {
        smf_bank(s, pos)
    } else if command == "cc"@ {
        smf_cc(s, pos)
    } else if command == "pb"@ {
        smf_pitch_bend(s, pos)
    } else if command == "rpn"@ {
        smf_parameter(s, pos, true, "rpn msb"@, "rpn lsb"@, "rpn value"@)
    } else if command == "nrpn"@ {
        smf_parameter(s, pos, false, "nrpn msb"@, "nrpn lsb"@, "nrpn value"@)
    } else if command == "marker"@ {
        match token_at(s, pos) {
            Some((text, _)) => Ok(SmfRequestView::Marker { text }),
            None => Err("marker requires text"@),
        }
    } else if command == "text"@ {
        match token_at(s, pos) {
            Some((text, _)) => Ok(SmfRequestView::Text { text }),
            None => Err("text requires text"@),
        }
    } else if command == "macro"@ {
        match token_at(s, pos) {
            Some((name, _)) => Ok(SmfRequestView::Macro { name }),
            None => Err("macro requires name"@),
        }
    } else if command == "reset"@ {
        match token_at(s, pos) {
            Some((name, _)) => Ok(SmfRequestView::Reset { name: Some(name) }),
            None => Ok(SmfRequestView::Reset { name: None }),
        }
    } else {
        Err("unknown ;@smf command: "@ + command)
    }
}

fn parse_smf_parameter(
    s: &[char],
    pos: usize,
    registered: bool,
    msb_name: &str,
    lsb_name: &str,
    value_name: &str,
) -> (r: Result<SmfRequest, String>)
    requires
        pos <= s@.len(),
    ensures
        views::result_view(r) == smf_parameter(
            s@,
            pos as int,
            registered,
            msb_name@,
            lsb_name@,
            value_name@,
        ),
{
    let (msb, p) = match parse_smf_u8(s, pos, msb_name) {
        Ok(v) => v,
        Err(e) => {
            return Err(e);
        },
    };
    let (lsb, q) = match parse_smf_u8(s, p, lsb_name) {
        Ok(v) => v,
        Err(e) => {
            return Err(e);
        },
    };
    let (value, _) = match parse_smf_u14(s, q, value_name) {
        Ok(v) => v,
        Err(e) => {
            return Err(e);
        },
    };
    if registered {
        Ok(SmfRequest::Rpn { msb: msb as u8, lsb: lsb as u8, value: value as u16 })
    } else {
        Ok(SmfRequest::Nrpn { msb: msb as u8, lsb: lsb as u8, value: value as u16 })
    }
}

fn parse_smf_numbers(s: &[char], pos: usize, command: &[char], programs: Numbering) -> (r: Option<
    Result<SmfRequest, String>,
>)
    requires
        pos <= s@.len(),
    ensures
        match r {
            Some(v) => views::result_view(v) == smf_request(s@, pos as int, command@, programs),
            None => command@ != "pc"@ && command@ != "bank"@ && command@ != "cc"@ && command@
                != "pb"@ && command@ != "rpn"@ && command@ != "nrpn"@,
        },
{
    if chars_are(command, "pc") {
        return Some(
            match parse_smf_u8(s, pos, "pc program") {
                Ok((v, _)) => Ok(SmfRequest::Pc { program: programs.normalize(v as u8) }),
                Err(e) => Err(e),
            },
        );
    }
    if chars_are(command, "bank") {
        let (msb, p) = match parse_smf_u8(s, pos, "bank msb") {
            Ok(v) => v,
            Err(e) => {
                return Some(Err(e));
            },
        };
        return Some(
            match parse_smf_u8(s, p, "bank lsb") {
                Ok((lsb, _)) => Ok(SmfRequest::Bank { msb: msb as u8, lsb: lsb as u8 }),
                Err(e) => Err(e),
            },
        );
    }
    if chars_are(command, "cc") {
        let (controller, p) = match parse_smf_u8(s, pos, "cc controller") {
            Ok(v) => v,
            Err(e) => {
                return Some(Err(e));
            },
        };
        return Some(
            match parse_smf_u8(s, p, "cc value") {
                Ok((value, _)) => Ok(
                    SmfRequest::Cc { controller: controller as u8, value: value as u8 },
                ),
                Err(e) => Err(e),
            },
        );
    }
    if chars_are(command, "pb") {
        return Some(
            match parse_smf_i32(s, pos, "pb value") {
                Ok((value, _)) => if -8192 <= value && value <= 16383 {
                    Ok(SmfRequest::PitchBend { value })
                } else {
                    let n = signed_text(value as i128);
                    Err(join2("pb value out of range: ", n.as_str()))
                },
                Err(e) => Err(e),
            },
        );
    }
    if chars_are(command, "rpn") {
        return Some(parse_smf_parameter(s, pos, true, "rpn msb", "rpn lsb", "rpn value"));
    }
    if chars_are(command, "nrpn") {
        return Some(parse_smf_parameter(s, pos, false, "nrpn msb", "nrpn lsb", "nrpn value"));
    }
    None
}

fn parse_smf_request(s: &[char], pos: usize, command: &[char], programs: Numbering) -> (r: Result<
    SmfRequest,
    String,
>)
    requires
        pos <= s@.len(),
    ensures
        views::result_view(r) == smf_request(s@, pos as int, command@, programs),
{
    match parse_smf_numbers(s, pos, command, programs) {
        Some(r) => {
            return r;
        },
        None => {},
    }
    if chars_are(command, "marker") {
        match next_token(s, pos) {
            Some((t, _)) => Ok(SmfRequest::Marker { text: string_of(&t) }),
            None => Err(copy_text("marker requires text")),
        }
    } else if chars_are(command, "text") {
        match next_token(s, pos) {
            Some((t, _)) => Ok(SmfRequest::Text { text: string_of(&t) }),
            None => Err(copy_text("text requires text")),
        }
    } else if chars_are(command, "macro") {
        match next_token(s, pos) {
            Some((t, _)) => Ok(SmfRequest::Macro { name: string_of(&t) }),
            None => Err(copy_text("macro requires name")),
        }
    } else if chars_are(command, "reset") {
        match next_token(s, pos) {
            Some((t, _)) => Ok(SmfRequest::Reset { name: Some(string_of(&t)) }),
            None => Ok(SmfRequest::Reset { name: None }),
        }
    } else {
        let t = string_of(command);
        Err(join2("unknown ;@smf command: ", t.as_str()))
    }
}

// ---------------------------------------------------------------------------
// Targets
// ---------------------------------------------------------------------------
/// Where a request goes, and the command that follows.
#[verifier::ext_equal]
pub struct SmfTargetView {
    pub track: Option<Seq<char>>,
    pub channel: Option<u8>,
    pub explicit: bool,
    pub command: Seq<char>,
    pub pos: int,
}

/// The text without any number of repetitions of `channel=` at its start.
pub open spec fn without_channel_words(s: Seq<char>) -> Seq<char>
    decreases s.len(),
{
    if "channel="@.is_prefix_of(s) && "channel="@.len() > 0 {
        without_channel_words(s.skip("channel="@.len() as int))
    } else {
        s
    }
}

/// The target words from the given token on; `pos` is the position after it.
pub open spec fn smf_target(
    s: Seq<char>,
    t: SmfTargetView,
    channels: Numbering,
) -> Result<SmfTargetView, Seq<char>>
    decreases s.len() - t.pos,
    when 0 <= t.pos <= s.len()
{
    proof {
        token_advances(s, t.pos);
    }
    if text::lower_all(t.command) == "conductor"@ {
        match token_at(s, t.pos) {
            Some((command, pos)) => smf_target(
                s,
                SmfTargetView { track: None, explicit: true, command, pos, ..t },
                channels,
            ),
            None => Err(";@smf conductor without command"@),
        }
    } else if "track="@.is_prefix_of(t.command) {
        let track = t.command.skip("track="@.len() as int);
        if track.len() == 0 {
            Err(";@smf track= requires a source track id"@)
        } else {
            match token_at(s, t.pos) {
                Some((command, pos)) => smf_target(
                    s,
                    SmfTargetView {
                        track: Some(text::lower_all(track)),
                        explicit: true,
                        command,
                        pos,
                        ..t
                    },
                    channels,
                ),
                None => Err(";@smf track= without command"@),
            }
        }
    } else if "channel="@.is_prefix_of(t.command) {
        let channel = without_channel_words(t.command);
        if channel.len() == 0 {
            Err(";@smf channel= requires a MIDI channel"@)
        } else {
            match smf_number(channel) {
                Some(n) => match token_at(s, t.pos) {
                    Some((command, pos)) => smf_target(
                        s,
                        SmfTargetView {
                            channel: Some(smf_channel(n, channels)),
                            explicit: true,
                            command,
                            pos,
                            ..t
                        },
                        channels,
                    ),
                    None => Err(";@smf channel= without command"@),
                },
                None => Err("invalid channel target: "@ + channel),
            }
        }
    } else {
        Ok(t)
    }
}

/// The zero-based channel of a number as written.
pub open spec fn smf_channel(n: int, channels: Numbering) -> u8 {
    text::min_int(channels.base_zero(text::clamp_int(n, 0, 255) as u8) as int, 15) as u8
}

/// The event that a directive after `;@smf` stands for.
pub open spec fn smf_directive(
    s: Seq<char>,
    default_track: Option<Seq<char>>,
    at: Frac,
    line: usize,
    programs: Numbering,
    channels: Numbering,
) -> Result<IrEventView, Seq<char>> {
    match token_at(s, 0) {
        None => Err(";@smf without command"@),
        Some((command, pos)) => {
            let start = SmfTargetView {
                track: match default_track {
                    Some(t) => Some(text::lower_all(t)),
                    None => None,
                },
                channel: None,
                explicit: false,
                command,
                pos,
            };
            match smf_target(s, start, channels) {
                Ok(t) => if default_track is None && !t.explicit {
                    Err("top-level ;@smf requires track=<id> or conductor"@)
                } else {
                    match smf_request(s, t.pos, text::lower_all(t.command), programs) {
                        Ok(request) => Ok(
                            IrEventView::ManualSmf {
                                track: t.track,
                                channel: t.channel,
                                at,
                                request,
                                span: SourceSpanView { line: Some(line), track: default_track },
                            },
                        ),
                        Err(e) => Err(e),
                    }
                },
                Err(e) => Err(e),
            }
        },
    }
}

struct SmfTarget {
    track: Option<String>,
    channel: Option<u8>,
    explicit: bool,
    command: Vec<char>,
    pos: usize,
}

impl DeepView for SmfTarget {
    type V = SmfTargetView;

    closed spec fn deep_view(&self) -> SmfTargetView {
        SmfTargetView {
            track: self.track.deep_view(),
            channel: self.channel,
            explicit: self.explicit,
            command: self.command@,
            pos: self.pos as int,
        }
    }
}

fn strip_channel_words(s: &[char]) -> (r: &[char])
    ensures
        r@ == without_channel_words(s@),
{
    proof {
        reveal_strlit("channel=");
    }
    let mut pos: usize = 0;
    let len = s.len();
    assert(s@.skip(0) =~= s@);
    loop
        invariant
            pos <= s@.len(),
            len == s@.len(),
            "channel="@.len() == 8,
            without_channel_words(s@) == without_channel_words(s@.skip(pos as int)),
        decreases s@.len() - pos,
    {
        let rest = after(s, pos);
        if !begins_with(rest, "channel=") {
            return rest;
        }
        assert(s@.skip(pos as int).skip(8) =~= s@.skip(pos + 8));
        pos += 8;
    }
}

fn parse_smf_target(s: &[char], first: SmfTarget, channels: Numbering) -> (r: Result<
    SmfTarget,
    String,
>)
    requires
        first.deep_view().pos <= s@.len(),
    ensures
        views::result_view(r) == smf_target(s@, first.deep_view(), channels),
        r matches Ok(t) ==> t.deep_view().pos <= s@.len(),
{
    proof {
        reveal_strlit("track=");
    }
    let ghost start = first.deep_view();
    let mut t = first;
    loop
        invariant
            0 <= t.pos <= s@.len(),
            "track="@.len() == 6,
            start == first.deep_view(),
            smf_target(s@, start, channels) == smf_target(s@, t.deep_view(), channels),
        decreases s@.len() - t.pos,
    {
        proof {
            token_advances(s@, t.pos as int);
        }
        let word = lower_chars(&t.command);
        if chars_are(&word, "conductor") {
            match next_token(s, t.pos) {
                Some((command, pos)) => {
                    t =
                    SmfTarget { track: None, channel: t.channel, explicit: true, command, pos };
                },
                None => {
                    return Err(copy_text(";@smf conductor without command"));
                },
            }
        } else if begins_with(&t.command, "track=") {
            let name = after(&t.command, 6);
            if name.len() == 0 {
                return Err(copy_text(";@smf track= requires a source track id"));
            }
            let lowered = lower_chars(name);
            let track = string_of(&lowered);
            match next_token(s, t.pos) {
                Some((command, pos)) => {
                    t =
                    SmfTarget {
                        track: Some(track),
                        channel: t.channel,
                        explicit: true,
                        command,
                        pos,
                    };
                },
                None => {
                    return Err(copy_text(";@smf track= without command"));
                },
            }
        } else if begins_with(&t.command, "channel=") {
            let channel = strip_channel_words(&t.command);
            if channel.len() == 0 {
                return Err(copy_text(";@smf channel= requires a MIDI channel"));
            }
            let number: i32 = match parse_smf_number(channel) {
                Some(n) => n,
                None => {
                    let c = string_of(channel);
                    return Err(join2("invalid channel target: ", c.as_str()));
                },
            };
            let low = clamp_i64(number as i64, 0, 255) as u8;
            let zero_based = channels.normalize(low);
            let target: u8 = if zero_based <= 15 {
                zero_based
            } else {
                15
            };
            match next_token(s, t.pos) {
                Some((command, pos)) => {
                    t =
                    SmfTarget {
                        track: t.track,
                        channel: Some(target),
                        explicit: true,
                        command,
                        pos,
                    };
                },
                None => {
                    return Err(copy_text(";@smf channel= without command"));
                },
            }
        } else {
            return Ok(t);
        }
    }
}

pub fn parse_smf_directive(
    s: &[char],
    default_track: Option<&str>,
    source_step: Rational,
    line: usize,
    programs: Numbering,
    channels: Numbering,
) -> (r: Result<IrEvent, String>)
    ensures
        views::result_view(r) == smf_directive(
            s@,
            default_track.deep_view(),
            source_step.deep_view(),
            line,
            programs,
            channels,
        ),
        r matches Ok(e) ==> e is ManualSmf,
{
    let (command, pos) = match next_token(s, 0) {
        Some(t) => t,
        None => {
            return Err(copy_text(";@smf without command"));
        },
    };
    let track = match default_track {
        Some(t) => {
            let c = chars_of(t);
            let l = lower_chars(&c);
            Some(string_of(&l))
        },
        None => None,
    };
    let first = SmfTarget { track, channel: None, explicit: false, command, pos };
    let target = match parse_smf_target(s, first, channels) {
        Ok(t) => t,
        Err(e) => {
            return Err(e);
        },
    };
    if default_track.is_none() && !target.explicit {
        return Err(copy_text("top-level ;@smf requires track=<id> or conductor"));
    }
    let word = lower_chars(&target.command);
    let request = match parse_smf_request(s, target.pos, &word, programs) {
        Ok(q) => q,
        Err(e) => {
            return Err(e);
        },
    };
    Ok(
        IrEvent::ManualSmf {
            source_track: target.track,
            target_channel: target.channel,
            source_step,
            request,
            source_span: SourceSpan {
                line: Some(line),
                track: match default_track {
                    Some(t) => Some(copy_text(t)),
                    None => None,
                },
            },
        },
    )
}

/// Whether a request was refused because its command is not known.
pub open spec fn is_unknown(message: Seq<char>) -> bool {
    "unknown ;@smf command: "@.is_prefix_of(message)
}

pub fn names_unknown_command(message: &str) -> (r: bool)
    ensures
        r == is_unknown(message@),
{
    let s = chars_of(message);
    begins_with(&s, "unknown ;@smf command: ")
}

/// The error for an unknown command.
pub open spec fn unknown_at(message: Seq<char>, line: usize) -> Seq<char> {
    message + " at line "@ + text::decimal(line as nat)
}

pub fn unknown_error(message: &str, line: usize) -> (r: String)
    ensures
        r@ == unknown_at(message@, line),
{
    let n = number_text(line as u64);
    join3(message, " at line ", n.as_str())
}

} // verus!
