//! The diagnostics as a JSON text.

use vstd::prelude::*;

use crate::diagnostics::{
    ChannelAllocation, ChannelAllocationView, Diagnostics, DiagnosticsView, EnvelopeEventCount,
    EnvelopeEventCountView, IgnoredToneDefinition, IgnoredToneDefinitionView,
    LoopMarkerDiagnostic, LoopMarkerDiagnosticView, ManualSmfDiagnostic, ManualSmfDiagnosticView,
    ParseWarning, ParseWarningView, PsgEnvelopeUsage, PsgEnvelopeUsageView, RegisterWriteUsage,
    RegisterWriteUsageView, ToneUsage, ToneUsageView, TrackSummary, TrackSummaryView,
    UnsupportedCommand, UnsupportedCommandView,
};
use crate::fraction::Frac;
use crate::ir;
use crate::ir::{TempoEvent, TempoEventView};
use crate::json;
use crate::json::Json;
use crate::text;
use crate::text::{char_is_control, chars_of, copy_text, number_text};
use crate::views;

verus! {

// ---------------------------------------------------------------------------
// Texts and numbers
// ---------------------------------------------------------------------------
/// A hexadecimal digit.
pub open spec fn hex_digit(n: int) -> char {
    if n < 10 {
        ((n + 48) as u32) as char
    } else {
        ((n + 87) as u32) as char
    }
}

/// How a character stands in a JSON text.
pub open spec fn escaped_char(c: char) -> Seq<char> {
    if c == '"' {
        "\\\""@
    } else if c == '\\' {
        "\\\\"@
    } else if c == '\n' {
        "\\n"@
    } else if c == '\r' {
        "\\r"@
    } else if c == '\t' {
        "\\t"@
    } else if text::is_control(c) {
        "\\u00"@.push(hex_digit((c as u32) as int / 16)).push(hex_digit((c as u32) as int % 16))
    } else {
        seq![c]
    }
}

/// The first `n` characters of a text, escaped.
pub open spec fn escaped(s: Seq<char>, n: int) -> Seq<char>
    decreases n,
{
    if n <= 0 || n > s.len() {
        Seq::empty()
    } else {
        escaped(s, n - 1) + escaped_char(s[n - 1])
    }
}

/// A text in quotes.
pub open spec fn quoted(s: Seq<char>) -> Seq<char> {
    "\""@ + escaped(s, s.len() as int) + "\""@
}

/// No character of an escaped text is a control character, and a quote always
/// has a backslash before it.
pub proof fn escaped_is_safe(s: Seq<char>, n: int)
    requires
        0 <= n <= s.len(),
    ensures
        forall|i: int|
            0 <= i < escaped(s, n).len() ==> !text::is_control(#[trigger] escaped(s, n)[i]) && (
            escaped(s, n)[i] == '"' ==> i > 0 && escaped(s, n)[i - 1] == '\\'),
    decreases n,
{
    reveal_strlit("\\\"");
    reveal_strlit("\\\\");
    reveal_strlit("\\n");
    reveal_strlit("\\r");
    reveal_strlit("\\t");
    reveal_strlit("\\u00");
    if n > 0 {
        escaped_is_safe(s, n - 1);
        let before = escaped(s, n - 1);
        let c = s[n - 1];
        let e = escaped_char(c);
        assert forall|k: int| 0 <= k < e.len() implies !text::is_control(#[trigger] e[k]) && (e[k] == '"'
            ==> k > 0 && e[k - 1] == '\\') by {
            if c != '"' && c != '\\' && c != '\n' && c != '\r' && c != '\t' && text::is_control(c) {
                let n = (c as u32) as int;
                assert(0 <= n / 16 < 16 && 0 <= n % 16 < 16);
                assert("\\u00"@.len() == 4);
            }
        }
        assert forall|i: int| 0 <= i < escaped(s, n).len() implies !text::is_control(
            #[trigger] escaped(s, n)[i],
        ) && (escaped(s, n)[i] == '"' ==> i > 0 && escaped(s, n)[i - 1] == '\\') by {
            if i < before.len() {
                assert(escaped(s, n)[i] == before[i]);
                if i > 0 {
                    assert(escaped(s, n)[i - 1] == before[i - 1]);
                }
            } else {
                let k = i - before.len();
                assert(escaped(s, n)[i] == e[k]);
                if k > 0 {
                    assert(escaped(s, n)[i - 1] == e[k - 1]);
                }
            }
        }
    }
}

fn hex_char(n: u32) -> (r: char)
    requires
        n < 16,
    ensures
        r == hex_digit(n as int),
{
    if n < 10 {
        (n as u8 + 48) as char
    } else {
        (n as u8 + 87) as char
    }
}

fn push_escaped_char(out: &mut String, c: char)
    ensures
        final(out)@ == old(out)@ + escaped_char(c),
{
    if c == '"' {
        out.append("\\\"");
    } else if c == '\\' {
        out.append("\\\\");
    } else if c == '\n' {
        out.append("\\n");
    } else if c == '\r' {
        out.append("\\r");
    } else if c == '\t' {
        out.append("\\t");
    } else if char_is_control(c) {
        let n: u32 = c as u32;
        out.append("\\u00");
        out.push(hex_char(n / 16));
        out.push(hex_char(n % 16));
        assert(out@ =~= old(out)@ + escaped_char(c));
    } else {
        out.push(c);
        assert(out@ =~= old(out)@ + seq![c]);
    }
}

fn push_escaped(out: &mut String, value: &str)
    ensures
        final(out)@ == old(out)@ + escaped(value@, value@.len() as int),
{
    let c = chars_of(value);
    let mut i: usize = 0;
    assert(out@ + Seq::<char>::empty() =~= out@);
    while i < c.len()
        invariant
            i <= c@.len(),
            c@ == value@,
            out@ == old(out)@ + escaped(value@, i as int),
        decreases c@.len() - i,
    {
        push_escaped_char(out, c[i]);
        assert(old(out)@ + escaped(value@, i as int) + escaped_char(c@[i as int]) =~= old(out)@
            + escaped(value@, i + 1));
        i += 1;
    }
}

fn push_quoted(out: &mut String, value: &str)
    ensures
        final(out)@ == old(out)@ + quoted(value@),
{
    out.append("\"");
    push_escaped(out, value);
    out.append("\"");
    assert(out@ =~= old(out)@ + quoted(value@));
}

// ---------------------------------------------------------------------------
// Fields
// ---------------------------------------------------------------------------
pub open spec fn key(name: Seq<char>) -> Seq<char> {
    "\""@ + name + "\": "@
}

pub open spec fn line_end(comma: bool) -> Seq<char> {
    if comma {
        ",\n"@
    } else {
        "\n"@
    }
}

pub open spec fn field_raw(name: Seq<char>, value: Seq<char>, comma: bool) -> Seq<char> {
    "  "@ + key(name) + value + line_end(comma)
}

pub open spec fn object_raw(name: Seq<char>, value: Seq<char>, comma: bool) -> Seq<char> {
    "      "@ + key(name) + value + line_end(comma)
}

pub open spec fn quoted_or_null(value: Option<Seq<char>>) -> Seq<char> {
    match value {
        Some(s) => quoted(s),
        None => "null"@,
    }
}

pub open spec fn field_string_opt(name: Seq<char>, value: Option<Seq<char>>, comma: bool) -> Seq<
    char,
> {
    field_raw(name, quoted_or_null(value), comma)
}

pub open spec fn field_number(name: Seq<char>, value: nat, comma: bool) -> Seq<char> {
    field_raw(name, text::decimal(value), comma)
}

pub open spec fn object_string(name: Seq<char>, value: Seq<char>, comma: bool) -> Seq<char> {
    object_raw(name, quoted(value), comma)
}

pub open spec fn object_string_opt(name: Seq<char>, value: Option<Seq<char>>, comma: bool) -> Seq<
    char,
> {
    object_raw(name, quoted_or_null(value), comma)
}

pub open spec fn object_number(name: Seq<char>, value: nat, comma: bool) -> Seq<char> {
    object_raw(name, text::decimal(value), comma)
}

pub open spec fn object_number_opt(name: Seq<char>, value: Option<usize>, comma: bool) -> Seq<
    char,
> {
    object_raw(
        name,
        match value {
            Some(n) => text::decimal(n as nat),
            None => "null"@,
        },
        comma,
    )
}

fn push_raw(out: &mut String, indent: &str, name: &str, value: &str, comma: bool)
    ensures
        final(out)@ == old(out)@ + (indent@ + key(name@) + value@ + line_end(comma)),
{
    out.append(indent);
    out.append("\"");
    out.append(name);
    out.append("\": ");
    out.append(value);
    if comma {
        out.append(",\n");
    } else {
        out.append("\n");
    }
    assert(out@ =~= old(out)@ + (indent@ + key(name@) + value@ + line_end(comma)));
}

fn quoted_text(value: &str) -> (r: String)
    ensures
        r@ == quoted(value@),
{
    let mut out = String::new();
    push_quoted(&mut out, value);
    assert(Seq::empty() + quoted(value@) =~= quoted(value@));
    out
}

fn quoted_or_null_text(value: &Option<String>) -> (r: String)
    ensures
        r@ == quoted_or_null(value.deep_view()),
{
    match value {
        Some(s) => quoted_text(s.as_str()),
        None => copy_text("null"),
    }
}

fn push_field_string_opt(out: &mut String, name: &str, value: &Option<String>, comma: bool)
    ensures
        final(out)@ == old(out)@ + field_string_opt(name@, value.deep_view(), comma),
{
    let text = quoted_or_null_text(value);
    push_raw(out, "  ", name, text.as_str(), comma);
}

fn push_field_number(out: &mut String, name: &str, value: u64, comma: bool)
    ensures
        final(out)@ == old(out)@ + field_number(name@, value as nat, comma),
{
    let text = number_text(value);
    push_raw(out, "  ", name, text.as_str(), comma);
}

fn push_object_raw(out: &mut String, name: &str, value: &str, comma: bool)
    ensures
        final(out)@ == old(out)@ + object_raw(name@, value@, comma),
{
    push_raw(out, "      ", name, value, comma);
}

fn push_object_string(out: &mut String, name: &str, value: &str, comma: bool)
    ensures
        final(out)@ == old(out)@ + object_string(name@, value@, comma),
{
    let text = quoted_text(value);
    push_object_raw(out, name, text.as_str(), comma);
}

fn push_object_string_opt(out: &mut String, name: &str, value: &Option<String>, comma: bool)
    ensures
        final(out)@ == old(out)@ + object_string_opt(name@, value.deep_view(), comma),
{
    let text = quoted_or_null_text(value);
    push_object_raw(out, name, text.as_str(), comma);
}

fn push_object_number(out: &mut String, name: &str, value: u64, comma: bool)
    ensures
        final(out)@ == old(out)@ + object_number(name@, value as nat, comma),
{
    let text = number_text(value);
    push_object_raw(out, name, text.as_str(), comma);
}

fn push_object_number_opt(out: &mut String, name: &str, value: Option<usize>, comma: bool)
    ensures
        final(out)@ == old(out)@ + object_number_opt(name@, value, comma),
{
    let text = match value {
        Some(n) => number_text(n as u64),
        None => copy_text("null"),
    };
    push_object_raw(out, name, text.as_str(), comma);
}

// ---------------------------------------------------------------------------
// Items and sections
// ---------------------------------------------------------------------------
/// What stands in a list of the report.
pub trait JsonItem: DeepView + Sized {
    /// The text of an item.
    spec fn json(v: Self::V) -> Seq<char>;

    /// The value that the text stands for.
    spec fn value(v: Self::V) -> Json;

    /// Whether the text stands for a value.
    spec fn sound(v: Self::V) -> bool;

    /// The text of an item reads back.
    proof fn item_reads(v: Self::V)
        requires
            Self::sound(v),
        ensures
            json::reads_as(Self::json(v), Self::value(v)),
    ;

    fn to_item(&self) -> (r: String)
        ensures
            r@ == Self::json(self.deep_view()),
    ;
}

/// The first `n` items, with a comma between each two.
pub open spec fn items_json<T: JsonItem>(items: Seq<T::V>, n: int) -> Seq<char>
    decreases n,
{
    if n <= 0 || n > items.len() {
        Seq::empty()
    } else if n == 1 {
        T::json(items[0])
    } else {
        items_json::<T>(items, n - 1) + ",\n"@ + T::json(items[n - 1])
    }
}

/// A list under its name.
pub open spec fn section<T: JsonItem>(name: Seq<char>, items: Seq<T::V>, comma: bool) -> Seq<char> {
    "  \""@ + name + "\": [\n"@ + items_json::<T>(items, items.len() as int) + "\n  ]"@ + line_end(
        comma,
    )
}

fn push_section<T: JsonItem>(out: &mut String, name: &str, items: &[T], comma: bool)
    ensures
        final(out)@ == old(out)@ + section::<T>(name@, views::all_views(items@), comma),
{
    out.append("  \"");
    out.append(name);
    out.append("\": [\n");
    let ghost head = out@;
    let ghost all = views::all_views(items@);
    let mut i: usize = 0;
    assert(head + Seq::<char>::empty() =~= head);
    while i < items.len()
        invariant
            i <= items@.len(),
            all == views::all_views(items@),
            out@ == head + items_json::<T>(all, i as int),
        decreases items@.len() - i,
    {
        assert(all[i as int] == items@[i as int].deep_view());
        let ghost before = items_json::<T>(all, i as int);
        if i > 0 {
            out.append(",\n");
        }
        let text = items[i].to_item();
        out.append(text.as_str());
        assert(i > 0 ==> head + before + ",\n"@ + text@ =~= head + (before + ",\n"@ + text@));
        assert(i == 0 ==> head + before + text@ =~= head + text@);
        i += 1;
    }
    out.append("\n  ]");
    if comma {
        out.append(",\n");
    } else {
        out.append("\n");
    }
    assert(out@ =~= old(out)@ + section::<T>(name@, all, comma));
}

impl JsonItem for String {
    open spec fn json(v: Seq<char>) -> Seq<char> {
        "    "@ + quoted(v)
    }

    open spec fn value(v: Seq<char>) -> Json {
        Json::Text(v)
    }

    open spec fn sound(v: Seq<char>) -> bool {
        true
    }

    proof fn item_reads(v: Seq<char>) {
        json::quoted_reads_back(v);
        assert forall|r: Seq<char>| json::ends_value(r) implies #[trigger] json::read_value(Self::json(v) + r)
            == Some((Self::value(v), r)) by {
            json::item_frame(r);
            json::joined_in_turn("    "@, quoted(v), r);
            json::blanks_go("    "@, quoted(v) + r);
            json::values_ignore_blanks("    "@ + (quoted(v) + r), quoted(v) + r);
        }
    }

    fn to_item(&self) -> (r: String) {
        let mut out = copy_text("    ");
        push_quoted(&mut out, self.as_str());
        out
    }
}

impl JsonItem for TrackSummary {
    open spec fn json(v: TrackSummaryView) -> Seq<char> {
        "    {\n"@ + object_string("source_track"@, v.source_track, true)
            + object_number("midi_track"@, v.midi_track as nat, true)
            + object_number("midi_channel"@, v.midi_channel as nat, true)
            + object_number("midi_port"@, v.midi_port as nat, true)
            + object_raw("source_steps"@, v.source_steps, true)
            + object_number("note_count"@, v.note_count as nat, true)
            + object_number("cc_count"@, v.cc_count as nat, false) + "\n    }"@
    }

    open spec fn value(v: TrackSummaryView) -> Json {
        Json::Object(
            seq![
                ("source_track"@, Json::Text(v.source_track)),
                ("midi_track"@, Json::Number((v.midi_track as nat) as int)),
                ("midi_channel"@, Json::Number((v.midi_channel as nat) as int)),
                ("midi_port"@, Json::Number((v.midi_port as nat) as int)),
                ("source_steps"@, json::raw_value(v.source_steps)),
                ("note_count"@, Json::Number((v.note_count as nat) as int)),
                ("cc_count"@, Json::Number((v.cc_count as nat) as int)),
            ],
        )
    }

    open spec fn sound(v: TrackSummaryView) -> bool {
        json::reads_as(v.source_steps, json::raw_value(v.source_steps))
    }

    proof fn item_reads(v: TrackSummaryView) {
        names_are_plain();
        json::quoted_reads_back(v.source_track);
        json::natural_reads_back(v.midi_track as nat);
        json::natural_reads_back(v.midi_channel as nat);
        json::natural_reads_back(v.midi_port as nat);
        json::natural_reads_back(v.note_count as nat);
        json::natural_reads_back(v.cc_count as nat);
        assert forall|r: Seq<char>| json::ends_value(r) implies #[trigger] json::read_value(Self::json(v) + r)
            == Some((Self::value(v), r)) by {
            json::item_frame(r);
            let done = Seq::<(Seq<char>, Json)>::empty();
            let head = "    {\n"@;
            let m1 = object_string("source_track"@, v.source_track, true);
            let m2 = object_number("midi_track"@, v.midi_track as nat, true);
            let m3 = object_number("midi_channel"@, v.midi_channel as nat, true);
            let m4 = object_number("midi_port"@, v.midi_port as nat, true);
            let m5 = object_raw("source_steps"@, v.source_steps, true);
            let m6 = object_number("note_count"@, v.note_count as nat, true);
            let m7 = object_number("cc_count"@, v.cc_count as nat, false);
            let t8 = "\n    }"@ + r;
            let t7 = m7 + t8;
            let t6 = m6 + t7;
            let t5 = m5 + t6;
            let t4 = m4 + t5;
            let t3 = m3 + t4;
            let t2 = m2 + t3;
            let t1 = m1 + t2;
            json::joined_in_turn(head + m1 + m2 + m3 + m4 + m5 + m6 + m7, "\n    }"@, r);
            json::joined_in_turn(head + m1 + m2 + m3 + m4 + m5 + m6, m7, t8);
            json::joined_in_turn(head + m1 + m2 + m3 + m4 + m5, m6, t7);
            json::joined_in_turn(head + m1 + m2 + m3 + m4, m5, t6);
            json::joined_in_turn(head + m1 + m2 + m3, m4, t5);
            json::joined_in_turn(head + m1 + m2, m3, t4);
            json::joined_in_turn(head + m1, m2, t3);
            json::joined_in_turn(head, m1, t2);
            json::joined_in_turn("    "@, "{\n"@, t1);
            json::member_reads_back(
                "      "@,
                "source_track"@,
                quoted(v.source_track),
                Json::Text(v.source_track),
                t2,
                done,
            );
            let d1 = done.push(("source_track"@, Json::Text(v.source_track)));
            json::member_reads_back(
                "      "@,
                "midi_track"@,
                text::decimal(v.midi_track as nat),
                Json::Number((v.midi_track as nat) as int),
                t3,
                d1,
            );
            let d2 = d1.push(("midi_track"@, Json::Number((v.midi_track as nat) as int)));
            json::member_reads_back(
                "      "@,
                "midi_channel"@,
                text::decimal(v.midi_channel as nat),
                Json::Number((v.midi_channel as nat) as int),
                t4,
                d2,
            );
            let d3 = d2.push(("midi_channel"@, Json::Number((v.midi_channel as nat) as int)));
            json::member_reads_back(
                "      "@,
                "midi_port"@,
                text::decimal(v.midi_port as nat),
                Json::Number((v.midi_port as nat) as int),
                t5,
                d3,
            );
            let d4 = d3.push(("midi_port"@, Json::Number((v.midi_port as nat) as int)));
            json::member_reads_back(
                "      "@,
                "source_steps"@,
                v.source_steps,
                json::raw_value(v.source_steps),
                t6,
                d4,
            );
            let d5 = d4.push(("source_steps"@, json::raw_value(v.source_steps)));
            json::member_reads_back(
                "      "@,
                "note_count"@,
                text::decimal(v.note_count as nat),
                Json::Number((v.note_count as nat) as int),
                t7,
                d5,
            );
            let d6 = d5.push(("note_count"@, Json::Number((v.note_count as nat) as int)));
            json::last_member_reads_back(
                "      "@,
                "cc_count"@,
                text::decimal(v.cc_count as nat),
                Json::Number((v.cc_count as nat) as int),
                "\n    "@,
                r,
                d6,
            );
            let d7 = d6.push(("cc_count"@, Json::Number((v.cc_count as nat) as int)));
            json::object_reads_back("    "@, t1);
            assert(Self::value(v) == Json::Object(d7)) by {
                assert(Self::value(v)->Object_0 =~= d7);
            }
        }
    }

    fn to_item(&self) -> (r: String) {
        let mut out = copy_text("    {\n");
        push_object_string(&mut out, "source_track", self.source_track.as_str(), true);
        push_object_number(&mut out, "midi_track", self.midi_track as u64, true);
        push_object_number(&mut out, "midi_channel", self.midi_channel as u64, true);
        push_object_number(&mut out, "midi_port", self.midi_port as u64, true);
        push_object_raw(&mut out, "source_steps", self.source_steps.as_str(), true);
        push_object_number(&mut out, "note_count", self.note_count as u64, true);
        push_object_number(&mut out, "cc_count", self.cc_count as u64, false);
        out.append("\n    }");
        out
    }
}

impl JsonItem for UnsupportedCommand {
    open spec fn json(v: UnsupportedCommandView) -> Seq<char> {
        "    {\n"@ + object_number_opt("line"@, v.line, true)
            + object_string_opt("track"@, v.track, true)
            + object_string("command"@, v.command, true)
            + object_string("policy"@, v.policy, false) + "\n    }"@
    }

    open spec fn value(v: UnsupportedCommandView) -> Json {
        Json::Object(
            seq![
                ("line"@, json::number_or_null(v.line)),
                ("track"@, json::text_or_null(v.track)),
                ("command"@, Json::Text(v.command)),
                ("policy"@, Json::Text(v.policy)),
            ],
        )
    }

    open spec fn sound(v: UnsupportedCommandView) -> bool {
        true
    }

    proof fn item_reads(v: UnsupportedCommandView) {
        names_are_plain();
        json::optional_number_reads_back(v.line);
        json::optional_text_reads_back(v.track);
        json::quoted_reads_back(v.command);
        json::quoted_reads_back(v.policy);
        assert forall|r: Seq<char>| json::ends_value(r) implies #[trigger] json::read_value(Self::json(v) + r)
            == Some((Self::value(v), r)) by {
            json::item_frame(r);
            let done = Seq::<(Seq<char>, Json)>::empty();
            let head = "    {\n"@;
            let m1 = object_number_opt("line"@, v.line, true);
            let m2 = object_string_opt("track"@, v.track, true);
            let m3 = object_string("command"@, v.command, true);
            let m4 = object_string("policy"@, v.policy, false);
            let t5 = "\n    }"@ + r;
            let t4 = m4 + t5;
            let t3 = m3 + t4;
            let t2 = m2 + t3;
            let t1 = m1 + t2;
            json::joined_in_turn(head + m1 + m2 + m3 + m4, "\n    }"@, r);
            json::joined_in_turn(head + m1 + m2 + m3, m4, t5);
            json::joined_in_turn(head + m1 + m2, m3, t4);
            json::joined_in_turn(head + m1, m2, t3);
            json::joined_in_turn(head, m1, t2);
            json::joined_in_turn("    "@, "{\n"@, t1);
            json::member_reads_back(
                "      "@,
                "line"@,
                json::decimal_or_null(v.line),
                json::number_or_null(v.line),
                t2,
                done,
            );
            let d1 = done.push(("line"@, json::number_or_null(v.line)));
            json::member_reads_back(
                "      "@,
                "track"@,
                quoted_or_null(v.track),
                json::text_or_null(v.track),
                t3,
                d1,
            );
            let d2 = d1.push(("track"@, json::text_or_null(v.track)));
            json::member_reads_back(
                "      "@,
                "command"@,
                quoted(v.command),
                Json::Text(v.command),
                t4,
                d2,
            );
            let d3 = d2.push(("command"@, Json::Text(v.command)));
            json::last_member_reads_back(
                "      "@,
                "policy"@,
                quoted(v.policy),
                Json::Text(v.policy),
                "\n    "@,
                r,
                d3,
            );
            let d4 = d3.push(("policy"@, Json::Text(v.policy)));
            json::object_reads_back("    "@, t1);
            assert(Self::value(v) == Json::Object(d4)) by {
                assert(Self::value(v)->Object_0 =~= d4);
            }
        }
    }

    fn to_item(&self) -> (r: String) {
        let mut out = copy_text("    {\n");
        push_object_number_opt(&mut out, "line", self.line, true);
        push_object_string_opt(&mut out, "track", &self.track, true);
        push_object_string(&mut out, "command", self.command.as_str(), true);
        push_object_string(&mut out, "policy", self.policy.as_str(), false);
        out.append("\n    }");
        out
    }
}

impl JsonItem for IgnoredToneDefinition {
    open spec fn json(v: IgnoredToneDefinitionView) -> Seq<char> {
        "    {\n"@ + object_number_opt("line"@, v.line, true)
            + object_string("command"@, v.command, true) + object_string("text"@, v.text, false)
            + "\n    }"@
    }

    open spec fn value(v: IgnoredToneDefinitionView) -> Json {
        Json::Object(
            seq![
                ("line"@, json::number_or_null(v.line)),
                ("command"@, Json::Text(v.command)),
                ("text"@, Json::Text(v.text)),
            ],
        )
    }

    open spec fn sound(v: IgnoredToneDefinitionView) -> bool {
        true
    }

    proof fn item_reads(v: IgnoredToneDefinitionView) {
        names_are_plain();
        json::optional_number_reads_back(v.line);
        json::quoted_reads_back(v.command);
        json::quoted_reads_back(v.text);
        assert forall|r: Seq<char>| json::ends_value(r) implies #[trigger] json::read_value(Self::json(v) + r)
            == Some((Self::value(v), r)) by {
            json::item_frame(r);
            let done = Seq::<(Seq<char>, Json)>::empty();
            let head = "    {\n"@;
            let m1 = object_number_opt("line"@, v.line, true);
            let m2 = object_string("command"@, v.command, true);
            let m3 = object_string("text"@, v.text, false);
            let t4 = "\n    }"@ + r;
            let t3 = m3 + t4;
            let t2 = m2 + t3;
            let t1 = m1 + t2;
            json::joined_in_turn(head + m1 + m2 + m3, "\n    }"@, r);
            json::joined_in_turn(head + m1 + m2, m3, t4);
            json::joined_in_turn(head + m1, m2, t3);
            json::joined_in_turn(head, m1, t2);
            json::joined_in_turn("    "@, "{\n"@, t1);
            json::member_reads_back(
                "      "@,
                "line"@,
                json::decimal_or_null(v.line),
                json::number_or_null(v.line),
                t2,
                done,
            );
            let d1 = done.push(("line"@, json::number_or_null(v.line)));
            json::member_reads_back(
                "      "@,
                "command"@,
                quoted(v.command),
                Json::Text(v.command),
                t3,
                d1,
            );
            let d2 = d1.push(("command"@, Json::Text(v.command)));
            json::last_member_reads_back(
                "      "@,
                "text"@,
                quoted(v.text),
                Json::Text(v.text),
                "\n    "@,
                r,
                d2,
            );
            let d3 = d2.push(("text"@, Json::Text(v.text)));
            json::object_reads_back("    "@, t1);
            assert(Self::value(v) == Json::Object(d3)) by {
                assert(Self::value(v)->Object_0 =~= d3);
            }
        }
    }

    fn to_item(&self) -> (r: String) {
        let mut out = copy_text("    {\n");
        push_object_number_opt(&mut out, "line", self.line, true);
        push_object_string(&mut out, "command", self.command.as_str(), true);
        push_object_string(&mut out, "text", self.text.as_str(), false);
        out.append("\n    }");
        out
    }
}

impl JsonItem for ParseWarning {
    open spec fn json(v: ParseWarningView) -> Seq<char> {
        "    {\n"@ + object_number_opt("line"@, v.line, true)
            + object_string_opt("track"@, v.track, true)
            + object_string("message"@, v.message, false) + "\n    }"@
    }

    open spec fn value(v: ParseWarningView) -> Json {
        Json::Object(
            seq![
                ("line"@, json::number_or_null(v.line)),
                ("track"@, json::text_or_null(v.track)),
                ("message"@, Json::Text(v.message)),
            ],
        )
    }

    open spec fn sound(v: ParseWarningView) -> bool {
        true
    }

    proof fn item_reads(v: ParseWarningView) {
        names_are_plain();
        json::optional_number_reads_back(v.line);
        json::optional_text_reads_back(v.track);
        json::quoted_reads_back(v.message);
        assert forall|r: Seq<char>| json::ends_value(r) implies #[trigger] json::read_value(Self::json(v) + r)
            == Some((Self::value(v), r)) by {
            json::item_frame(r);
            let done = Seq::<(Seq<char>, Json)>::empty();
            let head = "    {\n"@;
            let m1 = object_number_opt("line"@, v.line, true);
            let m2 = object_string_opt("track"@, v.track, true);
            let m3 = object_string("message"@, v.message, false);
            let t4 = "\n    }"@ + r;
            let t3 = m3 + t4;
            let t2 = m2 + t3;
            let t1 = m1 + t2;
            json::joined_in_turn(head + m1 + m2 + m3, "\n    }"@, r);
            json::joined_in_turn(head + m1 + m2, m3, t4);
            json::joined_in_turn(head + m1, m2, t3);
            json::joined_in_turn(head, m1, t2);
            json::joined_in_turn("    "@, "{\n"@, t1);
            json::member_reads_back(
                "      "@,
                "line"@,
                json::decimal_or_null(v.line),
                json::number_or_null(v.line),
                t2,
                done,
            );
            let d1 = done.push(("line"@, json::number_or_null(v.line)));
            json::member_reads_back(
                "      "@,
                "track"@,
                quoted_or_null(v.track),
                json::text_or_null(v.track),
                t3,
                d1,
            );
            let d2 = d1.push(("track"@, json::text_or_null(v.track)));
            json::last_member_reads_back(
                "      "@,
                "message"@,
                quoted(v.message),
                Json::Text(v.message),
                "\n    "@,
                r,
                d2,
            );
            let d3 = d2.push(("message"@, Json::Text(v.message)));
            json::object_reads_back("    "@, t1);
            assert(Self::value(v) == Json::Object(d3)) by {
                assert(Self::value(v)->Object_0 =~= d3);
            }
        }
    }

    fn to_item(&self) -> (r: String) {
        let mut out = copy_text("    {\n");
        push_object_number_opt(&mut out, "line", self.line, true);
        push_object_string_opt(&mut out, "track", &self.track, true);
        push_object_string(&mut out, "message", self.message.as_str(), false);
        out.append("\n    }");
        out
    }
}

impl JsonItem for ChannelAllocation {
    open spec fn json(v: ChannelAllocationView) -> Seq<char> {
        "    {\n"@ + object_string("source_track"@, v.source_track, true)
            + object_number("midi_track"@, v.midi_track as nat, true)
            + object_number("midi_channel"@, v.midi_channel as nat, true)
            + object_number("midi_port"@, v.midi_port as nat, false) + "\n    }"@
    }

    open spec fn value(v: ChannelAllocationView) -> Json {
        Json::Object(
            seq![
                ("source_track"@, Json::Text(v.source_track)),
                ("midi_track"@, Json::Number((v.midi_track as nat) as int)),
                ("midi_channel"@, Json::Number((v.midi_channel as nat) as int)),
                ("midi_port"@, Json::Number((v.midi_port as nat) as int)),
            ],
        )
    }

    open spec fn sound(v: ChannelAllocationView) -> bool {
        true
    }

    proof fn item_reads(v: ChannelAllocationView) {
        names_are_plain();
        json::quoted_reads_back(v.source_track);
        json::natural_reads_back(v.midi_track as nat);
        json::natural_reads_back(v.midi_channel as nat);
        json::natural_reads_back(v.midi_port as nat);
        assert forall|r: Seq<char>| json::ends_value(r) implies #[trigger] json::read_value(Self::json(v) + r)
            == Some((Self::value(v), r)) by {
            json::item_frame(r);
            let done = Seq::<(Seq<char>, Json)>::empty();
            let head = "    {\n"@;
            let m1 = object_string("source_track"@, v.source_track, true);
            let m2 = object_number("midi_track"@, v.midi_track as nat, true);
            let m3 = object_number("midi_channel"@, v.midi_channel as nat, true);
            let m4 = object_number("midi_port"@, v.midi_port as nat, false);
            let t5 = "\n    }"@ + r;
            let t4 = m4 + t5;
            let t3 = m3 + t4;
            let t2 = m2 + t3;
            let t1 = m1 + t2;
            json::joined_in_turn(head + m1 + m2 + m3 + m4, "\n    }"@, r);
            json::joined_in_turn(head + m1 + m2 + m3, m4, t5);
            json::joined_in_turn(head + m1 + m2, m3, t4);
            json::joined_in_turn(head + m1, m2, t3);
            json::joined_in_turn(head, m1, t2);
            json::joined_in_turn("    "@, "{\n"@, t1);
            json::member_reads_back(
                "      "@,
                "source_track"@,
                quoted(v.source_track),
                Json::Text(v.source_track),
                t2,
                done,
            );
            let d1 = done.push(("source_track"@, Json::Text(v.source_track)));
            json::member_reads_back(
                "      "@,
                "midi_track"@,
                text::decimal(v.midi_track as nat),
                Json::Number((v.midi_track as nat) as int),
                t3,
                d1,
            );
            let d2 = d1.push(("midi_track"@, Json::Number((v.midi_track as nat) as int)));
            json::member_reads_back(
                "      "@,
                "midi_channel"@,
                text::decimal(v.midi_channel as nat),
                Json::Number((v.midi_channel as nat) as int),
                t4,
                d2,
            );
            let d3 = d2.push(("midi_channel"@, Json::Number((v.midi_channel as nat) as int)));
            json::last_member_reads_back(
                "      "@,
                "midi_port"@,
                text::decimal(v.midi_port as nat),
                Json::Number((v.midi_port as nat) as int),
                "\n    "@,
                r,
                d3,
            );
            let d4 = d3.push(("midi_port"@, Json::Number((v.midi_port as nat) as int)));
            json::object_reads_back("    "@, t1);
            assert(Self::value(v) == Json::Object(d4)) by {
                assert(Self::value(v)->Object_0 =~= d4);
            }
        }
    }

    fn to_item(&self) -> (r: String) {
        let mut out = copy_text("    {\n");
        push_object_string(&mut out, "source_track", self.source_track.as_str(), true);
        push_object_number(&mut out, "midi_track", self.midi_track as u64, true);
        push_object_number(&mut out, "midi_channel", self.midi_channel as u64, true);
        push_object_number(&mut out, "midi_port", self.midi_port as u64, false);
        out.append("\n    }");
        out
    }
}

impl JsonItem for LoopMarkerDiagnostic {
    open spec fn json(v: LoopMarkerDiagnosticView) -> Seq<char> {
        "    {\n"@ + object_string("track"@, v.track, true)
            + object_raw("start_step"@, ir::step_json(v.start_step), true)
            + object_raw("end_step"@, ir::step_json(v.end_step), true)
            + object_string("kind"@, v.kind, false) + "\n    }"@
    }

    open spec fn value(v: LoopMarkerDiagnosticView) -> Json {
        Json::Object(
            seq![
                ("track"@, Json::Text(v.track)),
                ("start_step"@, json::step_value(v.start_step)),
                ("end_step"@, json::step_value(v.end_step)),
                ("kind"@, Json::Text(v.kind)),
            ],
        )
    }

    open spec fn sound(v: LoopMarkerDiagnosticView) -> bool {
        true
    }

    proof fn item_reads(v: LoopMarkerDiagnosticView) {
        names_are_plain();
        json::quoted_reads_back(v.track);
        json::steps_read_back(v.start_step);
        json::steps_read_back(v.end_step);
        json::quoted_reads_back(v.kind);
        assert forall|r: Seq<char>| json::ends_value(r) implies #[trigger] json::read_value(Self::json(v) + r)
            == Some((Self::value(v), r)) by {
            json::item_frame(r);
            let done = Seq::<(Seq<char>, Json)>::empty();
            let head = "    {\n"@;
            let m1 = object_string("track"@, v.track, true);
            let m2 = object_raw("start_step"@, ir::step_json(v.start_step), true);
            let m3 = object_raw("end_step"@, ir::step_json(v.end_step), true);
            let m4 = object_string("kind"@, v.kind, false);
            let t5 = "\n    }"@ + r;
            let t4 = m4 + t5;
            let t3 = m3 + t4;
            let t2 = m2 + t3;
            let t1 = m1 + t2;
            json::joined_in_turn(head + m1 + m2 + m3 + m4, "\n    }"@, r);
            json::joined_in_turn(head + m1 + m2 + m3, m4, t5);
            json::joined_in_turn(head + m1 + m2, m3, t4);
            json::joined_in_turn(head + m1, m2, t3);
            json::joined_in_turn(head, m1, t2);
            json::joined_in_turn("    "@, "{\n"@, t1);
            json::member_reads_back("      "@, "track"@, quoted(v.track), Json::Text(v.track), t2, done);
            let d1 = done.push(("track"@, Json::Text(v.track)));
            json::member_reads_back(
                "      "@,
                "start_step"@,
                ir::step_json(v.start_step),
                json::step_value(v.start_step),
                t3,
                d1,
            );
            let d2 = d1.push(("start_step"@, json::step_value(v.start_step)));
            json::member_reads_back(
                "      "@,
                "end_step"@,
                ir::step_json(v.end_step),
                json::step_value(v.end_step),
                t4,
                d2,
            );
            let d3 = d2.push(("end_step"@, json::step_value(v.end_step)));
            json::last_member_reads_back(
                "      "@,
                "kind"@,
                quoted(v.kind),
                Json::Text(v.kind),
                "\n    "@,
                r,
                d3,
            );
            let d4 = d3.push(("kind"@, Json::Text(v.kind)));
            json::object_reads_back("    "@, t1);
            assert(Self::value(v) == Json::Object(d4)) by {
                assert(Self::value(v)->Object_0 =~= d4);
            }
        }
    }

    fn to_item(&self) -> (r: String) {
        let mut out = copy_text("    {\n");
        push_object_string(&mut out, "track", self.track.as_str(), true);
        let start_step = self.start_step.to_source_step_json();
        push_object_raw(&mut out, "start_step", start_step.as_str(), true);
        let end_step = self.end_step.to_source_step_json();
        push_object_raw(&mut out, "end_step", end_step.as_str(), true);
        push_object_string(&mut out, "kind", self.kind.as_str(), false);
        out.append("\n    }");
        out
    }
}

impl JsonItem for ManualSmfDiagnostic {
    open spec fn json(v: ManualSmfDiagnosticView) -> Seq<char> {
        "    {\n"@ + object_number_opt("line"@, v.line, true)
            + object_string_opt("track"@, v.track, true)
            + object_string("command"@, v.command, false) + "\n    }"@
    }

    open spec fn value(v: ManualSmfDiagnosticView) -> Json {
        Json::Object(
            seq![
                ("line"@, json::number_or_null(v.line)),
                ("track"@, json::text_or_null(v.track)),
                ("command"@, Json::Text(v.command)),
            ],
        )
    }

    open spec fn sound(v: ManualSmfDiagnosticView) -> bool {
        true
    }

    proof fn item_reads(v: ManualSmfDiagnosticView) {
        names_are_plain();
        json::optional_number_reads_back(v.line);
        json::optional_text_reads_back(v.track);
        json::quoted_reads_back(v.command);
        assert forall|r: Seq<char>| json::ends_value(r) implies #[trigger] json::read_value(Self::json(v) + r)
            == Some((Self::value(v), r)) by {
            json::item_frame(r);
            let done = Seq::<(Seq<char>, Json)>::empty();
            let head = "    {\n"@;
            let m1 = object_number_opt("line"@, v.line, true);
            let m2 = object_string_opt("track"@, v.track, true);
            let m3 = object_string("command"@, v.command, false);
            let t4 = "\n    }"@ + r;
            let t3 = m3 + t4;
            let t2 = m2 + t3;
            let t1 = m1 + t2;
            json::joined_in_turn(head + m1 + m2 + m3, "\n    }"@, r);
            json::joined_in_turn(head + m1 + m2, m3, t4);
            json::joined_in_turn(head + m1, m2, t3);
            json::joined_in_turn(head, m1, t2);
            json::joined_in_turn("    "@, "{\n"@, t1);
            json::member_reads_back(
                "      "@,
                "line"@,
                json::decimal_or_null(v.line),
                json::number_or_null(v.line),
                t2,
                done,
            );
            let d1 = done.push(("line"@, json::number_or_null(v.line)));
            json::member_reads_back(
                "      "@,
                "track"@,
                quoted_or_null(v.track),
                json::text_or_null(v.track),
                t3,
                d1,
            );
            let d2 = d1.push(("track"@, json::text_or_null(v.track)));
            json::last_member_reads_back(
                "      "@,
                "command"@,
                quoted(v.command),
                Json::Text(v.command),
                "\n    "@,
                r,
                d2,
            );
            let d3 = d2.push(("command"@, Json::Text(v.command)));
            json::object_reads_back("    "@, t1);
            assert(Self::value(v) == Json::Object(d3)) by {
                assert(Self::value(v)->Object_0 =~= d3);
            }
        }
    }

    fn to_item(&self) -> (r: String) {
        let mut out = copy_text("    {\n");
        push_object_number_opt(&mut out, "line", self.line, true);
        push_object_string_opt(&mut out, "track", &self.track, true);
        push_object_string(&mut out, "command", self.command.as_str(), false);
        out.append("\n    }");
        out
    }
}

impl JsonItem for ToneUsage {
    open spec fn json(v: ToneUsageView) -> Seq<char> {
        "    {\n"@ + object_string("track"@, v.track, true)
            + object_string("family"@, v.family, true)
            + object_number("tone"@, v.tone as nat, false) + "\n    }"@
    }

    open spec fn value(v: ToneUsageView) -> Json {
        Json::Object(
            seq![
                ("track"@, Json::Text(v.track)),
                ("family"@, Json::Text(v.family)),
                ("tone"@, Json::Number((v.tone as nat) as int)),
            ],
        )
    }

    open spec fn sound(v: ToneUsageView) -> bool {
        true
    }

    proof fn item_reads(v: ToneUsageView) {
        names_are_plain();
        json::quoted_reads_back(v.track);
        json::quoted_reads_back(v.family);
        json::natural_reads_back(v.tone as nat);
        assert forall|r: Seq<char>| json::ends_value(r) implies #[trigger] json::read_value(Self::json(v) + r)
            == Some((Self::value(v), r)) by {
            json::item_frame(r);
            let done = Seq::<(Seq<char>, Json)>::empty();
            let head = "    {\n"@;
            let m1 = object_string("track"@, v.track, true);
            let m2 = object_string("family"@, v.family, true);
            let m3 = object_number("tone"@, v.tone as nat, false);
            let t4 = "\n    }"@ + r;
            let t3 = m3 + t4;
            let t2 = m2 + t3;
            let t1 = m1 + t2;
            json::joined_in_turn(head + m1 + m2 + m3, "\n    }"@, r);
            json::joined_in_turn(head + m1 + m2, m3, t4);
            json::joined_in_turn(head + m1, m2, t3);
            json::joined_in_turn(head, m1, t2);
            json::joined_in_turn("    "@, "{\n"@, t1);
            json::member_reads_back("      "@, "track"@, quoted(v.track), Json::Text(v.track), t2, done);
            let d1 = done.push(("track"@, Json::Text(v.track)));
            json::member_reads_back("      "@, "family"@, quoted(v.family), Json::Text(v.family), t3, d1);
            let d2 = d1.push(("family"@, Json::Text(v.family)));
            json::last_member_reads_back(
                "      "@,
                "tone"@,
                text::decimal(v.tone as nat),
                Json::Number((v.tone as nat) as int),
                "\n    "@,
                r,
                d2,
            );
            let d3 = d2.push(("tone"@, Json::Number((v.tone as nat) as int)));
            json::object_reads_back("    "@, t1);
            assert(Self::value(v) == Json::Object(d3)) by {
                assert(Self::value(v)->Object_0 =~= d3);
            }
        }
    }

    fn to_item(&self) -> (r: String) {
        let mut out = copy_text("    {\n");
        push_object_string(&mut out, "track", self.track.as_str(), true);
        push_object_string(&mut out, "family", self.family.as_str(), true);
        push_object_number(&mut out, "tone", self.tone as u64, false);
        out.append("\n    }");
        out
    }
}

impl JsonItem for PsgEnvelopeUsage {
    open spec fn json(v: PsgEnvelopeUsageView) -> Seq<char> {
        "    {\n"@ + object_string("track"@, v.track, true)
            + object_number("envelope"@, v.envelope as nat, true)
            + object_string("spelling"@, v.spelling, false) + "\n    }"@
    }

    open spec fn value(v: PsgEnvelopeUsageView) -> Json {
        Json::Object(
            seq![
                ("track"@, Json::Text(v.track)),
                ("envelope"@, Json::Number((v.envelope as nat) as int)),
                ("spelling"@, Json::Text(v.spelling)),
            ],
        )
    }

    open spec fn sound(v: PsgEnvelopeUsageView) -> bool {
        true
    }

    proof fn item_reads(v: PsgEnvelopeUsageView) {
        names_are_plain();
        json::quoted_reads_back(v.track);
        json::natural_reads_back(v.envelope as nat);
        json::quoted_reads_back(v.spelling);
        assert forall|r: Seq<char>| json::ends_value(r) implies #[trigger] json::read_value(Self::json(v) + r)
            == Some((Self::value(v), r)) by {
            json::item_frame(r);
            let done = Seq::<(Seq<char>, Json)>::empty();
            let head = "    {\n"@;
            let m1 = object_string("track"@, v.track, true);
            let m2 = object_number("envelope"@, v.envelope as nat, true);
            let m3 = object_string("spelling"@, v.spelling, false);
            let t4 = "\n    }"@ + r;
            let t3 = m3 + t4;
            let t2 = m2 + t3;
            let t1 = m1 + t2;
            json::joined_in_turn(head + m1 + m2 + m3, "\n    }"@, r);
            json::joined_in_turn(head + m1 + m2, m3, t4);
            json::joined_in_turn(head + m1, m2, t3);
            json::joined_in_turn(head, m1, t2);
            json::joined_in_turn("    "@, "{\n"@, t1);
            json::member_reads_back("      "@, "track"@, quoted(v.track), Json::Text(v.track), t2, done);
            let d1 = done.push(("track"@, Json::Text(v.track)));
            json::member_reads_back(
                "      "@,
                "envelope"@,
                text::decimal(v.envelope as nat),
                Json::Number((v.envelope as nat) as int),
                t3,
                d1,
            );
            let d2 = d1.push(("envelope"@, Json::Number((v.envelope as nat) as int)));
            json::last_member_reads_back(
                "      "@,
                "spelling"@,
                quoted(v.spelling),
                Json::Text(v.spelling),
                "\n    "@,
                r,
                d2,
            );
            let d3 = d2.push(("spelling"@, Json::Text(v.spelling)));
            json::object_reads_back("    "@, t1);
            assert(Self::value(v) == Json::Object(d3)) by {
                assert(Self::value(v)->Object_0 =~= d3);
            }
        }
    }

    fn to_item(&self) -> (r: String) {
        let mut out = copy_text("    {\n");
        push_object_string(&mut out, "track", self.track.as_str(), true);
        push_object_number(&mut out, "envelope", self.envelope as u64, true);
        push_object_string(&mut out, "spelling", self.spelling.as_str(), false);
        out.append("\n    }");
        out
    }
}

impl JsonItem for RegisterWriteUsage {
    open spec fn json(v: RegisterWriteUsageView) -> Seq<char> {
        "    {\n"@ + object_string("track"@, v.track, true)
            + object_string("family"@, v.family, true)
            + object_number("register"@, v.register as nat, true)
            + object_number("data"@, v.data as nat, true)
            + object_string("context"@, v.context, false) + "\n    }"@
    }

    open spec fn value(v: RegisterWriteUsageView) -> Json {
        Json::Object(
            seq![
                ("track"@, Json::Text(v.track)),
                ("family"@, Json::Text(v.family)),
                ("register"@, Json::Number((v.register as nat) as int)),
                ("data"@, Json::Number((v.data as nat) as int)),
                ("context"@, Json::Text(v.context)),
            ],
        )
    }

    open spec fn sound(v: RegisterWriteUsageView) -> bool {
        true
    }

    proof fn item_reads(v: RegisterWriteUsageView) {
        names_are_plain();
        json::quoted_reads_back(v.track);
        json::quoted_reads_back(v.family);
        json::natural_reads_back(v.register as nat);
        json::natural_reads_back(v.data as nat);
        json::quoted_reads_back(v.context);
        assert forall|r: Seq<char>| json::ends_value(r) implies #[trigger] json::read_value(Self::json(v) + r)
            == Some((Self::value(v), r)) by {
            json::item_frame(r);
            let done = Seq::<(Seq<char>, Json)>::empty();
            let head = "    {\n"@;
            let m1 = object_string("track"@, v.track, true);
            let m2 = object_string("family"@, v.family, true);
            let m3 = object_number("register"@, v.register as nat, true);
            let m4 = object_number("data"@, v.data as nat, true);
            let m5 = object_string("context"@, v.context, false);
            let t6 = "\n    }"@ + r;
            let t5 = m5 + t6;
            let t4 = m4 + t5;
            let t3 = m3 + t4;
            let t2 = m2 + t3;
            let t1 = m1 + t2;
            json::joined_in_turn(head + m1 + m2 + m3 + m4 + m5, "\n    }"@, r);
            json::joined_in_turn(head + m1 + m2 + m3 + m4, m5, t6);
            json::joined_in_turn(head + m1 + m2 + m3, m4, t5);
            json::joined_in_turn(head + m1 + m2, m3, t4);
            json::joined_in_turn(head + m1, m2, t3);
            json::joined_in_turn(head, m1, t2);
            json::joined_in_turn("    "@, "{\n"@, t1);
            json::member_reads_back("      "@, "track"@, quoted(v.track), Json::Text(v.track), t2, done);
            let d1 = done.push(("track"@, Json::Text(v.track)));
            json::member_reads_back("      "@, "family"@, quoted(v.family), Json::Text(v.family), t3, d1);
            let d2 = d1.push(("family"@, Json::Text(v.family)));
            json::member_reads_back(
                "      "@,
                "register"@,
                text::decimal(v.register as nat),
                Json::Number((v.register as nat) as int),
                t4,
                d2,
            );
            let d3 = d2.push(("register"@, Json::Number((v.register as nat) as int)));
            json::member_reads_back(
                "      "@,
                "data"@,
                text::decimal(v.data as nat),
                Json::Number((v.data as nat) as int),
                t5,
                d3,
            );
            let d4 = d3.push(("data"@, Json::Number((v.data as nat) as int)));
            json::last_member_reads_back(
                "      "@,
                "context"@,
                quoted(v.context),
                Json::Text(v.context),
                "\n    "@,
                r,
                d4,
            );
            let d5 = d4.push(("context"@, Json::Text(v.context)));
            json::object_reads_back("    "@, t1);
            assert(Self::value(v) == Json::Object(d5)) by {
                assert(Self::value(v)->Object_0 =~= d5);
            }
        }
    }

    fn to_item(&self) -> (r: String) {
        let mut out = copy_text("    {\n");
        push_object_string(&mut out, "track", self.track.as_str(), true);
        push_object_string(&mut out, "family", self.family.as_str(), true);
        push_object_number(&mut out, "register", self.register as u64, true);
        push_object_number(&mut out, "data", self.data as u64, true);
        push_object_string(&mut out, "context", self.context.as_str(), false);
        out.append("\n    }");
        out
    }
}

impl JsonItem for EnvelopeEventCount {
    open spec fn json(v: EnvelopeEventCountView) -> Seq<char> {
        "    {\n"@ + object_string("track"@, v.track, true)
            + object_string("envelope"@, v.envelope, true)
            + object_number("event_count"@, v.event_count as nat, false) + "\n    }"@
    }

    open spec fn value(v: EnvelopeEventCountView) -> Json {
        Json::Object(
            seq![
                ("track"@, Json::Text(v.track)),
                ("envelope"@, Json::Text(v.envelope)),
                ("event_count"@, Json::Number((v.event_count as nat) as int)),
            ],
        )
    }

    open spec fn sound(v: EnvelopeEventCountView) -> bool {
        true
    }

    proof fn item_reads(v: EnvelopeEventCountView) {
        names_are_plain();
        json::quoted_reads_back(v.track);
        json::quoted_reads_back(v.envelope);
        json::natural_reads_back(v.event_count as nat);
        assert forall|r: Seq<char>| json::ends_value(r) implies #[trigger] json::read_value(Self::json(v) + r)
            == Some((Self::value(v), r)) by {
            json::item_frame(r);
            let done = Seq::<(Seq<char>, Json)>::empty();
            let head = "    {\n"@;
            let m1 = object_string("track"@, v.track, true);
            let m2 = object_string("envelope"@, v.envelope, true);
            let m3 = object_number("event_count"@, v.event_count as nat, false);
            let t4 = "\n    }"@ + r;
            let t3 = m3 + t4;
            let t2 = m2 + t3;
            let t1 = m1 + t2;
            json::joined_in_turn(head + m1 + m2 + m3, "\n    }"@, r);
            json::joined_in_turn(head + m1 + m2, m3, t4);
            json::joined_in_turn(head + m1, m2, t3);
            json::joined_in_turn(head, m1, t2);
            json::joined_in_turn("    "@, "{\n"@, t1);
            json::member_reads_back("      "@, "track"@, quoted(v.track), Json::Text(v.track), t2, done);
            let d1 = done.push(("track"@, Json::Text(v.track)));
            json::member_reads_back(
                "      "@,
                "envelope"@,
                quoted(v.envelope),
                Json::Text(v.envelope),
                t3,
                d1,
            );
            let d2 = d1.push(("envelope"@, Json::Text(v.envelope)));
            json::last_member_reads_back(
                "      "@,
                "event_count"@,
                text::decimal(v.event_count as nat),
                Json::Number((v.event_count as nat) as int),
                "\n    "@,
                r,
                d2,
            );
            let d3 = d2.push(("event_count"@, Json::Number((v.event_count as nat) as int)));
            json::object_reads_back("    "@, t1);
            assert(Self::value(v) == Json::Object(d3)) by {
                assert(Self::value(v)->Object_0 =~= d3);
            }
        }
    }

    fn to_item(&self) -> (r: String) {
        let mut out = copy_text("    {\n");
        push_object_string(&mut out, "track", self.track.as_str(), true);
        push_object_string(&mut out, "envelope", self.envelope.as_str(), true);
        push_object_number(&mut out, "event_count", self.event_count as u64, false);
        out.append("\n    }");
        out
    }
}

impl JsonItem for TempoEvent {
    open spec fn json(v: TempoEventView) -> Seq<char> {
        "    {\n"@ + object_raw("source_step"@, ir::step_json(v.at), true)
            + object_number("bpm"@, v.bpm as nat, false) + "\n    }"@
    }

    open spec fn value(v: TempoEventView) -> Json {
        Json::Object(
            seq![
                ("source_step"@, json::step_value(v.at)),
                ("bpm"@, Json::Number((v.bpm as nat) as int)),
            ],
        )
    }

    open spec fn sound(v: TempoEventView) -> bool {
        true
    }

    proof fn item_reads(v: TempoEventView) {
        names_are_plain();
        json::steps_read_back(v.at);
        json::natural_reads_back(v.bpm as nat);
        assert forall|r: Seq<char>| json::ends_value(r) implies #[trigger] json::read_value(Self::json(v) + r)
            == Some((Self::value(v), r)) by {
            json::item_frame(r);
            let done = Seq::<(Seq<char>, Json)>::empty();
            let head = "    {\n"@;
            let m1 = object_raw("source_step"@, ir::step_json(v.at), true);
            let m2 = object_number("bpm"@, v.bpm as nat, false);
            let t3 = "\n    }"@ + r;
            let t2 = m2 + t3;
            let t1 = m1 + t2;
            json::joined_in_turn(head + m1 + m2, "\n    }"@, r);
            json::joined_in_turn(head + m1, m2, t3);
            json::joined_in_turn(head, m1, t2);
            json::joined_in_turn("    "@, "{\n"@, t1);
            json::member_reads_back(
                "      "@,
                "source_step"@,
                ir::step_json(v.at),
                json::step_value(v.at),
                t2,
                done,
            );
            let d1 = done.push(("source_step"@, json::step_value(v.at)));
            json::last_member_reads_back(
                "      "@,
                "bpm"@,
                text::decimal(v.bpm as nat),
                Json::Number((v.bpm as nat) as int),
                "\n    "@,
                r,
                d1,
            );
            let d2 = d1.push(("bpm"@, Json::Number((v.bpm as nat) as int)));
            json::object_reads_back("    "@, t1);
            assert(Self::value(v) == Json::Object(d2)) by {
                assert(Self::value(v)->Object_0 =~= d2);
            }
        }
    }

    fn to_item(&self) -> (r: String) {
        let mut out = copy_text("    {\n");
        let source_step = self.at_steps.to_source_step_json();
        push_object_raw(&mut out, "source_step", source_step.as_str(), true);
        push_object_number(&mut out, "bpm", self.bpm as u64, false);
        out.append("\n    }");
        out
    }
}

// ---------------------------------------------------------------------------
// The report
// ---------------------------------------------------------------------------
/// The report of a conversion.
#[verifier::opaque]
pub open spec fn report_json(d: DiagnosticsView, tempos: Seq<TempoEventView>) -> Seq<char> {
    "{\n"@ + field_string_opt("input"@, d.input_file, true)
        + field_string_opt("output"@, d.output_file, true)
        + field_number("ppq"@, d.ppq as nat, true) + field_string_opt("encoding"@, d.encoding, true)
        + section::<String>("config_files"@, d.config_files, true)
        + section::<TrackSummary>("tracks"@, d.track_summaries, true)
        + section::<TempoEvent>("tempo_map"@, tempos, true)
        + section::<UnsupportedCommand>("unsupported_commands"@, d.unsupported_commands, true)
        + section::<IgnoredToneDefinition>(
            "ignored_tone_definitions"@,
            d.ignored_tone_definitions,
            true,
        )
        + section::<ParseWarning>("parse_warnings"@, d.parse_warnings, true)
        + section::<ChannelAllocation>("channel_allocation"@, d.channel_allocations, true)
        + section::<LoopMarkerDiagnostic>("loop_markers"@, d.loop_markers, true)
        + section::<ManualSmfDiagnostic>("manual_smf_events"@, d.manual_smf_events, true)
        + section::<ToneUsage>("tone_usage"@, d.tone_usage, true)
        + section::<PsgEnvelopeUsage>("psg_envelope_usage"@, d.psg_envelope_usage, true)
        + section::<RegisterWriteUsage>("register_write_usage"@, d.register_write_usage, true)
        + section::<ToneUsage>("unmapped_tones"@, d.unmapped_tones, true)
        + section::<EnvelopeEventCount>("envelope_event_counts"@, d.envelope_event_counts, false)
        + "}\n"@
}

impl Diagnostics {
    /// The report as a JSON text.
    pub fn to_json(&self, tempo_events: &[TempoEvent]) -> (r: String)
        ensures
            r@ == report_json(self.deep_view(), views::all_views(tempo_events@)),
    {
        proof {
            reveal(report_json);
        }
        let mut out = copy_text("{\n");
        push_field_string_opt(&mut out, "input", &self.input_file, true);
        push_field_string_opt(&mut out, "output", &self.output_file, true);
        push_field_number(&mut out, "ppq", self.ppq as u64, true);
        push_field_string_opt(&mut out, "encoding", &self.encoding, true);
        push_section(&mut out, "config_files", &self.config_files, true);
        push_section(&mut out, "tracks", &self.track_summaries, true);
        push_section(&mut out, "tempo_map", tempo_events, true);
        push_section(&mut out, "unsupported_commands", &self.unsupported_commands, true);
        push_section(&mut out, "ignored_tone_definitions", &self.ignored_tone_definitions, true);
        push_section(&mut out, "parse_warnings", &self.parse_warnings, true);
        push_section(&mut out, "channel_allocation", &self.channel_allocations, true);
        push_section(&mut out, "loop_markers", &self.loop_markers, true);
        push_section(&mut out, "manual_smf_events", &self.manual_smf_events, true);
        push_section(&mut out, "tone_usage", &self.tone_usage, true);
        push_section(&mut out, "psg_envelope_usage", &self.psg_envelope_usage, true);
        push_section(&mut out, "register_write_usage", &self.register_write_usage, true);
        push_section(&mut out, "unmapped_tones", &self.unmapped_tones, true);
        push_section(&mut out, "envelope_event_counts", &self.envelope_event_counts, false);
        out.append("}\n");
        out
    }
}

// ---------------------------------------------------------------------------
// Laws
// ---------------------------------------------------------------------------
/// The value that the report of a conversion stands for.
pub open spec fn report_value(d: DiagnosticsView, tempos: Seq<TempoEventView>) -> Json {
    Json::Object(
        third_values(
            d,
            tempos,
            second_values(d, tempos, first_values(d, tempos, Seq::empty())),
        ),
    )
}

proof fn names_are_plain()
    ensures
        json::all_plain("bpm"@, "bpm"@.len() as int),
        json::all_plain("cc_count"@, "cc_count"@.len() as int),
        json::all_plain("channel_allocation"@, "channel_allocation"@.len() as int),
        json::all_plain("command"@, "command"@.len() as int),
        json::all_plain("config_files"@, "config_files"@.len() as int),
        json::all_plain("context"@, "context"@.len() as int),
        json::all_plain("data"@, "data"@.len() as int),
        json::all_plain("encoding"@, "encoding"@.len() as int),
        json::all_plain("end_step"@, "end_step"@.len() as int),
        json::all_plain("envelope"@, "envelope"@.len() as int),
        json::all_plain("envelope_event_counts"@, "envelope_event_counts"@.len() as int),
        json::all_plain("event_count"@, "event_count"@.len() as int),
        json::all_plain("family"@, "family"@.len() as int),
        json::all_plain("ignored_tone_definitions"@, "ignored_tone_definitions"@.len() as int),
        json::all_plain("input"@, "input"@.len() as int),
        json::all_plain("kind"@, "kind"@.len() as int),
        json::all_plain("line"@, "line"@.len() as int),
        json::all_plain("loop_markers"@, "loop_markers"@.len() as int),
        json::all_plain("manual_smf_events"@, "manual_smf_events"@.len() as int),
        json::all_plain("message"@, "message"@.len() as int),
        json::all_plain("midi_channel"@, "midi_channel"@.len() as int),
        json::all_plain("midi_port"@, "midi_port"@.len() as int),
        json::all_plain("midi_track"@, "midi_track"@.len() as int),
        json::all_plain("note_count"@, "note_count"@.len() as int),
        json::all_plain("output"@, "output"@.len() as int),
        json::all_plain("parse_warnings"@, "parse_warnings"@.len() as int),
        json::all_plain("policy"@, "policy"@.len() as int),
        json::all_plain("ppq"@, "ppq"@.len() as int),
        json::all_plain("psg_envelope_usage"@, "psg_envelope_usage"@.len() as int),
        json::all_plain("register"@, "register"@.len() as int),
        json::all_plain("register_write_usage"@, "register_write_usage"@.len() as int),
        json::all_plain("source_step"@, "source_step"@.len() as int),
        json::all_plain("source_steps"@, "source_steps"@.len() as int),
        json::all_plain("source_track"@, "source_track"@.len() as int),
        json::all_plain("spelling"@, "spelling"@.len() as int),
        json::all_plain("start_step"@, "start_step"@.len() as int),
        json::all_plain("tempo_map"@, "tempo_map"@.len() as int),
        json::all_plain("text"@, "text"@.len() as int),
        json::all_plain("tone"@, "tone"@.len() as int),
        json::all_plain("tone_usage"@, "tone_usage"@.len() as int),
        json::all_plain("track"@, "track"@.len() as int),
        json::all_plain("tracks"@, "tracks"@.len() as int),
        json::all_plain("unmapped_tones"@, "unmapped_tones"@.len() as int),
        json::all_plain("unsupported_commands"@, "unsupported_commands"@.len() as int),
{
    assert(json::all_plain("bpm"@, "bpm"@.len() as int)) by {
        reveal_strlit("bpm");
        reveal_with_fuel(json::all_plain, 4);
    }
    assert(json::all_plain("cc_count"@, "cc_count"@.len() as int)) by {
        reveal_strlit("cc_count");
        reveal_with_fuel(json::all_plain, 9);
    }
    assert(json::all_plain("channel_allocation"@, "channel_allocation"@.len() as int)) by {
        reveal_strlit("channel_allocation");
        reveal_with_fuel(json::all_plain, 19);
    }
    assert(json::all_plain("command"@, "command"@.len() as int)) by {
        reveal_strlit("command");
        reveal_with_fuel(json::all_plain, 8);
    }
    assert(json::all_plain("config_files"@, "config_files"@.len() as int)) by {
        reveal_strlit("config_files");
        reveal_with_fuel(json::all_plain, 13);
    }
    assert(json::all_plain("context"@, "context"@.len() as int)) by {
        reveal_strlit("context");
        reveal_with_fuel(json::all_plain, 8);
    }
    assert(json::all_plain("data"@, "data"@.len() as int)) by {
        reveal_strlit("data");
        reveal_with_fuel(json::all_plain, 5);
    }
    assert(json::all_plain("encoding"@, "encoding"@.len() as int)) by {
        reveal_strlit("encoding");
        reveal_with_fuel(json::all_plain, 9);
    }
    assert(json::all_plain("end_step"@, "end_step"@.len() as int)) by {
        reveal_strlit("end_step");
        reveal_with_fuel(json::all_plain, 9);
    }
    assert(json::all_plain("envelope"@, "envelope"@.len() as int)) by {
        reveal_strlit("envelope");
        reveal_with_fuel(json::all_plain, 9);
    }
    assert(json::all_plain("envelope_event_counts"@, "envelope_event_counts"@.len() as int)) by {
        reveal_strlit("envelope_event_counts");
        reveal_with_fuel(json::all_plain, 22);
    }
    assert(json::all_plain("event_count"@, "event_count"@.len() as int)) by {
        reveal_strlit("event_count");
        reveal_with_fuel(json::all_plain, 12);
    }
    assert(json::all_plain("family"@, "family"@.len() as int)) by {
        reveal_strlit("family");
        reveal_with_fuel(json::all_plain, 7);
    }
    assert(json::all_plain("ignored_tone_definitions"@, "ignored_tone_definitions"@.len() as int)) by {
        reveal_strlit("ignored_tone_definitions");
        reveal_with_fuel(json::all_plain, 25);
    }
    assert(json::all_plain("input"@, "input"@.len() as int)) by {
        reveal_strlit("input");
        reveal_with_fuel(json::all_plain, 6);
    }
    assert(json::all_plain("kind"@, "kind"@.len() as int)) by {
        reveal_strlit("kind");
        reveal_with_fuel(json::all_plain, 5);
    }
    assert(json::all_plain("line"@, "line"@.len() as int)) by {
        reveal_strlit("line");
        reveal_with_fuel(json::all_plain, 5);
    }
    assert(json::all_plain("loop_markers"@, "loop_markers"@.len() as int)) by {
        reveal_strlit("loop_markers");
        reveal_with_fuel(json::all_plain, 13);
    }
    assert(json::all_plain("manual_smf_events"@, "manual_smf_events"@.len() as int)) by {
        reveal_strlit("manual_smf_events");
        reveal_with_fuel(json::all_plain, 18);
    }
    assert(json::all_plain("message"@, "message"@.len() as int)) by {
        reveal_strlit("message");
        reveal_with_fuel(json::all_plain, 8);
    }
    assert(json::all_plain("midi_channel"@, "midi_channel"@.len() as int)) by {
        reveal_strlit("midi_channel");
        reveal_with_fuel(json::all_plain, 13);
    }
    assert(json::all_plain("midi_port"@, "midi_port"@.len() as int)) by {
        reveal_strlit("midi_port");
        reveal_with_fuel(json::all_plain, 10);
    }
    assert(json::all_plain("midi_track"@, "midi_track"@.len() as int)) by {
        reveal_strlit("midi_track");
        reveal_with_fuel(json::all_plain, 11);
    }
    assert(json::all_plain("note_count"@, "note_count"@.len() as int)) by {
        reveal_strlit("note_count");
        reveal_with_fuel(json::all_plain, 11);
    }
    assert(json::all_plain("output"@, "output"@.len() as int)) by {
        reveal_strlit("output");
        reveal_with_fuel(json::all_plain, 7);
    }
    assert(json::all_plain("parse_warnings"@, "parse_warnings"@.len() as int)) by {
        reveal_strlit("parse_warnings");
        reveal_with_fuel(json::all_plain, 15);
    }
    assert(json::all_plain("policy"@, "policy"@.len() as int)) by {
        reveal_strlit("policy");
        reveal_with_fuel(json::all_plain, 7);
    }
    assert(json::all_plain("ppq"@, "ppq"@.len() as int)) by {
        reveal_strlit("ppq");
        reveal_with_fuel(json::all_plain, 4);
    }
    assert(json::all_plain("psg_envelope_usage"@, "psg_envelope_usage"@.len() as int)) by {
        reveal_strlit("psg_envelope_usage");
        reveal_with_fuel(json::all_plain, 19);
    }
    assert(json::all_plain("register"@, "register"@.len() as int)) by {
        reveal_strlit("register");
        reveal_with_fuel(json::all_plain, 9);
    }
    assert(json::all_plain("register_write_usage"@, "register_write_usage"@.len() as int)) by {
        reveal_strlit("register_write_usage");
        reveal_with_fuel(json::all_plain, 21);
    }
    assert(json::all_plain("source_step"@, "source_step"@.len() as int)) by {
        reveal_strlit("source_step");
        reveal_with_fuel(json::all_plain, 12);
    }
    assert(json::all_plain("source_steps"@, "source_steps"@.len() as int)) by {
        reveal_strlit("source_steps");
        reveal_with_fuel(json::all_plain, 13);
    }
    assert(json::all_plain("source_track"@, "source_track"@.len() as int)) by {
        reveal_strlit("source_track");
        reveal_with_fuel(json::all_plain, 13);
    }
    assert(json::all_plain("spelling"@, "spelling"@.len() as int)) by {
        reveal_strlit("spelling");
        reveal_with_fuel(json::all_plain, 9);
    }
    assert(json::all_plain("start_step"@, "start_step"@.len() as int)) by {
        reveal_strlit("start_step");
        reveal_with_fuel(json::all_plain, 11);
    }
    assert(json::all_plain("tempo_map"@, "tempo_map"@.len() as int)) by {
        reveal_strlit("tempo_map");
        reveal_with_fuel(json::all_plain, 10);
    }
    assert(json::all_plain("text"@, "text"@.len() as int)) by {
        reveal_strlit("text");
        reveal_with_fuel(json::all_plain, 5);
    }
    assert(json::all_plain("tone"@, "tone"@.len() as int)) by {
        reveal_strlit("tone");
        reveal_with_fuel(json::all_plain, 5);
    }
    assert(json::all_plain("tone_usage"@, "tone_usage"@.len() as int)) by {
        reveal_strlit("tone_usage");
        reveal_with_fuel(json::all_plain, 11);
    }
    assert(json::all_plain("track"@, "track"@.len() as int)) by {
        reveal_strlit("track");
        reveal_with_fuel(json::all_plain, 6);
    }
    assert(json::all_plain("tracks"@, "tracks"@.len() as int)) by {
        reveal_strlit("tracks");
        reveal_with_fuel(json::all_plain, 7);
    }
    assert(json::all_plain("unmapped_tones"@, "unmapped_tones"@.len() as int)) by {
        reveal_strlit("unmapped_tones");
        reveal_with_fuel(json::all_plain, 15);
    }
    assert(json::all_plain("unsupported_commands"@, "unsupported_commands"@.len() as int)) by {
        reveal_strlit("unsupported_commands");
        reveal_with_fuel(json::all_plain, 21);
    }
}

/// The first members of the report, in front of a text.
#[verifier::opaque]
spec fn first_part(d: DiagnosticsView, tempos: Seq<TempoEventView>, rest: Seq<char>) -> Seq<char> {
    field_string_opt("input"@, d.input_file, true) + (
    field_string_opt("output"@, d.output_file, true) + (
    field_number("ppq"@, d.ppq as nat, true) + (
    field_string_opt("encoding"@, d.encoding, true) + (
    section::<String>("config_files"@, d.config_files, true) + (
    section::<TrackSummary>("tracks"@, d.track_summaries, true) + rest
    )))))
}

/// The members after those, in front of a text.
#[verifier::opaque]
spec fn second_part(d: DiagnosticsView, tempos: Seq<TempoEventView>, rest: Seq<char>) -> Seq<char> {
    section::<TempoEvent>("tempo_map"@, tempos, true) + (
    section::<UnsupportedCommand>("unsupported_commands"@, d.unsupported_commands, true) + (
    section::<IgnoredToneDefinition>("ignored_tone_definitions"@, d.ignored_tone_definitions, true) + (
    section::<ParseWarning>("parse_warnings"@, d.parse_warnings, true) + (
    section::<ChannelAllocation>("channel_allocation"@, d.channel_allocations, true) + (
    section::<LoopMarkerDiagnostic>("loop_markers"@, d.loop_markers, true) + rest
    )))))
}

/// The last members of the report, in front of a text.
#[verifier::opaque]
spec fn third_part(d: DiagnosticsView, tempos: Seq<TempoEventView>, rest: Seq<char>) -> Seq<char> {
    section::<ManualSmfDiagnostic>("manual_smf_events"@, d.manual_smf_events, true) + (
    section::<ToneUsage>("tone_usage"@, d.tone_usage, true) + (
    section::<PsgEnvelopeUsage>("psg_envelope_usage"@, d.psg_envelope_usage, true) + (
    section::<RegisterWriteUsage>("register_write_usage"@, d.register_write_usage, true) + (
    section::<ToneUsage>("unmapped_tones"@, d.unmapped_tones, true) + (
    section::<EnvelopeEventCount>("envelope_event_counts"@, d.envelope_event_counts, false) + rest
    )))))
}

/// What those members stand for, after members already read.
#[verifier::opaque]
pub open spec fn first_values(
    d: DiagnosticsView,
    tempos: Seq<TempoEventView>,
    done: Seq<(Seq<char>, Json)>,
) -> Seq<(Seq<char>, Json)> {
    done
        .push(("input"@, json::text_or_null(d.input_file)))
        .push(("output"@, json::text_or_null(d.output_file)))
        .push(("ppq"@, Json::Number((d.ppq as nat) as int)))
        .push(("encoding"@, json::text_or_null(d.encoding)))
        .push(("config_files"@, Json::List(json::list_values::<String>(d.config_files))))
        .push(("tracks"@, Json::List(json::list_values::<TrackSummary>(d.track_summaries))))
}

#[verifier::spinoff_prover]
#[verifier::rlimit(40)]
proof fn first_part_reads(
    d: DiagnosticsView,
    tempos: Seq<TempoEventView>,
    rest: Seq<char>,
    done: Seq<(Seq<char>, Json)>,
)
    requires
        forall|k: int|
            0 <= k < d.track_summaries.len() ==> TrackSummary::sound(
                #[trigger] d.track_summaries[k],
            ),
    ensures
        json::read_members(first_part(d, tempos, rest), done) == json::read_members(
            rest,
            first_values(d, tempos, done),
        ),
        json::begins_with_quote(first_part(d, tempos, rest)),
{
    reveal(first_part);
    reveal(first_values);
    names_are_plain();
    report_indent();
    json::optional_text_reads_back(d.input_file);
    json::optional_text_reads_back(d.output_file);
    json::natural_reads_back(d.ppq as nat);
    json::optional_text_reads_back(d.encoding);
    json::list_reads_back::<String>(d.config_files);
    json::section_is_a_member::<String>("config_files"@, d.config_files, true);
    json::list_reads_back::<TrackSummary>(d.track_summaries);
    json::section_is_a_member::<TrackSummary>("tracks"@, d.track_summaries, true);
    let m1 = field_string_opt("input"@, d.input_file, true);
    let m2 = field_string_opt("output"@, d.output_file, true);
    let m3 = field_number("ppq"@, d.ppq as nat, true);
    let m4 = field_string_opt("encoding"@, d.encoding, true);
    let m5 = section::<String>("config_files"@, d.config_files, true);
    let m6 = section::<TrackSummary>("tracks"@, d.track_summaries, true);
    let t7 = rest;
    let t6 = m6 + t7;
    let t5 = m5 + t6;
    let t4 = m4 + t5;
    let t3 = m3 + t4;
    let t2 = m2 + t3;
    let t1 = m1 + t2;
    json::member_reads_back(
        "  "@,
        "input"@,
        quoted_or_null(d.input_file),
        json::text_or_null(d.input_file),
        t2,
        done,
    );
    let d1 = done.push(("input"@, json::text_or_null(d.input_file)));
    json::member_reads_back(
        "  "@,
        "output"@,
        quoted_or_null(d.output_file),
        json::text_or_null(d.output_file),
        t3,
        d1,
    );
    let d2 = d1.push(("output"@, json::text_or_null(d.output_file)));
    json::member_reads_back(
        "  "@,
        "ppq"@,
        text::decimal(d.ppq as nat),
        Json::Number((d.ppq as nat) as int),
        t4,
        d2,
    );
    let d3 = d2.push(("ppq"@, Json::Number((d.ppq as nat) as int)));
    json::member_reads_back(
        "  "@,
        "encoding"@,
        quoted_or_null(d.encoding),
        json::text_or_null(d.encoding),
        t5,
        d3,
    );
    let d4 = d3.push(("encoding"@, json::text_or_null(d.encoding)));
    json::member_reads_back(
        "  "@,
        "config_files"@,
        json::list_text::<String>(d.config_files),
        Json::List(json::list_values::<String>(d.config_files)),
        t6,
        d4,
    );
    let d5 = d4.push(("config_files"@, Json::List(json::list_values::<String>(d.config_files))));
    json::member_reads_back(
        "  "@,
        "tracks"@,
        json::list_text::<TrackSummary>(d.track_summaries),
        Json::List(json::list_values::<TrackSummary>(d.track_summaries)),
        t7,
        d5,
    );
}

/// What those members stand for, after members already read.
#[verifier::opaque]
pub open spec fn second_values(
    d: DiagnosticsView,
    tempos: Seq<TempoEventView>,
    done: Seq<(Seq<char>, Json)>,
) -> Seq<(Seq<char>, Json)> {
    done
        .push(("tempo_map"@, Json::List(json::list_values::<TempoEvent>(tempos))))
        .push(("unsupported_commands"@, Json::List(json::list_values::<UnsupportedCommand>(d.unsupported_commands))))
        .push(("ignored_tone_definitions"@, Json::List(json::list_values::<IgnoredToneDefinition>(d.ignored_tone_definitions))))
        .push(("parse_warnings"@, Json::List(json::list_values::<ParseWarning>(d.parse_warnings))))
        .push(("channel_allocation"@, Json::List(json::list_values::<ChannelAllocation>(d.channel_allocations))))
        .push(("loop_markers"@, Json::List(json::list_values::<LoopMarkerDiagnostic>(d.loop_markers))))
}

#[verifier::spinoff_prover]
#[verifier::rlimit(40)]
proof fn second_part_reads(
    d: DiagnosticsView,
    tempos: Seq<TempoEventView>,
    rest: Seq<char>,
    done: Seq<(Seq<char>, Json)>,
)
    ensures
        json::read_members(second_part(d, tempos, rest), done) == json::read_members(
            rest,
            second_values(d, tempos, done),
        ),
{
    reveal(second_part);
    reveal(second_values);
    names_are_plain();
    report_indent();
    json::list_reads_back::<TempoEvent>(tempos);
    json::section_is_a_member::<TempoEvent>("tempo_map"@, tempos, true);
    json::list_reads_back::<UnsupportedCommand>(d.unsupported_commands);
    json::section_is_a_member::<UnsupportedCommand>(
        "unsupported_commands"@,
        d.unsupported_commands,
        true,
    );
    json::list_reads_back::<IgnoredToneDefinition>(d.ignored_tone_definitions);
    json::section_is_a_member::<IgnoredToneDefinition>(
        "ignored_tone_definitions"@,
        d.ignored_tone_definitions,
        true,
    );
    json::list_reads_back::<ParseWarning>(d.parse_warnings);
    json::section_is_a_member::<ParseWarning>("parse_warnings"@, d.parse_warnings, true);
    json::list_reads_back::<ChannelAllocation>(d.channel_allocations);
    json::section_is_a_member::<ChannelAllocation>(
        "channel_allocation"@,
        d.channel_allocations,
        true,
    );
    json::list_reads_back::<LoopMarkerDiagnostic>(d.loop_markers);
    json::section_is_a_member::<LoopMarkerDiagnostic>("loop_markers"@, d.loop_markers, true);
    let m7 = section::<TempoEvent>("tempo_map"@, tempos, true);
    let m8 = section::<UnsupportedCommand>("unsupported_commands"@, d.unsupported_commands, true);
    let m9 = section::<IgnoredToneDefinition>(
        "ignored_tone_definitions"@,
        d.ignored_tone_definitions,
        true,
    );
    let m10 = section::<ParseWarning>("parse_warnings"@, d.parse_warnings, true);
    let m11 = section::<ChannelAllocation>("channel_allocation"@, d.channel_allocations, true);
    let m12 = section::<LoopMarkerDiagnostic>("loop_markers"@, d.loop_markers, true);
    let t13 = rest;
    let t12 = m12 + t13;
    let t11 = m11 + t12;
    let t10 = m10 + t11;
    let t9 = m9 + t10;
    let t8 = m8 + t9;
    let t7 = m7 + t8;
    json::member_reads_back(
        "  "@,
        "tempo_map"@,
        json::list_text::<TempoEvent>(tempos),
        Json::List(json::list_values::<TempoEvent>(tempos)),
        t8,
        done,
    );
    let d7 = done.push(("tempo_map"@, Json::List(json::list_values::<TempoEvent>(tempos))));
    json::member_reads_back(
        "  "@,
        "unsupported_commands"@,
        json::list_text::<UnsupportedCommand>(d.unsupported_commands),
        Json::List(json::list_values::<UnsupportedCommand>(d.unsupported_commands)),
        t9,
        d7,
    );
    let d8 = d7.push(
        ("unsupported_commands"@, Json::List(json::list_values::<UnsupportedCommand>(d.unsupported_commands))),
    );
    json::member_reads_back(
        "  "@,
        "ignored_tone_definitions"@,
        json::list_text::<IgnoredToneDefinition>(d.ignored_tone_definitions),
        Json::List(json::list_values::<IgnoredToneDefinition>(d.ignored_tone_definitions)),
        t10,
        d8,
    );
    let d9 = d8.push(
        ("ignored_tone_definitions"@, Json::List(json::list_values::<IgnoredToneDefinition>(d.ignored_tone_definitions))),
    );
    json::member_reads_back(
        "  "@,
        "parse_warnings"@,
        json::list_text::<ParseWarning>(d.parse_warnings),
        Json::List(json::list_values::<ParseWarning>(d.parse_warnings)),
        t11,
        d9,
    );
    let d10 = d9.push(
        ("parse_warnings"@, Json::List(json::list_values::<ParseWarning>(d.parse_warnings))),
    );
    json::member_reads_back(
        "  "@,
        "channel_allocation"@,
        json::list_text::<ChannelAllocation>(d.channel_allocations),
        Json::List(json::list_values::<ChannelAllocation>(d.channel_allocations)),
        t12,
        d10,
    );
    let d11 = d10.push(
        ("channel_allocation"@, Json::List(json::list_values::<ChannelAllocation>(d.channel_allocations))),
    );
    json::member_reads_back(
        "  "@,
        "loop_markers"@,
        json::list_text::<LoopMarkerDiagnostic>(d.loop_markers),
        Json::List(json::list_values::<LoopMarkerDiagnostic>(d.loop_markers)),
        t13,
        d11,
    );
}

/// What those members stand for, after members already read.
#[verifier::opaque]
pub open spec fn third_values(
    d: DiagnosticsView,
    tempos: Seq<TempoEventView>,
    done: Seq<(Seq<char>, Json)>,
) -> Seq<(Seq<char>, Json)> {
    done
        .push(("manual_smf_events"@, Json::List(json::list_values::<ManualSmfDiagnostic>(d.manual_smf_events))))
        .push(("tone_usage"@, Json::List(json::list_values::<ToneUsage>(d.tone_usage))))
        .push(("psg_envelope_usage"@, Json::List(json::list_values::<PsgEnvelopeUsage>(d.psg_envelope_usage))))
        .push(("register_write_usage"@, Json::List(json::list_values::<RegisterWriteUsage>(d.register_write_usage))))
        .push(("unmapped_tones"@, Json::List(json::list_values::<ToneUsage>(d.unmapped_tones))))
        .push(("envelope_event_counts"@, Json::List(json::list_values::<EnvelopeEventCount>(d.envelope_event_counts))))
}

#[verifier::spinoff_prover]
#[verifier::rlimit(40)]
proof fn third_part_reads(
    d: DiagnosticsView,
    tempos: Seq<TempoEventView>,
    rest: Seq<char>,
    done: Seq<(Seq<char>, Json)>,
)
    ensures
        json::read_members(third_part(d, tempos, seq!['}'] + rest), done) == Some(
            (Json::Object(third_values(d, tempos, done)), rest),
        ),
{
    reveal(third_part);
    reveal(third_values);
    names_are_plain();
    report_indent();
    json::list_reads_back::<ManualSmfDiagnostic>(d.manual_smf_events);
    json::section_is_a_member::<ManualSmfDiagnostic>(
        "manual_smf_events"@,
        d.manual_smf_events,
        true,
    );
    json::list_reads_back::<ToneUsage>(d.tone_usage);
    json::section_is_a_member::<ToneUsage>("tone_usage"@, d.tone_usage, true);
    json::list_reads_back::<PsgEnvelopeUsage>(d.psg_envelope_usage);
    json::section_is_a_member::<PsgEnvelopeUsage>(
        "psg_envelope_usage"@,
        d.psg_envelope_usage,
        true,
    );
    json::list_reads_back::<RegisterWriteUsage>(d.register_write_usage);
    json::section_is_a_member::<RegisterWriteUsage>(
        "register_write_usage"@,
        d.register_write_usage,
        true,
    );
    json::list_reads_back::<ToneUsage>(d.unmapped_tones);
    json::section_is_a_member::<ToneUsage>("unmapped_tones"@, d.unmapped_tones, true);
    json::list_reads_back::<EnvelopeEventCount>(d.envelope_event_counts);
    json::section_is_a_member::<EnvelopeEventCount>(
        "envelope_event_counts"@,
        d.envelope_event_counts,
        false,
    );
    let none = Seq::<char>::empty();
    let m13 = section::<ManualSmfDiagnostic>("manual_smf_events"@, d.manual_smf_events, true);
    let m14 = section::<ToneUsage>("tone_usage"@, d.tone_usage, true);
    let m15 = section::<PsgEnvelopeUsage>("psg_envelope_usage"@, d.psg_envelope_usage, true);
    let m16 = section::<RegisterWriteUsage>("register_write_usage"@, d.register_write_usage, true);
    let m17 = section::<ToneUsage>("unmapped_tones"@, d.unmapped_tones, true);
    let m18 = section::<EnvelopeEventCount>(
        "envelope_event_counts"@,
        d.envelope_event_counts,
        false,
    );
    let t19 = seq!['}'] + rest;
    json::nothing_in_front(t19);
    let t18 = m18 + t19;
    let t17 = m17 + t18;
    let t16 = m16 + t17;
    let t15 = m15 + t16;
    let t14 = m14 + t15;
    let t13 = m13 + t14;
    json::member_reads_back(
        "  "@,
        "manual_smf_events"@,
        json::list_text::<ManualSmfDiagnostic>(d.manual_smf_events),
        Json::List(json::list_values::<ManualSmfDiagnostic>(d.manual_smf_events)),
        t14,
        done,
    );
    let d13 = done.push(
        ("manual_smf_events"@, Json::List(json::list_values::<ManualSmfDiagnostic>(d.manual_smf_events))),
    );
    json::member_reads_back(
        "  "@,
        "tone_usage"@,
        json::list_text::<ToneUsage>(d.tone_usage),
        Json::List(json::list_values::<ToneUsage>(d.tone_usage)),
        t15,
        d13,
    );
    let d14 = d13.push(("tone_usage"@, Json::List(json::list_values::<ToneUsage>(d.tone_usage))));
    json::member_reads_back(
        "  "@,
        "psg_envelope_usage"@,
        json::list_text::<PsgEnvelopeUsage>(d.psg_envelope_usage),
        Json::List(json::list_values::<PsgEnvelopeUsage>(d.psg_envelope_usage)),
        t16,
        d14,
    );
    let d15 = d14.push(
        ("psg_envelope_usage"@, Json::List(json::list_values::<PsgEnvelopeUsage>(d.psg_envelope_usage))),
    );
    json::member_reads_back(
        "  "@,
        "register_write_usage"@,
        json::list_text::<RegisterWriteUsage>(d.register_write_usage),
        Json::List(json::list_values::<RegisterWriteUsage>(d.register_write_usage)),
        t17,
        d15,
    );
    let d16 = d15.push(
        ("register_write_usage"@, Json::List(json::list_values::<RegisterWriteUsage>(d.register_write_usage))),
    );
    json::member_reads_back(
        "  "@,
        "unmapped_tones"@,
        json::list_text::<ToneUsage>(d.unmapped_tones),
        Json::List(json::list_values::<ToneUsage>(d.unmapped_tones)),
        t18,
        d16,
    );
    let d17 = d16.push(
        ("unmapped_tones"@, Json::List(json::list_values::<ToneUsage>(d.unmapped_tones))),
    );
    json::last_member_reads_back(
        "  "@,
        "envelope_event_counts"@,
        json::list_text::<EnvelopeEventCount>(d.envelope_event_counts),
        Json::List(json::list_values::<EnvelopeEventCount>(d.envelope_event_counts)),
        none,
        rest,
        d17,
    );
}

proof fn report_indent()
    ensures
        json::all_blank("  "@, "  "@.len() as int),
{
    reveal_strlit("  ");
    reveal_with_fuel(json::all_blank, 3);
}

/// The text of the report, part by part.
#[verifier::spinoff_prover]
#[verifier::rlimit(40)]
proof fn report_has_three_parts(d: DiagnosticsView, tempos: Seq<TempoEventView>)
    ensures
        report_json(d, tempos) == "{\n"@ + first_part(
            d,
            tempos,
            second_part(d, tempos, third_part(d, tempos, "}\n"@)),
        ),
{
    reveal(report_json);
    reveal(first_part);
    reveal(second_part);
    reveal(third_part);
    let head = "{\n"@;
    let m1 = field_string_opt("input"@, d.input_file, true);
    let m2 = field_string_opt("output"@, d.output_file, true);
    let m3 = field_number("ppq"@, d.ppq as nat, true);
    let m4 = field_string_opt("encoding"@, d.encoding, true);
    let m5 = section::<String>("config_files"@, d.config_files, true);
    let m6 = section::<TrackSummary>("tracks"@, d.track_summaries, true);
    let m7 = section::<TempoEvent>("tempo_map"@, tempos, true);
    let m8 = section::<UnsupportedCommand>("unsupported_commands"@, d.unsupported_commands, true);
    let m9 = section::<IgnoredToneDefinition>(
        "ignored_tone_definitions"@,
        d.ignored_tone_definitions,
        true,
    );
    let m10 = section::<ParseWarning>("parse_warnings"@, d.parse_warnings, true);
    let m11 = section::<ChannelAllocation>("channel_allocation"@, d.channel_allocations, true);
    let m12 = section::<LoopMarkerDiagnostic>("loop_markers"@, d.loop_markers, true);
    let m13 = section::<ManualSmfDiagnostic>("manual_smf_events"@, d.manual_smf_events, true);
    let m14 = section::<ToneUsage>("tone_usage"@, d.tone_usage, true);
    let m15 = section::<PsgEnvelopeUsage>("psg_envelope_usage"@, d.psg_envelope_usage, true);
    let m16 = section::<RegisterWriteUsage>("register_write_usage"@, d.register_write_usage, true);
    let m17 = section::<ToneUsage>("unmapped_tones"@, d.unmapped_tones, true);
    let m18 = section::<EnvelopeEventCount>(
        "envelope_event_counts"@,
        d.envelope_event_counts,
        false,
    );
    let t19 = "}\n"@;
    let t18 = m18 + t19;
    let t17 = m17 + t18;
    let t16 = m16 + t17;
    let t15 = m15 + t16;
    let t14 = m14 + t15;
    let t13 = m13 + t14;
    let t12 = m12 + t13;
    let t11 = m11 + t12;
    let t10 = m10 + t11;
    let t9 = m9 + t10;
    let t8 = m8 + t9;
    let t7 = m7 + t8;
    let t6 = m6 + t7;
    let t5 = m5 + t6;
    let t4 = m4 + t5;
    let t3 = m3 + t4;
    let t2 = m2 + t3;
    let t1 = m1 + t2;
    let p1 = head + m1;
    let p2 = p1 + m2;
    let p3 = p2 + m3;
    let p4 = p3 + m4;
    let p5 = p4 + m5;
    let p6 = p5 + m6;
    let p7 = p6 + m7;
    let p8 = p7 + m8;
    let p9 = p8 + m9;
    let p10 = p9 + m10;
    let p11 = p10 + m11;
    let p12 = p11 + m12;
    let p13 = p12 + m13;
    let p14 = p13 + m14;
    let p15 = p14 + m15;
    let p16 = p15 + m16;
    let p17 = p16 + m17;
    let p18 = p17 + m18;
    json::joined_in_turn(p17, m18, t19);
    json::joined_in_turn(p16, m17, t18);
    json::joined_in_turn(p15, m16, t17);
    json::joined_in_turn(p14, m15, t16);
    json::joined_in_turn(p13, m14, t15);
    json::joined_in_turn(p12, m13, t14);
    json::joined_in_turn(p11, m12, t13);
    json::joined_in_turn(p10, m11, t12);
    json::joined_in_turn(p9, m10, t11);
    json::joined_in_turn(p8, m9, t10);
    json::joined_in_turn(p7, m8, t9);
    json::joined_in_turn(p6, m7, t8);
    json::joined_in_turn(p5, m6, t7);
    json::joined_in_turn(p4, m5, t6);
    json::joined_in_turn(p3, m4, t5);
    json::joined_in_turn(p2, m3, t4);
    json::joined_in_turn(p1, m2, t3);
    json::joined_in_turn(head, m1, t2);
}

/// An object in front of a line feed is a whole text.
proof fn object_is_read(members: Seq<char>, v: Json)
    requires
        json::begins_with_quote(members),
        json::read_members(members, Seq::empty()) == Some((v, "\n"@)),
    ensures
        json::read_json("{\n"@ + members) == Some(v),
{
    reveal_strlit("\n");
    json::nothing_in_front("{\n"@ + members);
    json::object_reads_back(Seq::empty(), members);
    assert(json::ws("\n"@).len() == 0) by {
        reveal_with_fuel(json::ws, 2);
    }
}

/// The report of a conversion is a JSON text, and reads back as what was reported:
/// every text, every number and every list, in their order.
pub proof fn report_reads_back(d: DiagnosticsView, tempos: Seq<TempoEventView>)
    requires
        forall|k: int|
            0 <= k < d.track_summaries.len() ==> TrackSummary::sound(
                #[trigger] d.track_summaries[k],
            ),
    ensures
        json::read_json(report_json(d, tempos)) == Some(report_value(d, tempos)),
{
    reveal_strlit("}\n");
    reveal_strlit("\n");
    let done = Seq::<(Seq<char>, Json)>::empty();
    let rest = "\n"@;
    let close = "}\n"@;
    assert(close =~= seq!['}'] + rest);
    report_has_three_parts(d, tempos);
    let third = third_part(d, tempos, close);
    let second = second_part(d, tempos, third);
    let first = first_part(d, tempos, second);
    first_part_reads(d, tempos, second, done);
    let d1 = first_values(d, tempos, done);
    second_part_reads(d, tempos, third, d1);
    let d2 = second_values(d, tempos, d1);
    third_part_reads(d, tempos, rest, d2);
    object_is_read(first, report_value(d, tempos));
}

/// The summary of a track holds a count of steps that reads back.
pub proof fn summaries_are_sound(s: TrackSummaryView, length: Frac)
    requires
        s.source_steps == ir::step_json(length),
    ensures
        TrackSummary::sound(s),
{
    json::steps_read_back(length);
    json::raw_value_is_read(ir::step_json(length), json::step_value(length));
}

} // verus!
