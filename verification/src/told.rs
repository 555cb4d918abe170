//! What the report of a conversion tells.

use crate::report::JsonItem;
use vstd::prelude::*;

use crate::diagnostics::{
    ChannelAllocation, ChannelAllocationView, DiagnosticsView, EnvelopeEventCount,
    EnvelopeEventCountView, IgnoredToneDefinition, IgnoredToneDefinitionView, ManualSmfDiagnostic,
    ManualSmfDiagnosticView, ParseWarning, ParseWarningView, PsgEnvelopeUsage,
    PsgEnvelopeUsageView, RegisterWriteUsage, RegisterWriteUsageView, ToneUsage, ToneUsageView,
    TrackSummary, TrackSummaryView, UnsupportedCommand, UnsupportedCommandView,
};
use crate::ir::{TempoEvent, TempoEventView};
use crate::json::Json;
use crate::report;

verus! {

/// A value is told under a name.
pub open spec fn tells(j: Json, name: Seq<char>, v: Json) -> bool {
    j matches Json::Object(members) && exists|i: int|
        0 <= i < members.len() && #[trigger] members[i] == (name, v)
}

/// A number, or nothing.
pub open spec fn told_number(n: Option<usize>) -> Json {
    match n {
        Some(k) => Json::Number(k as int),
        None => Json::Null,
    }
}

/// A text, or nothing.
pub open spec fn told_text(s: Option<Seq<char>>) -> Json {
    match s {
        Some(t) => Json::Text(t),
        None => Json::Null,
    }
}

proof fn told_at(members: Seq<(Seq<char>, Json)>, i: int, name: Seq<char>, v: Json)
    requires
        0 <= i < members.len(),
        members[i] == (name, v),
    ensures
        tells(Json::Object(members), name, v),
{
    let told = Json::Object(members)->Object_0;
    assert(told[i] == (name, v));
}

/// Of each track the report tells which one it is, where it went and what is on
/// it; of each channel that was given, whose it is.
pub proof fn tracks_are_told(v: TrackSummaryView, a: ChannelAllocationView)
    ensures
        tells(TrackSummary::value(v), "source_track"@, Json::Text(v.source_track)),
        tells(TrackSummary::value(v), "midi_track"@, Json::Number(v.midi_track as int)),
        tells(TrackSummary::value(v), "midi_channel"@, Json::Number(v.midi_channel as int)),
        tells(TrackSummary::value(v), "midi_port"@, Json::Number(v.midi_port as int)),
        tells(TrackSummary::value(v), "note_count"@, Json::Number(v.note_count as int)),
        tells(TrackSummary::value(v), "cc_count"@, Json::Number(v.cc_count as int)),
        tells(ChannelAllocation::value(a), "source_track"@, Json::Text(a.source_track)),
        tells(ChannelAllocation::value(a), "midi_track"@, Json::Number(a.midi_track as int)),
        tells(ChannelAllocation::value(a), "midi_channel"@, Json::Number(a.midi_channel as int)),
        tells(ChannelAllocation::value(a), "midi_port"@, Json::Number(a.midi_port as int)),
{
    let m = TrackSummary::value(v)->Object_0;
    told_at(m, 0, "source_track"@, Json::Text(v.source_track));
    told_at(m, 1, "midi_track"@, Json::Number(v.midi_track as int));
    told_at(m, 2, "midi_channel"@, Json::Number(v.midi_channel as int));
    told_at(m, 3, "midi_port"@, Json::Number(v.midi_port as int));
    told_at(m, 5, "note_count"@, Json::Number(v.note_count as int));
    told_at(m, 6, "cc_count"@, Json::Number(v.cc_count as int));
    let n = ChannelAllocation::value(a)->Object_0;
    told_at(n, 0, "source_track"@, Json::Text(a.source_track));
    told_at(n, 1, "midi_track"@, Json::Number(a.midi_track as int));
    told_at(n, 2, "midi_channel"@, Json::Number(a.midi_channel as int));
    told_at(n, 3, "midi_port"@, Json::Number(a.midi_port as int));
}

/// Of what was not understood or not rendered the report tells the line, the
/// track, what it was and what became of it.
pub proof fn problems_are_told(
    u: UnsupportedCommandView,
    w: ParseWarningView,
    d: IgnoredToneDefinitionView,
)
    ensures
        tells(UnsupportedCommand::value(u), "line"@, told_number(u.line)),
        tells(UnsupportedCommand::value(u), "track"@, told_text(u.track)),
        tells(UnsupportedCommand::value(u), "command"@, Json::Text(u.command)),
        tells(UnsupportedCommand::value(u), "policy"@, Json::Text(u.policy)),
        tells(ParseWarning::value(w), "line"@, told_number(w.line)),
        tells(ParseWarning::value(w), "track"@, told_text(w.track)),
        tells(ParseWarning::value(w), "message"@, Json::Text(w.message)),
        tells(IgnoredToneDefinition::value(d), "line"@, told_number(d.line)),
        tells(IgnoredToneDefinition::value(d), "command"@, Json::Text(d.command)),
        tells(IgnoredToneDefinition::value(d), "text"@, Json::Text(d.text)),
{
    let a = UnsupportedCommand::value(u)->Object_0;
    told_at(a, 0, "line"@, told_number(u.line));
    told_at(a, 1, "track"@, told_text(u.track));
    told_at(a, 2, "command"@, Json::Text(u.command));
    told_at(a, 3, "policy"@, Json::Text(u.policy));
    let b = ParseWarning::value(w)->Object_0;
    told_at(b, 0, "line"@, told_number(w.line));
    told_at(b, 1, "track"@, told_text(w.track));
    told_at(b, 2, "message"@, Json::Text(w.message));
    let c = IgnoredToneDefinition::value(d)->Object_0;
    told_at(c, 0, "line"@, told_number(d.line));
    told_at(c, 1, "command"@, Json::Text(d.command));
    told_at(c, 2, "text"@, Json::Text(d.text));
}

/// Of what the source uses the report tells where, and which.
pub proof fn uses_are_told(
    t: ToneUsageView,
    p: PsgEnvelopeUsageView,
    r: RegisterWriteUsageView,
    c: EnvelopeEventCountView,
    m: ManualSmfDiagnosticView,
    e: TempoEventView,
)
    ensures
        tells(ToneUsage::value(t), "track"@, Json::Text(t.track)),
        tells(ToneUsage::value(t), "family"@, Json::Text(t.family)),
        tells(ToneUsage::value(t), "tone"@, Json::Number(t.tone as int)),
        tells(PsgEnvelopeUsage::value(p), "track"@, Json::Text(p.track)),
        tells(PsgEnvelopeUsage::value(p), "envelope"@, Json::Number(p.envelope as int)),
        tells(PsgEnvelopeUsage::value(p), "spelling"@, Json::Text(p.spelling)),
        tells(RegisterWriteUsage::value(r), "track"@, Json::Text(r.track)),
        tells(RegisterWriteUsage::value(r), "family"@, Json::Text(r.family)),
        tells(RegisterWriteUsage::value(r), "register"@, Json::Number(r.register as int)),
        tells(RegisterWriteUsage::value(r), "data"@, Json::Number(r.data as int)),
        tells(RegisterWriteUsage::value(r), "context"@, Json::Text(r.context)),
        tells(EnvelopeEventCount::value(c), "track"@, Json::Text(c.track)),
        tells(EnvelopeEventCount::value(c), "envelope"@, Json::Text(c.envelope)),
        tells(EnvelopeEventCount::value(c), "event_count"@, Json::Number(c.event_count as int)),
        tells(ManualSmfDiagnostic::value(m), "line"@, told_number(m.line)),
        tells(ManualSmfDiagnostic::value(m), "track"@, told_text(m.track)),
        tells(ManualSmfDiagnostic::value(m), "command"@, Json::Text(m.command)),
        tells(TempoEvent::value(e), "bpm"@, Json::Number(e.bpm as int)),
{
    let a = ToneUsage::value(t)->Object_0;
    told_at(a, 0, "track"@, Json::Text(t.track));
    told_at(a, 1, "family"@, Json::Text(t.family));
    told_at(a, 2, "tone"@, Json::Number(t.tone as int));
    let b = PsgEnvelopeUsage::value(p)->Object_0;
    told_at(b, 0, "track"@, Json::Text(p.track));
    told_at(b, 1, "envelope"@, Json::Number(p.envelope as int));
    told_at(b, 2, "spelling"@, Json::Text(p.spelling));
    let d = RegisterWriteUsage::value(r)->Object_0;
    told_at(d, 0, "track"@, Json::Text(r.track));
    told_at(d, 1, "family"@, Json::Text(r.family));
    told_at(d, 2, "register"@, Json::Number(r.register as int));
    told_at(d, 3, "data"@, Json::Number(r.data as int));
    told_at(d, 4, "context"@, Json::Text(r.context));
    let f = EnvelopeEventCount::value(c)->Object_0;
    told_at(f, 0, "track"@, Json::Text(c.track));
    told_at(f, 1, "envelope"@, Json::Text(c.envelope));
    told_at(f, 2, "event_count"@, Json::Number(c.event_count as int));
    let g = ManualSmfDiagnostic::value(m)->Object_0;
    told_at(g, 0, "line"@, told_number(m.line));
    told_at(g, 1, "track"@, told_text(m.track));
    told_at(g, 2, "command"@, Json::Text(m.command));
    let h = TempoEvent::value(e)->Object_0;
    told_at(h, 1, "bpm"@, Json::Number(e.bpm as int));
}

/// A list is told under a name: as many items as there are.
pub open spec fn tells_list(j: Json, name: Seq<char>, n: int) -> bool {
    exists|items: Seq<Json>| items.len() == n && #[trigger] tells(j, name, Json::List(items))
}

proof fn list_is_told(
    members: Seq<(Seq<char>, Json)>,
    i: int,
    name: Seq<char>,
    items: Seq<Json>,
    n: int,
)
    requires
        0 <= i < members.len(),
        members[i] == (name, Json::List(items)),
        items.len() == n,
    ensures
        tells_list(Json::Object(members), name, n),
{
    told_at(members, i, name, Json::List(items));
}

/// The report tells what was read and written, and lists all that was noted of
/// each kind.
pub proof fn everything_is_told(d: DiagnosticsView, tempos: Seq<TempoEventView>)
    ensures
        ({
            let j = report::report_value(d, tempos);
            &&& tells(j, "input"@, told_text(d.input_file))
            &&& tells(j, "output"@, told_text(d.output_file))
            &&& tells(j, "ppq"@, Json::Number(d.ppq as int))
            &&& tells(j, "encoding"@, told_text(d.encoding))
            &&& tells_list(j, "config_files"@, d.config_files.len() as int)
            &&& tells_list(j, "tracks"@, d.track_summaries.len() as int)
            &&& tells_list(j, "tempo_map"@, tempos.len() as int)
            &&& tells_list(j, "unsupported_commands"@, d.unsupported_commands.len() as int)
            &&& tells_list(j, "ignored_tone_definitions"@, d.ignored_tone_definitions.len() as int)
            &&& tells_list(j, "parse_warnings"@, d.parse_warnings.len() as int)
            &&& tells_list(j, "channel_allocation"@, d.channel_allocations.len() as int)
            &&& tells_list(j, "loop_markers"@, d.loop_markers.len() as int)
            &&& tells_list(j, "manual_smf_events"@, d.manual_smf_events.len() as int)
            &&& tells_list(j, "tone_usage"@, d.tone_usage.len() as int)
            &&& tells_list(j, "psg_envelope_usage"@, d.psg_envelope_usage.len() as int)
            &&& tells_list(j, "register_write_usage"@, d.register_write_usage.len() as int)
            &&& tells_list(j, "unmapped_tones"@, d.unmapped_tones.len() as int)
            &&& tells_list(j, "envelope_event_counts"@, d.envelope_event_counts.len() as int)
        }),
{
    reveal(report::first_values);
    reveal(report::second_values);
    reveal(report::third_values);
    let m = report::report_value(d, tempos)->Object_0;
    told_at(m, 0, "input"@, told_text(d.input_file));
    told_at(m, 1, "output"@, told_text(d.output_file));
    told_at(m, 2, "ppq"@, Json::Number(d.ppq as int));
    told_at(m, 3, "encoding"@, told_text(d.encoding));
    list_is_told(m, 4, "config_files"@, m[4].1->List_0, d.config_files.len() as int);
    list_is_told(m, 5, "tracks"@, m[5].1->List_0, d.track_summaries.len() as int);
    list_is_told(m, 6, "tempo_map"@, m[6].1->List_0, tempos.len() as int);
    list_is_told(
        m,
        7,
        "unsupported_commands"@,
        m[7].1->List_0,
        d.unsupported_commands.len() as int,
    );
    list_is_told(
        m,
        8,
        "ignored_tone_definitions"@,
        m[8].1->List_0,
        d.ignored_tone_definitions.len() as int,
    );
    list_is_told(m, 9, "parse_warnings"@, m[9].1->List_0, d.parse_warnings.len() as int);
    list_is_told(m, 10, "channel_allocation"@, m[10].1->List_0, d.channel_allocations.len() as int);
    list_is_told(m, 11, "loop_markers"@, m[11].1->List_0, d.loop_markers.len() as int);
    list_is_told(m, 12, "manual_smf_events"@, m[12].1->List_0, d.manual_smf_events.len() as int);
    list_is_told(m, 13, "tone_usage"@, m[13].1->List_0, d.tone_usage.len() as int);
    list_is_told(m, 14, "psg_envelope_usage"@, m[14].1->List_0, d.psg_envelope_usage.len() as int);
    list_is_told(
        m,
        15,
        "register_write_usage"@,
        m[15].1->List_0,
        d.register_write_usage.len() as int,
    );
    list_is_told(m, 16, "unmapped_tones"@, m[16].1->List_0, d.unmapped_tones.len() as int);
    list_is_told(
        m,
        17,
        "envelope_event_counts"@,
        m[17].1->List_0,
        d.envelope_event_counts.len() as int,
    );
}

} // verus!
