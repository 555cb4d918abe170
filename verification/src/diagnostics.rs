//! What a conversion reports beside its result.

use vstd::prelude::*;

use crate::fraction::Frac;
use crate::ir::Rational;
use crate::text::{copy_opt, copy_text};
use crate::views;
use crate::views::push_viewed;

verus! {

/// One source track in the output.
#[derive(Debug)]
pub struct TrackSummary {
    pub source_track: String,
    pub midi_track: usize,
    pub midi_channel: u8,
    pub midi_port: u8,
    pub source_steps: String,
    pub note_count: usize,
    pub cc_count: usize,
}

#[verifier::ext_equal]
pub struct TrackSummaryView {
    pub source_track: Seq<char>,
    pub midi_track: usize,
    pub midi_channel: u8,
    pub midi_port: u8,
    pub source_steps: Seq<char>,
    pub note_count: usize,
    pub cc_count: usize,
}

impl DeepView for TrackSummary {
    type V = TrackSummaryView;

    open spec fn deep_view(&self) -> TrackSummaryView {
        TrackSummaryView {
            source_track: self.source_track@,
            midi_track: self.midi_track,
            midi_channel: self.midi_channel,
            midi_port: self.midi_port,
            source_steps: self.source_steps@,
            note_count: self.note_count,
            cc_count: self.cc_count,
        }
    }
}

impl Clone for TrackSummary {
    fn clone(&self) -> (r: Self)
        ensures
            r.deep_view() == self.deep_view(),
    {
        TrackSummary {
            source_track: copy_text(self.source_track.as_str()),
            midi_track: self.midi_track,
            midi_channel: self.midi_channel,
            midi_port: self.midi_port,
            source_steps: copy_text(self.source_steps.as_str()),
            note_count: self.note_count,
            cc_count: self.cc_count,
        }
    }
}

/// A command that is recognised and not rendered.
#[derive(Debug)]
pub struct UnsupportedCommand {
    pub line: Option<usize>,
    pub track: Option<String>,
    pub command: String,
    pub policy: String,
}

#[verifier::ext_equal]
pub struct UnsupportedCommandView {
    pub line: Option<usize>,
    pub track: Option<Seq<char>>,
    pub command: Seq<char>,
    pub policy: Seq<char>,
}

impl DeepView for UnsupportedCommand {
    type V = UnsupportedCommandView;

    open spec fn deep_view(&self) -> UnsupportedCommandView {
        UnsupportedCommandView {
            line: self.line,
            track: self.track.deep_view(),
            command: self.command@,
            policy: self.policy@,
        }
    }
}

impl Clone for UnsupportedCommand {
    fn clone(&self) -> (r: Self)
        ensures
            r.deep_view() == self.deep_view(),
    {
        UnsupportedCommand {
            line: self.line,
            track: copy_opt(&self.track),
            command: copy_text(self.command.as_str()),
            policy: copy_text(self.policy.as_str()),
        }
    }
}

/// A tone definition that is not rendered.
#[derive(Debug)]
pub struct IgnoredToneDefinition {
    pub line: Option<usize>,
    pub command: String,
    pub text: String,
}

#[verifier::ext_equal]
pub struct IgnoredToneDefinitionView {
    pub line: Option<usize>,
    pub command: Seq<char>,
    pub text: Seq<char>,
}

impl DeepView for IgnoredToneDefinition {
    type V = IgnoredToneDefinitionView;

    open spec fn deep_view(&self) -> IgnoredToneDefinitionView {
        IgnoredToneDefinitionView { line: self.line, command: self.command@, text: self.text@ }
    }
}

impl Clone for IgnoredToneDefinition {
    fn clone(&self) -> (r: Self)
        ensures
            r.deep_view() == self.deep_view(),
    {
        IgnoredToneDefinition {
            line: self.line,
            command: copy_text(self.command.as_str()),
            text: copy_text(self.text.as_str()),
        }
    }
}

/// Something in the source that could not be read.
#[derive(Debug)]
pub struct ParseWarning {
    pub line: Option<usize>,
    pub track: Option<String>,
    pub message: String,
}

#[verifier::ext_equal]
pub struct ParseWarningView {
    pub line: Option<usize>,
    pub track: Option<Seq<char>>,
    pub message: Seq<char>,
}

impl DeepView for ParseWarning {
    type V = ParseWarningView;

    open spec fn deep_view(&self) -> ParseWarningView {
        ParseWarningView { line: self.line, track: self.track.deep_view(), message: self.message@ }
    }
}

impl Clone for ParseWarning {
    fn clone(&self) -> (r: Self)
        ensures
            r.deep_view() == self.deep_view(),
    {
        ParseWarning {
            line: self.line,
            track: copy_opt(&self.track),
            message: copy_text(self.message.as_str()),
        }
    }
}

/// The channel of a source track.
#[derive(Debug)]
pub struct ChannelAllocation {
    pub source_track: String,
    pub midi_track: usize,
    pub midi_channel: u8,
    pub midi_port: u8,
}

#[verifier::ext_equal]
pub struct ChannelAllocationView {
    pub source_track: Seq<char>,
    pub midi_track: usize,
    pub midi_channel: u8,
    pub midi_port: u8,
}

impl DeepView for ChannelAllocation {
    type V = ChannelAllocationView;

    open spec fn deep_view(&self) -> ChannelAllocationView {
        ChannelAllocationView {
            source_track: self.source_track@,
            midi_track: self.midi_track,
            midi_channel: self.midi_channel,
            midi_port: self.midi_port,
        }
    }
}

impl Clone for ChannelAllocation {
    fn clone(&self) -> (r: Self)
        ensures
            r.deep_view() == self.deep_view(),
    {
        ChannelAllocation {
            source_track: copy_text(self.source_track.as_str()),
            midi_track: self.midi_track,
            midi_channel: self.midi_channel,
            midi_port: self.midi_port,
        }
    }
}

/// A marked loop.
#[derive(Debug)]
pub struct LoopMarkerDiagnostic {
    pub track: String,
    pub start_step: Rational,
    pub end_step: Rational,
    pub kind: String,
}

#[verifier::ext_equal]
pub struct LoopMarkerDiagnosticView {
    pub track: Seq<char>,
    pub start_step: Frac,
    pub end_step: Frac,
    pub kind: Seq<char>,
}

impl DeepView for LoopMarkerDiagnostic {
    type V = LoopMarkerDiagnosticView;

    open spec fn deep_view(&self) -> LoopMarkerDiagnosticView {
        LoopMarkerDiagnosticView {
            track: self.track@,
            start_step: self.start_step.deep_view(),
            end_step: self.end_step.deep_view(),
            kind: self.kind@,
        }
    }
}

impl Clone for LoopMarkerDiagnostic {
    fn clone(&self) -> (r: Self)
        ensures
            r.deep_view() == self.deep_view(),
    {
        LoopMarkerDiagnostic {
            track: copy_text(self.track.as_str()),
            start_step: self.start_step,
            end_step: self.end_step,
            kind: copy_text(self.kind.as_str()),
        }
    }
}

/// The number of events that an envelope gave.
#[derive(Debug)]
pub struct EnvelopeEventCount {
    pub track: String,
    pub envelope: String,
    pub event_count: usize,
}

#[verifier::ext_equal]
pub struct EnvelopeEventCountView {
    pub track: Seq<char>,
    pub envelope: Seq<char>,
    pub event_count: usize,
}

impl DeepView for EnvelopeEventCount {
    type V = EnvelopeEventCountView;

    open spec fn deep_view(&self) -> EnvelopeEventCountView {
        EnvelopeEventCountView {
            track: self.track@,
            envelope: self.envelope@,
            event_count: self.event_count,
        }
    }
}

impl Clone for EnvelopeEventCount {
    fn clone(&self) -> (r: Self)
        ensures
            r.deep_view() == self.deep_view(),
    {
        EnvelopeEventCount {
            track: copy_text(self.track.as_str()),
            envelope: copy_text(self.envelope.as_str()),
            event_count: self.event_count,
        }
    }
}

/// A manual request that was carried out.
#[derive(Debug)]
pub struct ManualSmfDiagnostic {
    pub line: Option<usize>,
    pub track: Option<String>,
    pub command: String,
}

#[verifier::ext_equal]
pub struct ManualSmfDiagnosticView {
    pub line: Option<usize>,
    pub track: Option<Seq<char>>,
    pub command: Seq<char>,
}

impl DeepView for ManualSmfDiagnostic {
    type V = ManualSmfDiagnosticView;

    open spec fn deep_view(&self) -> ManualSmfDiagnosticView {
        ManualSmfDiagnosticView {
            line: self.line,
            track: self.track.deep_view(),
            command: self.command@,
        }
    }
}

impl Clone for ManualSmfDiagnostic {
    fn clone(&self) -> (r: Self)
        ensures
            r.deep_view() == self.deep_view(),
    {
        ManualSmfDiagnostic {
            line: self.line,
            track: copy_opt(&self.track),
            command: copy_text(self.command.as_str()),
        }
    }
}

/// A tone that a track uses.
#[derive(Debug)]
pub struct ToneUsage {
    pub track: String,
    pub family: String,
    pub tone: u8,
}

#[verifier::ext_equal]
pub struct ToneUsageView {
    pub track: Seq<char>,
    pub family: Seq<char>,
    pub tone: u8,
}

impl DeepView for ToneUsage {
    type V = ToneUsageView;

    open spec fn deep_view(&self) -> ToneUsageView {
        ToneUsageView { track: self.track@, family: self.family@, tone: self.tone }
    }
}

impl Clone for ToneUsage {
    fn clone(&self) -> (r: Self)
        ensures
            r.deep_view() == self.deep_view(),
    {
        ToneUsage {
            track: copy_text(self.track.as_str()),
            family: copy_text(self.family.as_str()),
            tone: self.tone,
        }
    }
}

/// An envelope that a PSG track selects.
#[derive(Debug)]
pub struct PsgEnvelopeUsage {
    pub track: String,
    pub envelope: u8,
    pub spelling: String,
}

#[verifier::ext_equal]
pub struct PsgEnvelopeUsageView {
    pub track: Seq<char>,
    pub envelope: u8,
    pub spelling: Seq<char>,
}

impl DeepView for PsgEnvelopeUsage {
    type V = PsgEnvelopeUsageView;

    open spec fn deep_view(&self) -> PsgEnvelopeUsageView {
        PsgEnvelopeUsageView {
            track: self.track@,
            envelope: self.envelope,
            spelling: self.spelling@,
        }
    }
}

impl Clone for PsgEnvelopeUsage {
    fn clone(&self) -> (r: Self)
        ensures
            r.deep_view() == self.deep_view(),
    {
        PsgEnvelopeUsage {
            track: copy_text(self.track.as_str()),
            envelope: self.envelope,
            spelling: copy_text(self.spelling.as_str()),
        }
    }
}

/// A register write of a track.
#[derive(Debug)]
pub struct RegisterWriteUsage {
    pub track: String,
    pub family: String,
    pub register: u8,
    pub data: u8,
    pub context: String,
}

#[verifier::ext_equal]
pub struct RegisterWriteUsageView {
    pub track: Seq<char>,
    pub family: Seq<char>,
    pub register: u8,
    pub data: u8,
    pub context: Seq<char>,
}

impl DeepView for RegisterWriteUsage {
    type V = RegisterWriteUsageView;

    open spec fn deep_view(&self) -> RegisterWriteUsageView {
        RegisterWriteUsageView {
            track: self.track@,
            family: self.family@,
            register: self.register,
            data: self.data,
            context: self.context@,
        }
    }
}

impl Clone for RegisterWriteUsage {
    fn clone(&self) -> (r: Self)
        ensures
            r.deep_view() == self.deep_view(),
    {
        RegisterWriteUsage {
            track: copy_text(self.track.as_str()),
            family: copy_text(self.family.as_str()),
            register: self.register,
            data: self.data,
            context: copy_text(self.context.as_str()),
        }
    }
}

#[derive(Debug)]
pub struct Diagnostics {
    pub input_file: Option<String>,
    pub output_file: Option<String>,
    pub config_files: Vec<String>,
    pub ppq: u16,
    pub encoding: Option<String>,
    pub track_summaries: Vec<TrackSummary>,
    pub unsupported_commands: Vec<UnsupportedCommand>,
    pub ignored_tone_definitions: Vec<IgnoredToneDefinition>,
    pub parse_warnings: Vec<ParseWarning>,
    pub channel_allocations: Vec<ChannelAllocation>,
    pub loop_markers: Vec<LoopMarkerDiagnostic>,
    pub envelope_event_counts: Vec<EnvelopeEventCount>,
    pub manual_smf_events: Vec<ManualSmfDiagnostic>,
    pub tone_usage: Vec<ToneUsage>,
    pub psg_envelope_usage: Vec<PsgEnvelopeUsage>,
    pub register_write_usage: Vec<RegisterWriteUsage>,
    pub unmapped_tones: Vec<ToneUsage>,
}

#[verifier::ext_equal]
pub struct DiagnosticsView {
    pub input_file: Option<Seq<char>>,
    pub output_file: Option<Seq<char>>,
    pub config_files: Seq<Seq<char>>,
    pub ppq: u16,
    pub encoding: Option<Seq<char>>,
    pub track_summaries: Seq<TrackSummaryView>,
    pub unsupported_commands: Seq<UnsupportedCommandView>,
    pub ignored_tone_definitions: Seq<IgnoredToneDefinitionView>,
    pub parse_warnings: Seq<ParseWarningView>,
    pub channel_allocations: Seq<ChannelAllocationView>,
    pub loop_markers: Seq<LoopMarkerDiagnosticView>,
    pub envelope_event_counts: Seq<EnvelopeEventCountView>,
    pub manual_smf_events: Seq<ManualSmfDiagnosticView>,
    pub tone_usage: Seq<ToneUsageView>,
    pub psg_envelope_usage: Seq<PsgEnvelopeUsageView>,
    pub register_write_usage: Seq<RegisterWriteUsageView>,
    pub unmapped_tones: Seq<ToneUsageView>,
}

impl DeepView for Diagnostics {
    type V = DiagnosticsView;

    open spec fn deep_view(&self) -> DiagnosticsView {
        DiagnosticsView {
            input_file: self.input_file.deep_view(),
            output_file: self.output_file.deep_view(),
            config_files: views::all_views(self.config_files@),
            ppq: self.ppq,
            encoding: self.encoding.deep_view(),
            track_summaries: views::all_views(self.track_summaries@),
            unsupported_commands: views::all_views(self.unsupported_commands@),
            ignored_tone_definitions: views::all_views(self.ignored_tone_definitions@),
            parse_warnings: views::all_views(self.parse_warnings@),
            channel_allocations: views::all_views(self.channel_allocations@),
            loop_markers: views::all_views(self.loop_markers@),
            envelope_event_counts: views::all_views(self.envelope_event_counts@),
            manual_smf_events: views::all_views(self.manual_smf_events@),
            tone_usage: views::all_views(self.tone_usage@),
            psg_envelope_usage: views::all_views(self.psg_envelope_usage@),
            register_write_usage: views::all_views(self.register_write_usage@),
            unmapped_tones: views::all_views(self.unmapped_tones@),
        }
    }
}

impl Default for Diagnostics {
    fn default() -> (r: Self)
        ensures
            r.deep_view() == DiagnosticsView::empty(),
    {
        let r = Diagnostics {
            input_file: None,
            output_file: None,
            config_files: Vec::new(),
            ppq: 0,
            encoding: None,
            track_summaries: Vec::new(),
            unsupported_commands: Vec::new(),
            ignored_tone_definitions: Vec::new(),
            parse_warnings: Vec::new(),
            channel_allocations: Vec::new(),
            loop_markers: Vec::new(),
            envelope_event_counts: Vec::new(),
            manual_smf_events: Vec::new(),
            tone_usage: Vec::new(),
            psg_envelope_usage: Vec::new(),
            register_write_usage: Vec::new(),
            unmapped_tones: Vec::new(),
        };
        assert(r.deep_view() =~= DiagnosticsView::empty());
        r
    }
}

impl DiagnosticsView {
    pub open spec fn empty() -> Self {
        DiagnosticsView {
            input_file: None,
            output_file: None,
            config_files: Seq::empty(),
            ppq: 0,
            encoding: None,
            track_summaries: Seq::empty(),
            unsupported_commands: Seq::empty(),
            ignored_tone_definitions: Seq::empty(),
            parse_warnings: Seq::empty(),
            channel_allocations: Seq::empty(),
            loop_markers: Seq::empty(),
            envelope_event_counts: Seq::empty(),
            manual_smf_events: Seq::empty(),
            tone_usage: Seq::empty(),
            psg_envelope_usage: Seq::empty(),
            register_write_usage: Seq::empty(),
            unmapped_tones: Seq::empty(),
        }
    }

    pub open spec fn with_warning(
        self,
        line: Option<usize>,
        track: Option<Seq<char>>,
        message: Seq<char>,
    ) -> Self {
        DiagnosticsView {
            parse_warnings: self.parse_warnings.push(ParseWarningView { line, track, message }),
            ..self
        }
    }

    pub open spec fn with_unsupported(
        self,
        line: Option<usize>,
        track: Option<Seq<char>>,
        command: Seq<char>,
        policy: Seq<char>,
    ) -> Self {
        DiagnosticsView {
            unsupported_commands: self.unsupported_commands.push(
                UnsupportedCommandView { line, track, command, policy },
            ),
            ..self
        }
    }

    pub open spec fn with_ignored_tone(
        self,
        line: Option<usize>,
        command: Seq<char>,
        text: Seq<char>,
    ) -> Self {
        DiagnosticsView {
            ignored_tone_definitions: self.ignored_tone_definitions.push(
                IgnoredToneDefinitionView { line, command, text },
            ),
            ..self
        }
    }

    pub open spec fn with_loop_marker(
        self,
        track: Seq<char>,
        start_step: Frac,
        end_step: Frac,
        kind: Seq<char>,
    ) -> Self {
        DiagnosticsView {
            loop_markers: self.loop_markers.push(
                LoopMarkerDiagnosticView { track, start_step, end_step, kind },
            ),
            ..self
        }
    }

    pub open spec fn with_manual_smf(
        self,
        line: Option<usize>,
        track: Option<Seq<char>>,
        command: Seq<char>,
    ) -> Self {
        DiagnosticsView {
            manual_smf_events: self.manual_smf_events.push(
                ManualSmfDiagnosticView { line, track, command },
            ),
            ..self
        }
    }

    pub open spec fn with_tone_usage(
        self,
        track: Seq<char>,
        family: Seq<char>,
        tone: u8,
    ) -> Self {
        DiagnosticsView {
            tone_usage: self.tone_usage.push(ToneUsageView { track, family, tone }),
            ..self
        }
    }

    pub open spec fn with_unmapped_tone(
        self,
        track: Seq<char>,
        family: Seq<char>,
        tone: u8,
    ) -> Self {
        DiagnosticsView {
            unmapped_tones: self.unmapped_tones.push(ToneUsageView { track, family, tone }),
            ..self
        }
    }

    pub open spec fn with_psg_envelope(
        self,
        track: Seq<char>,
        envelope: u8,
        spelling: Seq<char>,
    ) -> Self {
        DiagnosticsView {
            psg_envelope_usage: self.psg_envelope_usage.push(
                PsgEnvelopeUsageView { track, envelope, spelling },
            ),
            ..self
        }
    }

    pub open spec fn with_register_write(
        self,
        track: Seq<char>,
        family: Seq<char>,
        register: u8,
        data: u8,
        context: Seq<char>,
    ) -> Self {
        DiagnosticsView {
            register_write_usage: self.register_write_usage.push(
                RegisterWriteUsageView { track, family, register, data, context },
            ),
            ..self
        }
    }
}

impl Diagnostics {
    pub fn add_parse_warning(
        &mut self,
        line: Option<usize>,
        track: Option<String>,
        message: &str,
    )
        ensures
            final(self).deep_view() == old(self).deep_view().with_warning(
                line,
                track.deep_view(),
                message@,
            ),
    {
        push_viewed(
            &mut self.parse_warnings,
            ParseWarning { line, track, message: copy_text(message) },
        );
    }

    pub fn add_unsupported(
        &mut self,
        line: Option<usize>,
        track: Option<String>,
        command: &str,
        policy: &str,
    )
        ensures
            final(self).deep_view() == old(self).deep_view().with_unsupported(
                line,
                track.deep_view(),
                command@,
                policy@,
            ),
    {
        push_viewed(
            &mut self.unsupported_commands,
            UnsupportedCommand { line, track, command: copy_text(command), policy: copy_text(policy) },
        );
    }

    pub fn add_ignored_tone_definition(
        &mut self,
        line: Option<usize>,
        command: &str,
        text: &str,
    )
        ensures
            final(self).deep_view() == old(self).deep_view().with_ignored_tone(
                line,
                command@,
                text@,
            ),
    {
        push_viewed(
            &mut self.ignored_tone_definitions,
            IgnoredToneDefinition { line, command: copy_text(command), text: copy_text(text) },
        );
    }

    pub fn add_loop_marker(
        &mut self,
        track: String,
        start_step: Rational,
        end_step: Rational,
        kind: &str,
    )
        ensures
            final(self).deep_view() == old(self).deep_view().with_loop_marker(
                track@,
                start_step.deep_view(),
                end_step.deep_view(),
                kind@,
            ),
    {
        push_viewed(
            &mut self.loop_markers,
            LoopMarkerDiagnostic { track, start_step, end_step, kind: copy_text(kind) },
        );
    }

    pub fn add_manual_smf_event(
        &mut self,
        line: Option<usize>,
        track: Option<String>,
        command: &str,
    )
        ensures
            final(self).deep_view() == old(self).deep_view().with_manual_smf(
                line,
                track.deep_view(),
                command@,
            ),
    {
        push_viewed(
            &mut self.manual_smf_events,
            ManualSmfDiagnostic { line, track, command: copy_text(command) },
        );
    }

    pub fn add_tone_usage(
        &mut self,
        track: String,
        family: String,
        tone: u8,
    )
        ensures
            final(self).deep_view() == old(self).deep_view().with_tone_usage(
                track@,
                family@,
                tone,
            ),
    {
        push_viewed(
            &mut self.tone_usage,
            ToneUsage { track, family, tone },
        );
    }

    pub fn add_unmapped_tone(
        &mut self,
        track: String,
        family: String,
        tone: u8,
    )
        ensures
            final(self).deep_view() == old(self).deep_view().with_unmapped_tone(
                track@,
                family@,
                tone,
            ),
    {
        push_viewed(
            &mut self.unmapped_tones,
            ToneUsage { track, family, tone },
        );
    }

    pub fn add_psg_envelope_usage(
        &mut self,
        track: String,
        envelope: u8,
        spelling: String,
    )
        ensures
            final(self).deep_view() == old(self).deep_view().with_psg_envelope(
                track@,
                envelope,
                spelling@,
            ),
    {
        push_viewed(
            &mut self.psg_envelope_usage,
            PsgEnvelopeUsage { track, envelope, spelling },
        );
    }

    pub fn add_register_write_usage(
        &mut self,
        track: String,
        family: String,
        register: u8,
        data: u8,
        context: String,
    )
        ensures
            final(self).deep_view() == old(self).deep_view().with_register_write(
                track@,
                family@,
                register,
                data,
                context@,
            ),
    {
        push_viewed(
            &mut self.register_write_usage,
            RegisterWriteUsage { track, family, register, data, context },
        );
    }

    /// Whether anything in the source was not understood or not rendered.
    pub fn has_warnings(&self) -> (r: bool)
        ensures
            r == (self.deep_view().parse_warnings.len() > 0
                || self.deep_view().unsupported_commands.len() > 0),
    {
        self.parse_warnings.len() > 0 || self.unsupported_commands.len() > 0
    }
}

} // verus!
