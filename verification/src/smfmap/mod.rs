//! The configuration of a conversion: how source tracks, tones, envelopes and
//! register writes become MIDI.

pub mod answers;
pub mod computed;
pub mod details;
pub mod events;
pub mod formula;
pub mod levels;
pub mod merge;
pub mod skeleton;
pub mod stated;
pub mod taken;

pub use skeleton::emit_config_skeleton;

use std::collections::BTreeMap;

use vstd::prelude::*;

use crate::ir::{
    ChannelOverflowPolicy, EnvelopeMode, EnvelopeRef, RegisterContext, SmfRequest, SmfRequestView,
    SourceFamily, TrackKind,
};
use crate::name_map::NameMap;
use crate::smfmap::details::{RenderDetails, RenderDetailsView};
use crate::smfmap::formula::{FormulaVars, evaluate_formula};
use crate::text;
use crate::text::{chars_of, copy_text, same_text};
use crate::views;
use crate::views::push_viewed;

verus! {

#[derive(Clone, Copy, Debug, PartialEq, Eq, Structural)]
pub enum Numbering {
    ZeroBased,
    OneBased,
}

impl Numbering {
    pub open spec fn named(s: Seq<char>) -> Option<Self> {
        if s == "zero"@ || s == "zero_based"@ {
            Some(Numbering::ZeroBased)
        } else if s == "one"@ || s == "one_based"@ {
            Some(Numbering::OneBased)
        } else {
            None
        }
    }

    /// The zero-based number.
    pub open spec fn base_zero(self, value: u8) -> u8 {
        match self {
            Numbering::ZeroBased => value,
            Numbering::OneBased => if value == 0 {
                0
            } else {
                (value - 1) as u8
            },
        }
    }

    pub fn parse(value: &str) -> (r: Option<Self>)
        ensures
            r == Self::named(value@),
    {
        if same_text(value, "zero") || same_text(value, "zero_based") {
            Some(Numbering::ZeroBased)
        } else if same_text(value, "one") || same_text(value, "one_based") {
            Some(Numbering::OneBased)
        } else {
            None
        }
    }

    pub fn normalize(self, value: u8) -> (r: u8)
        ensures
            r == self.base_zero(value),
    {
        match self {
            Numbering::ZeroBased => value,
            Numbering::OneBased => if value == 0 {
                0
            } else {
                value - 1
            },
        }
    }
}

/// What is done with register writes.
#[derive(Clone, Copy, Debug, PartialEq, Eq, Structural)]
pub enum RegisterMapPolicy {
    IgnoreAndReport,
    IgnoreSilently,
    TextMeta,
    ApplyRules,
    Error,
}

impl RegisterMapPolicy {
    pub open spec fn named(s: Seq<char>) -> Option<Self> {
        if s == "ignore_and_report"@ || s == "report"@ {
            Some(RegisterMapPolicy::IgnoreAndReport)
        } else if s == "ignore_silently"@ || s == "off"@ {
            Some(RegisterMapPolicy::IgnoreSilently)
        } else if s == "text_meta"@ {
            Some(RegisterMapPolicy::TextMeta)
        } else if s == "apply_rules"@ || s == "on"@ {
            Some(RegisterMapPolicy::ApplyRules)
        } else if s == "error"@ {
            Some(RegisterMapPolicy::Error)
        } else {
            None
        }
    }

    pub fn parse(value: &str) -> (r: Option<Self>)
        ensures
            r == Self::named(value@),
    {
        if same_text(value, "ignore_and_report") || same_text(value, "report") {
            Some(RegisterMapPolicy::IgnoreAndReport)
        } else if same_text(value, "ignore_silently") || same_text(value, "off") {
            Some(RegisterMapPolicy::IgnoreSilently)
        } else if same_text(value, "text_meta") {
            Some(RegisterMapPolicy::TextMeta)
        } else if same_text(value, "apply_rules") || same_text(value, "on") {
            Some(RegisterMapPolicy::ApplyRules)
        } else if same_text(value, "error") {
            Some(RegisterMapPolicy::Error)
        } else {
            None
        }
    }
}

/// What PSG noise tracks become.
#[derive(Clone, Copy, Debug, PartialEq, Eq, Structural)]
pub enum PsgNoiseDefaultAction {
    EnvelopeCc,
    DrumMap,
    Ignore,
}

impl PsgNoiseDefaultAction {
    pub open spec fn named(s: Seq<char>) -> Option<Self> {
        if s == "envelope_cc"@ {
            Some(PsgNoiseDefaultAction::EnvelopeCc)
        } else if s == "drum_map"@ {
            Some(PsgNoiseDefaultAction::DrumMap)
        } else if s == "ignore"@ {
            Some(PsgNoiseDefaultAction::Ignore)
        } else {
            None
        }
    }

    pub fn parse(value: &str) -> (r: Option<Self>)
        ensures
            r == Self::named(value@),
    {
        if same_text(value, "envelope_cc") {
            Some(PsgNoiseDefaultAction::EnvelopeCc)
        } else if same_text(value, "drum_map") {
            Some(PsgNoiseDefaultAction::DrumMap)
        } else if same_text(value, "ignore") {
            Some(PsgNoiseDefaultAction::Ignore)
        } else {
            None
        }
    }
}

/// What a source track is in the output.
#[derive(Clone, Copy, Debug, PartialEq, Eq, Structural)]
pub enum RenderRole {
    Melody,
    Drum,
}

impl RenderRole {
    pub open spec fn named(s: Seq<char>) -> Option<Self> {
        if s == "melody"@ {
            Some(RenderRole::Melody)
        } else if s == "drum"@ {
            Some(RenderRole::Drum)
        } else {
            None
        }
    }

    pub fn parse(value: &str) -> (r: Option<Self>)
        ensures
            r == Self::named(value@),
    {
        if same_text(value, "melody") {
            Some(RenderRole::Melody)
        } else if same_text(value, "drum") {
            Some(RenderRole::Drum)
        } else {
            None
        }
    }
}

/// What becomes of a note that a drum rule matches.
#[derive(Clone, Copy, Debug, PartialEq, Eq, Structural)]
pub enum DrumOutputMode {
    Replace,
    Add,
    Passthrough,
}

impl DrumOutputMode {
    pub open spec fn named(s: Seq<char>) -> Option<Self> {
        if s == "replace"@ {
            Some(DrumOutputMode::Replace)
        } else if s == "add"@ {
            Some(DrumOutputMode::Add)
        } else if s == "passthrough"@ {
            Some(DrumOutputMode::Passthrough)
        } else {
            None
        }
    }

    pub fn parse(value: &str) -> (r: Option<Self>)
        ensures
            r == Self::named(value@),
    {
        if same_text(value, "replace") {
            Some(DrumOutputMode::Replace)
        } else if same_text(value, "add") {
            Some(DrumOutputMode::Add)
        } else if same_text(value, "passthrough") {
            Some(DrumOutputMode::Passthrough)
        } else {
            None
        }
    }
}

/// What becomes of a note that no drum rule matches.
#[derive(Clone, Copy, Debug, PartialEq, Eq, Structural)]
pub enum DrumUnmatchedPolicy {
    WarnAndDrop,
    WarnAndPassthrough,
    Drop,
    Passthrough,
}

impl DrumUnmatchedPolicy {
    pub open spec fn named(s: Seq<char>) -> Option<Self> {
        if s == "warn_and_drop"@ {
            Some(DrumUnmatchedPolicy::WarnAndDrop)
        } else if s == "warn_and_passthrough"@ {
            Some(DrumUnmatchedPolicy::WarnAndPassthrough)
        } else if s == "drop"@ {
            Some(DrumUnmatchedPolicy::Drop)
        } else if s == "passthrough"@ {
            Some(DrumUnmatchedPolicy::Passthrough)
        } else {
            None
        }
    }

    pub fn parse(value: &str) -> (r: Option<Self>)
        ensures
            r == Self::named(value@),
    {
        if same_text(value, "warn_and_drop") {
            Some(DrumUnmatchedPolicy::WarnAndDrop)
        } else if same_text(value, "warn_and_passthrough") {
            Some(DrumUnmatchedPolicy::WarnAndPassthrough)
        } else if same_text(value, "drop") {
            Some(DrumUnmatchedPolicy::Drop)
        } else if same_text(value, "passthrough") {
            Some(DrumUnmatchedPolicy::Passthrough)
        } else {
            None
        }
    }
}

/// What is done with glides on a channel that tracks share.
#[derive(Clone, Copy, Debug, PartialEq, Eq, Structural)]
pub enum PitchGlideSharedChannelPolicy {
    Error,
    WarnAndSuppress,
    AllowUnsafe,
}

impl PitchGlideSharedChannelPolicy {
    pub open spec fn named(s: Seq<char>) -> Option<Self> {
        if s == "error"@ {
            Some(PitchGlideSharedChannelPolicy::Error)
        } else if s == "warn_and_suppress"@ {
            Some(PitchGlideSharedChannelPolicy::WarnAndSuppress)
        } else if s == "allow_unsafe"@ {
            Some(PitchGlideSharedChannelPolicy::AllowUnsafe)
        } else {
            None
        }
    }

    pub fn parse(value: &str) -> (r: Option<Self>)
        ensures
            r == Self::named(value@),
    {
        if same_text(value, "error") {
            Some(PitchGlideSharedChannelPolicy::Error)
        } else if same_text(value, "warn_and_suppress") {
            Some(PitchGlideSharedChannelPolicy::WarnAndSuppress)
        } else if same_text(value, "allow_unsafe") {
            Some(PitchGlideSharedChannelPolicy::AllowUnsafe)
        } else {
            None
        }
    }
}

/// What is done with glides beyond the bend range.
#[derive(Clone, Copy, Debug, PartialEq, Eq, Structural)]
pub enum PitchGlideRangePolicy {
    Clamp,
    ErrorIfExceeded,
    AutoExpandTo48,
}

impl PitchGlideRangePolicy {
    pub open spec fn named(s: Seq<char>) -> Option<Self> {
        if s == "clamp"@ {
            Some(PitchGlideRangePolicy::Clamp)
        } else if s == "error_if_exceeded"@ {
            Some(PitchGlideRangePolicy::ErrorIfExceeded)
        } else if s == "auto_expand_to_48"@ {
            Some(PitchGlideRangePolicy::AutoExpandTo48)
        } else {
            None
        }
    }

    pub fn parse(value: &str) -> (r: Option<Self>)
        ensures
            r == Self::named(value@),
    {
        if same_text(value, "clamp") {
            Some(PitchGlideRangePolicy::Clamp)
        } else if same_text(value, "error_if_exceeded") {
            Some(PitchGlideRangePolicy::ErrorIfExceeded)
        } else if same_text(value, "auto_expand_to_48") {
            Some(PitchGlideRangePolicy::AutoExpandTo48)
        } else {
            None
        }
    }
}

/// How loud a drum is.
#[derive(Clone, Copy, Debug, PartialEq, Eq, Structural)]
pub enum DrumVelocity {
    SourceVolume,
    SourceOrTone,
    Fixed(u8),
}

/// The points of a glide curve.
#[derive(Clone, Copy, Debug, PartialEq, Eq, Structural)]
pub struct PitchGlideCurve {
    pub event_rate_hz: u16,
    pub min_delta_cents: u16,
    pub include_start_point: bool,
    pub include_end_point: bool,
}

/// Where the pitch bend is set back.
#[derive(Clone, Copy, Debug, PartialEq, Eq, Structural)]
pub struct PitchGlideReset {
    pub at_note_end: bool,
    pub before_next_note_on: bool,
    pub at_track_end: bool,
}

/// Pitch glides as pitch bend.
#[derive(Clone, Copy, Debug, PartialEq, Eq, Structural)]
pub struct PitchGlideConfig {
    pub enabled: bool,
    pub pitch_bend_range_semitones: u8,
    pub pitch_bend_range_cents: u8,
    pub emit_rpn_pitch_bend_range: bool,
    pub emit_rpn_null_after_setting: bool,
    pub curve: PitchGlideCurve,
    pub reset: PitchGlideReset,
    pub shared_channel_policy: PitchGlideSharedChannelPolicy,
    pub range_policy: PitchGlideRangePolicy,
}

impl PitchGlideConfig {
    /// Glides are off; when on, two octaves of bend range and sixty points a
    /// second.
    pub open spec fn initial() -> Self {
        PitchGlideConfig {
            enabled: false,
            pitch_bend_range_semitones: 24,
            pitch_bend_range_cents: 0,
            emit_rpn_pitch_bend_range: true,
            emit_rpn_null_after_setting: true,
            curve: PitchGlideCurve {
                event_rate_hz: 60,
                min_delta_cents: 4,
                include_start_point: true,
                include_end_point: true,
            },
            reset: PitchGlideReset {
                at_note_end: true,
                before_next_note_on: true,
                at_track_end: true,
            },
            shared_channel_policy: PitchGlideSharedChannelPolicy::WarnAndSuppress,
            range_policy: PitchGlideRangePolicy::Clamp,
        }
    }
}

impl Default for PitchGlideConfig {
    fn default() -> (r: Self)
        ensures
            r == Self::initial(),
    {
        PitchGlideConfig {
            enabled: false,
            pitch_bend_range_semitones: 24,
            pitch_bend_range_cents: 0,
            emit_rpn_pitch_bend_range: true,
            emit_rpn_null_after_setting: true,
            curve: PitchGlideCurve {
                event_rate_hz: 60,
                min_delta_cents: 4,
                include_start_point: true,
                include_end_point: true,
            },
            reset: PitchGlideReset {
                at_note_end: true,
                before_next_note_on: true,
                at_track_end: true,
            },
            shared_channel_policy: PitchGlideSharedChannelPolicy::WarnAndSuppress,
            range_policy: PitchGlideRangePolicy::Clamp,
        }
    }
}

/// Where drum notes go and what is suppressed beside them.
#[derive(Clone, Copy, Debug, PartialEq, Eq, Structural)]
pub struct DrumOutput {
    pub midi_channel: Option<u8>,
    pub mode: DrumOutputMode,
    pub unmatched: DrumUnmatchedPolicy,
    pub suppress_tone_map: bool,
    pub suppress_program_change: bool,
}

/// Which notes belong to the hit before them.
#[derive(Clone, Copy, Debug, PartialEq, Eq, Structural)]
pub struct DrumHitGrouping {
    pub enabled: bool,
    pub suppress_macro_continuation: bool,
    pub suppress_slur_ampersand: bool,
}

/// A drum note.
#[derive(Clone, Copy, Debug, PartialEq, Eq, Structural)]
pub struct DrumHit {
    pub note: u8,
    pub velocity: DrumVelocity,
}

/// A test on a text.
#[derive(Debug)]
pub enum StringMatcher {
    Any,
    One(String),
    Many(Vec<String>),
}

#[verifier::ext_equal]
pub enum StringMatcherView {
    Any,
    One(Seq<char>),
    Many(Seq<Seq<char>>),
}

impl DeepView for StringMatcher {
    type V = StringMatcherView;

    open spec fn deep_view(&self) -> StringMatcherView {
        match *self {
            StringMatcher::Any => StringMatcherView::Any,
            StringMatcher::One(s) => StringMatcherView::One(s@),
            StringMatcher::Many(v) => StringMatcherView::Many(views::all_views(v@)),
        }
    }
}

impl StringMatcherView {
    pub open spec fn accepts(self, value: Seq<char>) -> bool {
        match self {
            StringMatcherView::Any => true,
            StringMatcherView::One(s) => s == value,
            StringMatcherView::Many(v) => v.contains(value),
        }
    }
}

impl StringMatcher {
    pub fn matches(&self, value: &str) -> (r: bool)
        ensures
            r == self.deep_view().accepts(value@),
    {
        match self {
            StringMatcher::Any => true,
            StringMatcher::One(s) => same_text(s.as_str(), value),
            StringMatcher::Many(v) => {
                let ghost all = views::all_views(v@);
                let mut i: usize = 0;
                while i < v.len()
                    invariant
                        i <= v@.len(),
                        all == views::all_views(v@),
                        *self == StringMatcher::Many(*v),
                        forall|k: int| 0 <= k < i ==> all[k] != value@,
                    decreases v@.len() - i,
                {
                    assert(all[i as int] == v@[i as int]@);
                    if same_text(v[i].as_str(), value) {
                        assert(all.contains(value@));
                        return true;
                    }
                    i += 1;
                }
                false
            },
        }
    }
}

/// A test on a byte.
#[derive(Debug)]
pub enum U8Matcher {
    Any,
    One(u8),
    Many(Vec<u8>),
    Range { min: u8, max: u8 },
}

#[verifier::ext_equal]
pub enum U8MatcherView {
    Any,
    One(u8),
    Many(Seq<u8>),
    Range { min: u8, max: u8 },
}

impl DeepView for U8Matcher {
    type V = U8MatcherView;

    open spec fn deep_view(&self) -> U8MatcherView {
        match *self {
            U8Matcher::Any => U8MatcherView::Any,
            U8Matcher::One(n) => U8MatcherView::One(n),
            U8Matcher::Many(v) => U8MatcherView::Many(v@),
            U8Matcher::Range { min, max } => U8MatcherView::Range { min, max },
        }
    }
}

impl U8MatcherView {
    pub open spec fn accepts(self, value: u8) -> bool {
        match self {
            U8MatcherView::Any => true,
            U8MatcherView::One(n) => n == value,
            U8MatcherView::Many(v) => v.contains(value),
            U8MatcherView::Range { min, max } => min <= value <= max,
        }
    }

    /// Without a value only the test that takes any value succeeds.
    pub open spec fn accepts_opt(self, value: Option<u8>) -> bool {
        match value {
            Some(n) => self.accepts(n),
            None => self is Any,
        }
    }
}

impl U8Matcher {
    pub fn matches(&self, value: u8) -> (r: bool)
        ensures
            r == self.deep_view().accepts(value),
    {
        match self {
            U8Matcher::Any => true,
            U8Matcher::One(n) => *n == value,
            U8Matcher::Many(v) => {
                let mut i: usize = 0;
                while i < v.len()
                    invariant
                        i <= v@.len(),
                        *self == U8Matcher::Many(*v),
                        forall|k: int| 0 <= k < i ==> v@[k] != value,
                    decreases v@.len() - i,
                {
                    if v[i] == value {
                        assert(v@.contains(value));
                        return true;
                    }
                    i += 1;
                }
                false
            },
            U8Matcher::Range { min, max } => *min <= value && value <= *max,
        }
    }

    pub fn matches_opt(&self, value: Option<u8>) -> (r: bool)
        ensures
            r == self.deep_view().accepts_opt(value),
    {
        match value {
            Some(n) => self.matches(n),
            None => match self {
                U8Matcher::Any => true,
                _ => false,
            },
        }
    }
}

/// The settings of a source track.
#[derive(Debug)]
pub struct TrackMapConfig {
    pub family: Option<SourceFamily>,
    pub render_role: Option<RenderRole>,
    pub drum_map: Option<String>,
    pub midi_channel: Option<u8>,
    pub midi_port: Option<u8>,
    pub events: Vec<SmfRequest>,
}

#[verifier::ext_equal]
pub struct TrackMapConfigView {
    pub family: Option<SourceFamily>,
    pub render_role: Option<RenderRole>,
    pub drum_map: Option<Seq<char>>,
    pub midi_channel: Option<u8>,
    pub midi_port: Option<u8>,
    pub events: Seq<SmfRequestView>,
}

impl DeepView for TrackMapConfig {
    type V = TrackMapConfigView;

    open spec fn deep_view(&self) -> TrackMapConfigView {
        TrackMapConfigView {
            family: self.family,
            render_role: self.render_role,
            drum_map: self.drum_map.deep_view(),
            midi_channel: self.midi_channel,
            midi_port: self.midi_port,
            events: views::all_views(self.events@),
        }
    }
}

/// The MIDI events of a tone.
#[derive(Debug)]
pub struct ToneMapEntry {
    pub name: Option<String>,
    pub events: Vec<SmfRequest>,
}

#[verifier::ext_equal]
pub struct ToneMapEntryView {
    pub name: Option<Seq<char>>,
    pub events: Seq<SmfRequestView>,
}

impl DeepView for ToneMapEntry {
    type V = ToneMapEntryView;

    open spec fn deep_view(&self) -> ToneMapEntryView {
        ToneMapEntryView {
            name: self.name.deep_view(),
            events: views::all_views(self.events@),
        }
    }
}

/// The drum of a noise envelope.
#[derive(Debug)]
pub struct PsgNoiseDrumEntry {
    pub name: Option<String>,
    pub note: u8,
    pub velocity: Option<u8>,
    pub velocity_from_envelope_peak: bool,
}

#[verifier::ext_equal]
pub struct PsgNoiseDrumEntryView {
    pub name: Option<Seq<char>>,
    pub note: u8,
    pub velocity: Option<u8>,
    pub velocity_from_envelope_peak: bool,
}

impl DeepView for PsgNoiseDrumEntry {
    type V = PsgNoiseDrumEntryView;

    open spec fn deep_view(&self) -> PsgNoiseDrumEntryView {
        PsgNoiseDrumEntryView {
            name: self.name.deep_view(),
            note: self.note,
            velocity: self.velocity,
            velocity_from_envelope_peak: self.velocity_from_envelope_peak,
        }
    }
}

/// Which register writes a rule is for.
#[derive(Debug)]
pub struct RegisterRuleMatcher {
    pub family: StringMatcher,
    pub source_track: StringMatcher,
    pub register: U8Matcher,
    pub data: U8Matcher,
    pub context: StringMatcher,
}

#[verifier::ext_equal]
pub struct RegisterRuleMatcherView {
    pub family: StringMatcherView,
    pub source_track: StringMatcherView,
    pub register: U8MatcherView,
    pub data: U8MatcherView,
    pub context: StringMatcherView,
}

impl DeepView for RegisterRuleMatcher {
    type V = RegisterRuleMatcherView;

    open spec fn deep_view(&self) -> RegisterRuleMatcherView {
        RegisterRuleMatcherView {
            family: self.family.deep_view(),
            source_track: self.source_track.deep_view(),
            register: self.register.deep_view(),
            data: self.data.deep_view(),
            context: self.context.deep_view(),
        }
    }
}

/// A rule for register writes.
#[derive(Debug)]
pub struct RegisterRule {
    pub name: String,
    pub enabled: bool,
    pub matcher: RegisterRuleMatcher,
    pub emit: Vec<SmfRequest>,
    /// For each request the formula of its value, where it has one.
    pub formulas: Vec<Option<String>>,
}

#[verifier::ext_equal]
pub struct RegisterRuleView {
    pub name: Seq<char>,
    pub enabled: bool,
    pub matcher: RegisterRuleMatcherView,
    pub emit: Seq<SmfRequestView>,
    pub formulas: Seq<Option<Seq<char>>>,
}

impl DeepView for RegisterRule {
    type V = RegisterRuleView;

    open spec fn deep_view(&self) -> RegisterRuleView {
        RegisterRuleView {
            name: self.name@,
            enabled: self.enabled,
            matcher: self.matcher.deep_view(),
            emit: views::all_views(self.emit@),
            formulas: views::all_views(self.formulas@),
        }
    }
}

/// Which notes a drum rule is for.
#[derive(Debug)]
pub struct OpllPseudoDrumMatcher {
    pub macro_symbol: Option<char>,
    pub source_track: StringMatcher,
    pub envelope: U8Matcher,
    pub source_tone: U8Matcher,
    pub effective_tone: U8Matcher,
    pub note_name: Option<char>,
    pub octave: Option<i32>,
    pub source_midi_note: U8Matcher,
}

#[verifier::ext_equal]
pub struct OpllPseudoDrumMatcherView {
    pub macro_symbol: Option<char>,
    pub source_track: StringMatcherView,
    pub envelope: U8MatcherView,
    pub source_tone: U8MatcherView,
    pub effective_tone: U8MatcherView,
    pub note_name: Option<char>,
    pub octave: Option<i32>,
    pub source_midi_note: U8MatcherView,
}

impl DeepView for OpllPseudoDrumMatcher {
    type V = OpllPseudoDrumMatcherView;

    open spec fn deep_view(&self) -> OpllPseudoDrumMatcherView {
        OpllPseudoDrumMatcherView {
            macro_symbol: self.macro_symbol,
            source_track: self.source_track.deep_view(),
            envelope: self.envelope.deep_view(),
            source_tone: self.source_tone.deep_view(),
            effective_tone: self.effective_tone.deep_view(),
            note_name: self.note_name,
            octave: self.octave,
            source_midi_note: self.source_midi_note.deep_view(),
        }
    }
}

/// A rule that makes notes drums.
#[derive(Debug)]
pub struct OpllPseudoDrumRule {
    pub name: Option<String>,
    pub matcher: OpllPseudoDrumMatcher,
    pub drum: DrumHit,
}

#[verifier::ext_equal]
pub struct OpllPseudoDrumRuleView {
    pub name: Option<Seq<char>>,
    pub matcher: OpllPseudoDrumMatcherView,
    pub drum: DrumHit,
}

impl DeepView for OpllPseudoDrumRule {
    type V = OpllPseudoDrumRuleView;

    open spec fn deep_view(&self) -> OpllPseudoDrumRuleView {
        OpllPseudoDrumRuleView {
            name: self.name.deep_view(),
            matcher: self.matcher.deep_view(),
            drum: self.drum,
        }
    }
}

/// How the notes of an OPLL track become drums.
#[derive(Debug)]
pub struct OpllPseudoDrumMap {
    pub output: DrumOutput,
    pub hit_grouping: DrumHitGrouping,
    pub rules: Vec<OpllPseudoDrumRule>,
}

#[verifier::ext_equal]
pub struct OpllPseudoDrumMapView {
    pub output: DrumOutput,
    pub hit_grouping: DrumHitGrouping,
    pub rules: Seq<OpllPseudoDrumRuleView>,
}

impl DeepView for OpllPseudoDrumMap {
    type V = OpllPseudoDrumMapView;

    open spec fn deep_view(&self) -> OpllPseudoDrumMapView {
        OpllPseudoDrumMapView {
            output: self.output,
            hit_grouping: self.hit_grouping,
            rules: views::all_views(self.rules@),
        }
    }
}

/// A named list of requests.
#[derive(Debug)]
pub struct SmfMacro {
    pub events: Vec<SmfRequest>,
}

impl DeepView for SmfMacro {
    type V = Seq<SmfRequestView>;

    open spec fn deep_view(&self) -> Seq<SmfRequestView> {
        views::all_views(self.events@)
    }
}

/// The tones of the families that have them; a family that is switched off has
/// none.
#[derive(Debug)]
pub struct ToneMap {
    pub scc: Option<BTreeMap<u8, ToneMapEntry>>,
    pub opll: Option<BTreeMap<u8, ToneMapEntry>>,
}

#[verifier::ext_equal]
pub struct ToneMapView {
    pub scc: Option<Map<u8, ToneMapEntryView>>,
    pub opll: Option<Map<u8, ToneMapEntryView>>,
}

pub open spec fn tones_view(m: Option<BTreeMap<u8, ToneMapEntry>>) -> Option<
    Map<u8, ToneMapEntryView>,
> {
    match m {
        Some(t) => Some(views::map_views(t@)),
        None => None,
    }
}

impl DeepView for ToneMap {
    type V = ToneMapView;

    open spec fn deep_view(&self) -> ToneMapView {
        ToneMapView { scc: tones_view(self.scc), opll: tones_view(self.opll) }
    }
}

/// The whole configuration.
#[derive(Debug)]
pub struct SmfMapConfig {
    pub smf_ppq: Option<u16>,
    pub smf_type: u16,
    pub program_numbering: Numbering,
    pub channel_numbering: Numbering,
    pub channel_overflow: Option<ChannelOverflowPolicy>,
    pub rhythm_channel: u8,
    pub manual_smf_enabled: bool,
    pub unknown_requests_fail: bool,
    pub tone_map_enabled: bool,
    pub psg_envelope_map_enabled: bool,
    pub psg_expression_cc: u8,
    pub psg_noise_enabled: bool,
    pub psg_noise_default_action: PsgNoiseDefaultAction,
    pub psg_noise_drum_map_enabled: bool,
    pub psg_noise_drum_channel: u8,
    pub psg_noise_drums: BTreeMap<u8, PsgNoiseDrumEntry>,
    pub envelope_map_enabled: bool,
    pub envelope_mode: Option<EnvelopeMode>,
    pub envelope_expression_cc: u8,
    pub envelope_volume_cc: u8,
    pub envelope_scc_enabled: bool,
    pub envelope_opll_enabled: bool,
    pub register_map_policy: RegisterMapPolicy,
    pub register_rules: Vec<RegisterRule>,
    pub macro_max_depth: usize,
    pub tracks: NameMap<TrackMapConfig>,
    pub tone_map: ToneMap,
    pub macros: NameMap<SmfMacro>,
    pub opll_respect_at_hash_rom_assign: bool,
    pub opll_pseudo_drum_enabled: bool,
    pub opll_pseudo_drum_maps: NameMap<OpllPseudoDrumMap>,
    pub pitch_glide: PitchGlideConfig,
    pub details: RenderDetails,
}

#[verifier::ext_equal]
pub struct SmfMapConfigView {
    pub smf_ppq: Option<u16>,
    pub smf_type: u16,
    pub program_numbering: Numbering,
    pub channel_numbering: Numbering,
    pub channel_overflow: Option<ChannelOverflowPolicy>,
    pub rhythm_channel: u8,
    pub manual_smf_enabled: bool,
    pub unknown_requests_fail: bool,
    pub tone_map_enabled: bool,
    pub psg_envelope_map_enabled: bool,
    pub psg_expression_cc: u8,
    pub psg_noise_enabled: bool,
    pub psg_noise_default_action: PsgNoiseDefaultAction,
    pub psg_noise_drum_map_enabled: bool,
    pub psg_noise_drum_channel: u8,
    pub psg_noise_drums: Map<u8, PsgNoiseDrumEntryView>,
    pub envelope_map_enabled: bool,
    pub envelope_mode: Option<EnvelopeMode>,
    pub envelope_expression_cc: u8,
    pub envelope_volume_cc: u8,
    pub envelope_scc_enabled: bool,
    pub envelope_opll_enabled: bool,
    pub register_map_policy: RegisterMapPolicy,
    pub register_rules: Seq<RegisterRuleView>,
    pub macro_max_depth: usize,
    pub tracks: Map<Seq<char>, TrackMapConfigView>,
    pub tone_map: ToneMapView,
    pub macros: Map<Seq<char>, Seq<SmfRequestView>>,
    pub opll_respect_at_hash_rom_assign: bool,
    pub opll_pseudo_drum_enabled: bool,
    pub opll_pseudo_drum_maps: Map<Seq<char>, OpllPseudoDrumMapView>,
    pub pitch_glide: PitchGlideConfig,
    pub details: RenderDetailsView,
}

impl DeepView for SmfMapConfig {
    type V = SmfMapConfigView;

    open spec fn deep_view(&self) -> SmfMapConfigView {
        SmfMapConfigView {
            smf_ppq: self.smf_ppq,
            smf_type: self.smf_type,
            program_numbering: self.program_numbering,
            channel_numbering: self.channel_numbering,
            channel_overflow: self.channel_overflow,
            rhythm_channel: self.rhythm_channel,
            manual_smf_enabled: self.manual_smf_enabled,
            unknown_requests_fail: self.unknown_requests_fail,
            tone_map_enabled: self.tone_map_enabled,
            psg_envelope_map_enabled: self.psg_envelope_map_enabled,
            psg_expression_cc: self.psg_expression_cc,
            psg_noise_enabled: self.psg_noise_enabled,
            psg_noise_default_action: self.psg_noise_default_action,
            psg_noise_drum_map_enabled: self.psg_noise_drum_map_enabled,
            psg_noise_drum_channel: self.psg_noise_drum_channel,
            psg_noise_drums: views::map_views(self.psg_noise_drums@),
            envelope_map_enabled: self.envelope_map_enabled,
            envelope_mode: self.envelope_mode,
            envelope_expression_cc: self.envelope_expression_cc,
            envelope_volume_cc: self.envelope_volume_cc,
            envelope_scc_enabled: self.envelope_scc_enabled,
            envelope_opll_enabled: self.envelope_opll_enabled,
            register_map_policy: self.register_map_policy,
            register_rules: views::all_views(self.register_rules@),
            macro_max_depth: self.macro_max_depth,
            tracks: self.tracks.deep_view(),
            tone_map: self.tone_map.deep_view(),
            macros: self.macros.deep_view(),
            opll_respect_at_hash_rom_assign: self.opll_respect_at_hash_rom_assign,
            opll_pseudo_drum_enabled: self.opll_pseudo_drum_enabled,
            opll_pseudo_drum_maps: self.opll_pseudo_drum_maps.deep_view(),
            pitch_glide: self.pitch_glide,
            details: self.details.deep_view(),
        }
    }
}

// ---------------------------------------------------------------------------
// What holds without a configuration
// ---------------------------------------------------------------------------
/// The name and the General MIDI program of a built-in OPLL tone.
pub open spec fn built_in_program(tone: u8) -> Option<(Seq<char>, u8)> {
    if tone == 0 {
        Some(("violin"@, 40u8))
    } else if tone == 1 {
        Some(("guitar"@, 24u8))
    } else if tone == 2 {
        Some(("piano"@, 0u8))
    } else if tone == 3 {
        Some(("flute"@, 73u8))
    } else if tone == 4 {
        Some(("clarinet"@, 71u8))
    } else if tone == 5 {
        Some(("oboe"@, 68u8))
    } else if tone == 6 {
        Some(("trumpet"@, 56u8))
    } else if tone == 7 {
        Some(("organ"@, 16u8))
    } else if tone == 8 {
        Some(("horn"@, 60u8))
    } else if tone == 9 {
        Some(("synthesizer"@, 80u8))
    } else if tone == 10 {
        Some(("harpsichord"@, 6u8))
    } else if tone == 11 {
        Some(("vibraphone"@, 11u8))
    } else if tone == 12 {
        Some(("synth_bass"@, 38u8))
    } else if tone == 13 {
        Some(("wood_bass"@, 32u8))
    } else if tone == 14 {
        Some(("electric_bass"@, 33u8))
    } else {
        None
    }
}

/// The entry of a built-in OPLL tone; two more are for tones of the song's own.
pub open spec fn built_in_tone(tone: u8) -> ToneMapEntryView {
    match built_in_program(tone) {
        Some((name, program)) => ToneMapEntryView {
            name: Some(name),
            events: seq![SmfRequestView::Pc { program }],
        },
        None => ToneMapEntryView { name: Some("custom_user"@), events: Seq::empty() },
    }
}

pub open spec fn built_in_tones() -> Map<u8, ToneMapEntryView> {
    Map::new(|tone: u8| tone <= 16, |tone: u8| built_in_tone(tone))
}

pub fn default_program(tone: u8) -> (r: Option<(&'static str, u8)>)
    ensures
        built_in_program(tone) == match r {
            Some((name, program)) => Some((name@, program)),
            None => None,
        },
{
    if tone == 0 {
        Some(("violin", 40))
    } else if tone == 1 {
        Some(("guitar", 24))
    } else if tone == 2 {
        Some(("piano", 0))
    } else if tone == 3 {
        Some(("flute", 73))
    } else if tone == 4 {
        Some(("clarinet", 71))
    } else if tone == 5 {
        Some(("oboe", 68))
    } else if tone == 6 {
        Some(("trumpet", 56))
    } else if tone == 7 {
        Some(("organ", 16))
    } else if tone == 8 {
        Some(("horn", 60))
    } else if tone == 9 {
        Some(("synthesizer", 80))
    } else if tone == 10 {
        Some(("harpsichord", 6))
    } else if tone == 11 {
        Some(("vibraphone", 11))
    } else if tone == 12 {
        Some(("synth_bass", 38))
    } else if tone == 13 {
        Some(("wood_bass", 32))
    } else if tone == 14 {
        Some(("electric_bass", 33))
    } else {
        None
    }
}

fn default_tone(tone: u8) -> (r: ToneMapEntry)
    ensures
        r.deep_view() == built_in_tone(tone),
{
    let mut events: Vec<SmfRequest> = Vec::new();
    assert(views::all_views(events@) =~= Seq::empty());
    match default_program(tone) {
        Some((name, program)) => {
            push_viewed(&mut events, SmfRequest::Pc { program });
            assert(views::all_views(events@) =~= seq![SmfRequestView::Pc { program }]);
            ToneMapEntry { name: Some(copy_text(name)), events }
        },
        None => ToneMapEntry { name: Some(copy_text("custom_user")), events },
    }
}

fn default_opll_tones() -> (r: BTreeMap<u8, ToneMapEntry>)
    ensures
        views::map_views(r@) == built_in_tones(),
{
    let mut out: BTreeMap<u8, ToneMapEntry> = BTreeMap::new();
    let mut tone: u8 = 0;
    while tone <= 16
        invariant
            tone <= 17,
            forall|k: u8| out@.contains_key(k) <==> k < tone,
            forall|k: u8| k < tone ==> (#[trigger] out@[k]).deep_view() == built_in_tone(k),
        decreases 17 - tone,
    {
        out.insert(tone, default_tone(tone));
        tone += 1;
    }
    assert(views::map_views(out@) =~= built_in_tones());
    out
}

/// The macros that exist from the start.
pub open spec fn built_in_macros() -> Map<Seq<char>, Seq<SmfRequestView>> {
    Map::empty().insert(
        "reset_channel"@,
        seq![
            SmfRequestView::Cc { controller: 121, value: 0 },
            SmfRequestView::Cc { controller: 7, value: 100 },
            SmfRequestView::Cc { controller: 10, value: 64 },
            SmfRequestView::Cc { controller: 11, value: 127 },
        ],
    )
}

fn default_macros() -> (r: NameMap<SmfMacro>)
    ensures
        r.deep_view() == built_in_macros(),
{
    let mut out: NameMap<SmfMacro> = NameMap::new();
    let mut events: Vec<SmfRequest> = Vec::new();
    events.push(SmfRequest::Cc { controller: 121, value: 0 });
    events.push(SmfRequest::Cc { controller: 7, value: 100 });
    events.push(SmfRequest::Cc { controller: 10, value: 64 });
    events.push(SmfRequest::Cc { controller: 11, value: 127 });
    assert(views::all_views(events@) =~= seq![
        SmfRequestView::Cc { controller: 121, value: 0 },
        SmfRequestView::Cc { controller: 7, value: 100 },
        SmfRequestView::Cc { controller: 10, value: 64 },
        SmfRequestView::Cc { controller: 11, value: 127 },
    ]);
    out.insert(copy_text("reset_channel"), SmfMacro { events });
    out
}

impl DrumOutput {
    /// The output of a drum map before it is configured.
    pub open spec fn initial() -> Self {
        DrumOutput {
            midi_channel: None,
            mode: DrumOutputMode::Replace,
            unmatched: DrumUnmatchedPolicy::WarnAndDrop,
            suppress_tone_map: true,
            suppress_program_change: true,
        }
    }
}

impl Default for DrumOutput {
    fn default() -> (r: Self)
        ensures
            r == Self::initial(),
    {
        DrumOutput {
            midi_channel: None,
            mode: DrumOutputMode::Replace,
            unmatched: DrumUnmatchedPolicy::WarnAndDrop,
            suppress_tone_map: true,
            suppress_program_change: true,
        }
    }
}

impl OpllPseudoDrumMatcherView {
    /// The test that every note passes.
    pub open spec fn any() -> Self {
        OpllPseudoDrumMatcherView {
            macro_symbol: None,
            source_track: StringMatcherView::Any,
            envelope: U8MatcherView::Any,
            source_tone: U8MatcherView::Any,
            effective_tone: U8MatcherView::Any,
            note_name: None,
            octave: None,
            source_midi_note: U8MatcherView::Any,
        }
    }
}

impl Default for OpllPseudoDrumMatcher {
    fn default() -> (r: Self)
        ensures
            r.deep_view() == OpllPseudoDrumMatcherView::any(),
    {
        OpllPseudoDrumMatcher {
            macro_symbol: None,
            source_track: StringMatcher::Any,
            envelope: U8Matcher::Any,
            source_tone: U8Matcher::Any,
            effective_tone: U8Matcher::Any,
            note_name: None,
            octave: None,
            source_midi_note: U8Matcher::Any,
        }
    }
}

/// The rule that macros called by a letter are a drum.
pub open spec fn symbol_rule(name: Seq<char>, symbol: char, note: u8) -> OpllPseudoDrumRuleView {
    OpllPseudoDrumRuleView {
        name: Some(name),
        matcher: OpllPseudoDrumMatcherView {
            macro_symbol: Some(symbol),
            ..OpllPseudoDrumMatcherView::any()
        },
        drum: DrumHit { note, velocity: DrumVelocity::SourceVolume },
    }
}

/// The drum map that exists from the start.
pub open spec fn built_in_drum_map() -> OpllPseudoDrumMapView {
    OpllPseudoDrumMapView {
        output: DrumOutput { midi_channel: Some(9), ..DrumOutput::initial() },
        hit_grouping: DrumHitGrouping {
            enabled: true,
            suppress_macro_continuation: true,
            suppress_slur_ampersand: true,
        },
        rules: seq![
            symbol_rule("kick"@, 'b', 36),
            symbol_rule("snare"@, 's', 38),
            symbol_rule("closed_hat"@, 'h', 42),
            symbol_rule("open_hat"@, 'o', 46),
        ],
    }
}

fn default_symbol_rule(name: &str, symbol: char, note: u8) -> (r: OpllPseudoDrumRule)
    ensures
        r.deep_view() == symbol_rule(name@, symbol, note),
{
    let mut matcher = OpllPseudoDrumMatcher::default();
    matcher.macro_symbol = Some(symbol);
    OpllPseudoDrumRule {
        name: Some(copy_text(name)),
        matcher,
        drum: DrumHit { note, velocity: DrumVelocity::SourceVolume },
    }
}

fn default_drum_map() -> (r: OpllPseudoDrumMap)
    ensures
        r.deep_view() == built_in_drum_map(),
{
    let mut output = DrumOutput::default();
    output.midi_channel = Some(9);
    let mut rules: Vec<OpllPseudoDrumRule> = Vec::new();
    rules.push(default_symbol_rule("kick", 'b', 36));
    rules.push(default_symbol_rule("snare", 's', 38));
    rules.push(default_symbol_rule("closed_hat", 'h', 42));
    rules.push(default_symbol_rule("open_hat", 'o', 46));
    assert(views::all_views(rules@) =~= built_in_drum_map().rules);
    OpllPseudoDrumMap {
        output,
        hit_grouping: DrumHitGrouping {
            enabled: true,
            suppress_macro_continuation: true,
            suppress_slur_ampersand: true,
        },
        rules,
    }
}

impl SmfMapConfigView {
    /// The configuration before any file is read.
    pub open spec fn initial() -> Self {
        SmfMapConfigView {
            smf_ppq: None,
            smf_type: 1,
            program_numbering: Numbering::ZeroBased,
            channel_numbering: Numbering::ZeroBased,
            channel_overflow: None,
            rhythm_channel: 9,
            manual_smf_enabled: true,
            unknown_requests_fail: true,
            tone_map_enabled: true,
            psg_envelope_map_enabled: true,
            psg_expression_cc: 11,
            psg_noise_enabled: true,
            psg_noise_default_action: PsgNoiseDefaultAction::EnvelopeCc,
            psg_noise_drum_map_enabled: false,
            psg_noise_drum_channel: 9,
            psg_noise_drums: Map::empty(),
            envelope_map_enabled: true,
            envelope_mode: None,
            envelope_expression_cc: 11,
            envelope_volume_cc: 7,
            envelope_scc_enabled: true,
            envelope_opll_enabled: true,
            register_map_policy: RegisterMapPolicy::IgnoreAndReport,
            register_rules: Seq::empty(),
            macro_max_depth: 8,
            tracks: Map::empty(),
            tone_map: ToneMapView { scc: Some(Map::empty()), opll: Some(built_in_tones()) },
            macros: built_in_macros(),
            opll_respect_at_hash_rom_assign: true,
            opll_pseudo_drum_enabled: false,
            opll_pseudo_drum_maps: Map::empty().insert(
                "default_opll_pseudo"@,
                built_in_drum_map(),
            ),
            pitch_glide: PitchGlideConfig::initial(),
            details: RenderDetailsView::initial(),
        }
    }
}

impl Default for SmfMapConfig {
    fn default() -> (r: Self)
        ensures
            r.deep_view() == SmfMapConfigView::initial(),
    {
        let mut drum_maps: NameMap<OpllPseudoDrumMap> = NameMap::new();
        drum_maps.insert(copy_text("default_opll_pseudo"), default_drum_map());
        let r = SmfMapConfig {
            smf_ppq: None,
            smf_type: 1,
            program_numbering: Numbering::ZeroBased,
            channel_numbering: Numbering::ZeroBased,
            channel_overflow: None,
            rhythm_channel: 9,
            manual_smf_enabled: true,
            unknown_requests_fail: true,
            tone_map_enabled: true,
            psg_envelope_map_enabled: true,
            psg_expression_cc: 11,
            psg_noise_enabled: true,
            psg_noise_default_action: PsgNoiseDefaultAction::EnvelopeCc,
            psg_noise_drum_map_enabled: false,
            psg_noise_drum_channel: 9,
            psg_noise_drums: BTreeMap::new(),
            envelope_map_enabled: true,
            envelope_mode: None,
            envelope_expression_cc: 11,
            envelope_volume_cc: 7,
            envelope_scc_enabled: true,
            envelope_opll_enabled: true,
            register_map_policy: RegisterMapPolicy::IgnoreAndReport,
            register_rules: Vec::new(),
            macro_max_depth: 8,
            tracks: NameMap::new(),
            tone_map: ToneMap { scc: Some(BTreeMap::new()), opll: Some(default_opll_tones()) },
            macros: default_macros(),
            opll_respect_at_hash_rom_assign: true,
            opll_pseudo_drum_enabled: false,
            opll_pseudo_drum_maps: drum_maps,
            pitch_glide: PitchGlideConfig::default(),
            details: RenderDetails::default(),
        };
        assert(views::map_views(r.psg_noise_drums@) =~= Map::empty());
        assert(views::all_views(r.register_rules@) =~= Seq::empty());
        assert(views::map_views(r.tone_map.scc->0@) =~= Map::empty());
        r
    }
}

// ---------------------------------------------------------------------------
// Lookups
// ---------------------------------------------------------------------------
/// The family of a source track by its name.
pub open spec fn default_family(track: Seq<char>, opll_mode: i32, kind: TrackKind) -> SourceFamily {
    if kind == TrackKind::Rhythm || (opll_mode == 1 && (track == "f"@ || track == "r"@)) {
        SourceFamily::Rhythm
    } else if track == "1"@ || track == "2"@ {
        SourceFamily::Psg
    } else if track == "3"@ {
        SourceFamily::PsgNoise
    } else if track == "4"@ || track == "5"@ || track == "6"@ || track == "7"@ || track == "8"@ {
        SourceFamily::Scc
    } else if track == "9"@ || track == "a"@ || track == "b"@ || track == "c"@ || track == "d"@
        || track == "e"@ || track == "f"@ || track == "g"@ || track == "h"@ {
        SourceFamily::Opll
    } else {
        SourceFamily::Psg
    }
}

fn default_family_for_track(track: &str, opll_mode: i32, kind: TrackKind) -> (r: SourceFamily)
    ensures
        r == default_family(track@, opll_mode, kind),
{
    if kind == TrackKind::Rhythm || (opll_mode == 1 && (same_text(track, "f") || same_text(
        track,
        "r",
    ))) {
        SourceFamily::Rhythm
    } else if same_text(track, "1") || same_text(track, "2") {
        SourceFamily::Psg
    } else if same_text(track, "3") {
        SourceFamily::PsgNoise
    } else if same_text(track, "4") || same_text(track, "5") || same_text(track, "6") || same_text(
        track,
        "7",
    ) || same_text(track, "8") {
        SourceFamily::Scc
    } else if same_text(track, "9") || same_text(track, "a") || same_text(track, "b") || same_text(
        track,
        "c",
    ) || same_text(track, "d") || same_text(track, "e") || same_text(track, "f") || same_text(
        track,
        "g",
    ) || same_text(track, "h") {
        SourceFamily::Opll
    } else {
        SourceFamily::Psg
    }
}

/// What is known of a note when a drum is looked up.
pub struct OpllPseudoDrumContext<'a> {
    pub source_track: &'a str,
    pub macro_symbol: Option<char>,
    pub envelope: Option<u8>,
    pub source_tone: Option<u8>,
    pub effective_tone: Option<u8>,
    pub note_name: Option<char>,
    pub octave: Option<i32>,
    pub source_midi_note: Option<u8>,
}

#[verifier::ext_equal]
pub struct DrumContextView {
    pub source_track: Seq<char>,
    pub macro_symbol: Option<char>,
    pub envelope: Option<u8>,
    pub source_tone: Option<u8>,
    pub effective_tone: Option<u8>,
    pub note_name: Option<char>,
    pub octave: Option<i32>,
    pub source_midi_note: Option<u8>,
}

impl<'a> DeepView for OpllPseudoDrumContext<'a> {
    type V = DrumContextView;

    open spec fn deep_view(&self) -> DrumContextView {
        DrumContextView {
            source_track: self.source_track@,
            macro_symbol: self.macro_symbol,
            envelope: self.envelope,
            source_tone: self.source_tone,
            effective_tone: self.effective_tone,
            note_name: self.note_name,
            octave: self.octave,
            source_midi_note: self.source_midi_note,
        }
    }
}

impl OpllPseudoDrumMatcherView {
    /// All tests of the rule succeed.
    pub open spec fn accepts(self, c: DrumContextView) -> bool {
        &&& self.macro_symbol is Some ==> c.macro_symbol == self.macro_symbol
        &&& self.source_track.accepts(c.source_track)
        &&& self.envelope.accepts_opt(c.envelope)
        &&& self.source_tone.accepts_opt(c.source_tone)
        &&& self.effective_tone.accepts_opt(c.effective_tone)
        &&& self.note_name is Some ==> c.note_name == self.note_name
        &&& self.octave is Some ==> c.octave == self.octave
        &&& self.source_midi_note.accepts_opt(c.source_midi_note)
    }
}

impl OpllPseudoDrumMatcher {
    pub fn matches(&self, c: &OpllPseudoDrumContext) -> (r: bool)
        ensures
            r == self.deep_view().accepts(c.deep_view()),
    {
        (self.macro_symbol.is_none() || self.macro_symbol == c.macro_symbol)
            && self.source_track.matches(c.source_track) && self.envelope.matches_opt(c.envelope)
            && self.source_tone.matches_opt(c.source_tone) && self.effective_tone.matches_opt(
            c.effective_tone,
        ) && (self.note_name.is_none() || self.note_name == c.note_name) && (self.octave.is_none()
            || self.octave == c.octave) && self.source_midi_note.matches_opt(c.source_midi_note)
    }
}

/// The first drum rule from `i` on that a note passes.
pub open spec fn drum_rule_from(rules: Seq<OpllPseudoDrumRuleView>, i: int, c: DrumContextView) ->
    Option<OpllPseudoDrumRuleView>
    decreases rules.len() - i,
{
    if i < 0 || i >= rules.len() {
        None
    } else if rules[i].matcher.accepts(c) {
        Some(rules[i])
    } else {
        drum_rule_from(rules, i + 1, c)
    }
}

impl RegisterRuleMatcherView {
    pub open spec fn any() -> Self {
        RegisterRuleMatcherView {
            family: StringMatcherView::Any,
            source_track: StringMatcherView::Any,
            register: U8MatcherView::Any,
            data: U8MatcherView::Any,
            context: StringMatcherView::Any,
        }
    }

    pub open spec fn accepts(
        self,
        family: SourceFamily,
        track: Seq<char>,
        register: u8,
        data: u8,
        context: RegisterContext,
    ) -> bool {
        &&& self.family.accepts(family.name())
        &&& self.source_track.accepts(track)
        &&& self.register.accepts(register)
        &&& self.data.accepts(data)
        &&& self.context.accepts(context.name())
    }
}

impl Default for RegisterRuleMatcher {
    fn default() -> (r: Self)
        ensures
            r.deep_view() == RegisterRuleMatcherView::any(),
    {
        RegisterRuleMatcher {
            family: StringMatcher::Any,
            source_track: StringMatcher::Any,
            register: U8Matcher::Any,
            data: U8Matcher::Any,
            context: StringMatcher::Any,
        }
    }
}

impl RegisterRuleMatcher {
    pub fn matches(
        &self,
        family: SourceFamily,
        source_track: &str,
        register: u8,
        data: u8,
        context: RegisterContext,
    ) -> (r: bool)
        ensures
            r == self.deep_view().accepts(family, source_track@, register, data, context),
    {
        self.family.matches(family.as_str()) && self.source_track.matches(source_track)
            && self.register.matches(register) && self.data.matches(data) && self.context.matches(
            context.as_str(),
        )
    }
}

/// What a rule that applies emits, under its name.
#[derive(Debug)]
pub struct RuleEvents {
    pub name: String,
    pub events: Vec<SmfRequest>,
}

#[verifier::ext_equal]
pub struct RuleEventsView {
    pub name: Seq<char>,
    pub events: Seq<SmfRequestView>,
}

impl DeepView for RuleEvents {
    type V = RuleEventsView;

    open spec fn deep_view(&self) -> RuleEventsView {
        RuleEventsView { name: self.name@, events: views::all_views(self.events@) }
    }
}

/// A request with the value of its formula, in the range of MIDI.
pub open spec fn with_value(r: SmfRequestView, n: int) -> SmfRequestView {
    match r {
        SmfRequestView::Cc { controller, .. } => SmfRequestView::Cc {
            controller,
            value: text::clamp_int(n, 0, 127) as u8,
        },
        SmfRequestView::PitchBend { .. } => SmfRequestView::PitchBend {
            value: text::clamp_int(n, -8192, 16383) as i32,
        },
        SmfRequestView::Rpn { msb, lsb, .. } => SmfRequestView::Rpn {
            msb,
            lsb,
            value: text::clamp_int(n, 0, 16383) as u16,
        },
        SmfRequestView::Nrpn { msb, lsb, .. } => SmfRequestView::Nrpn {
            msb,
            lsb,
            value: text::clamp_int(n, 0, 16383) as u16,
        },
        _ => r,
    }
}

/// The first `n` requests with their values. A request whose formula has no
/// value is left out.
pub open spec fn filled(
    emit: Seq<SmfRequestView>,
    formulas: Seq<Option<Seq<char>>>,
    n: int,
    vars: FormulaVars,
) -> Seq<SmfRequestView>
    decreases n,
{
    if n <= 0 || n > emit.len() {
        Seq::empty()
    } else {
        let before = filled(emit, formulas, n - 1, vars);
        if n <= formulas.len() && formulas[n - 1] is Some {
            match formula::formula_value(formulas[n - 1]->0, vars) {
                Some(value) => before.push(with_value(emit[n - 1], value)),
                None => before,
            }
        } else {
            before.push(emit[n - 1])
        }
    }
}

fn bounded(n: i128, low: i128, high: i128) -> (r: i128)
    requires
        low <= high,
    ensures
        r == text::clamp_int(n as int, low as int, high as int),
        low <= r <= high,
{
    if n < low {
        low
    } else if n > high {
        high
    } else {
        n
    }
}

fn put_value(r: &SmfRequest, n: i128) -> (q: SmfRequest)
    ensures
        q.deep_view() == with_value(r.deep_view(), n as int),
{
    match r {
        SmfRequest::Cc { controller, .. } => SmfRequest::Cc {
            controller: *controller,
            value: bounded(n, 0, 127) as u8,
        },
        SmfRequest::PitchBend { .. } => SmfRequest::PitchBend {
            value: bounded(n, -8192, 16383) as i32,
        },
        SmfRequest::Rpn { msb, lsb, .. } => SmfRequest::Rpn {
            msb: *msb,
            lsb: *lsb,
            value: bounded(n, 0, 16383) as u16,
        },
        SmfRequest::Nrpn { msb, lsb, .. } => SmfRequest::Nrpn {
            msb: *msb,
            lsb: *lsb,
            value: bounded(n, 0, 16383) as u16,
        },
        _ => r.clone(),
    }
}

impl RegisterRule {
    /// What the rule emits for a register write.
    pub fn events_for(&self, vars: FormulaVars) -> (r: Vec<SmfRequest>)
        ensures
            views::all_views(r@) == filled(
                self.deep_view().emit,
                self.deep_view().formulas,
                self.deep_view().emit.len() as int,
                vars,
            ),
    {
        let ghost emit = views::all_views(self.emit@);
        let ghost formulas = views::all_views(self.formulas@);
        let mut out: Vec<SmfRequest> = Vec::new();
        let mut i: usize = 0;
        assert(views::all_views(out@) =~= Seq::empty());
        while i < self.emit.len()
            invariant
                i <= self.emit@.len(),
                emit == views::all_views(self.emit@),
                formulas == views::all_views(self.formulas@),
                views::all_views(out@) == filled(emit, formulas, i as int, vars),
            decreases self.emit@.len() - i,
        {
            assert(emit[i as int] == self.emit@[i as int].deep_view());
            let formula: Option<&String> = if i < self.formulas.len() {
                assert(formulas[i as int] == self.formulas@[i as int].deep_view());
                self.formulas[i].as_ref()
            } else {
                None
            };
            match formula {
                Some(text) => {
                    match evaluate_formula(text.as_str(), vars) {
                        Some(n) => {
                            push_viewed(&mut out, put_value(&self.emit[i], n));
                        },
                        None => {},
                    }
                },
                None => {
                    push_viewed(&mut out, self.emit[i].clone());
                },
            }
            i += 1;
        }
        out
    }
}

/// The number of a family in formulas.
pub open spec fn family_number(family: SourceFamily) -> u8 {
    match family {
        SourceFamily::Psg => 0,
        SourceFamily::PsgNoise => 1,
        SourceFamily::Scc => 2,
        SourceFamily::Opll => 3,
        SourceFamily::Rhythm => 4,
    }
}

/// The number of a track in formulas: its digit, or the place of its letter after
/// the digits.
pub open spec fn track_number(track: Seq<char>) -> Option<u8> {
    if track.len() != 1 {
        None
    } else if '0' <= track[0] <= '9' {
        Some((track[0] as int - '0' as int) as u8)
    } else if 'a' <= track[0] <= 'z' {
        Some((track[0] as int - 'a' as int + 10) as u8)
    } else if 'A' <= track[0] <= 'Z' {
        Some((track[0] as int - 'A' as int + 10) as u8)
    } else {
        None
    }
}

pub fn find_family_number(family: SourceFamily) -> (r: u8)
    ensures
        r == family_number(family),
{
    match family {
        SourceFamily::Psg => 0,
        SourceFamily::PsgNoise => 1,
        SourceFamily::Scc => 2,
        SourceFamily::Opll => 3,
        SourceFamily::Rhythm => 4,
    }
}

pub fn find_track_number(track: &str) -> (r: Option<u8>)
    ensures
        r == track_number(track@),
{
    let s = chars_of(track);
    if s.len() != 1 {
        return None;
    }
    let c: char = s[0];
    if '0' <= c && c <= '9' {
        Some((c as u32 - '0' as u32) as u8)
    } else if 'a' <= c && c <= 'z' {
        Some((c as u32 - 'a' as u32 + 10) as u8)
    } else if 'A' <= c && c <= 'Z' {
        Some((c as u32 - 'A' as u32 + 10) as u8)
    } else {
        None
    }
}

/// What the first `n` rules emit for a register write, in their order.
pub open spec fn rule_events(
    rules: Seq<RegisterRuleView>,
    n: int,
    family: SourceFamily,
    track: Seq<char>,
    context: RegisterContext,
    vars: FormulaVars,
) -> Seq<RuleEventsView>
    decreases n,
{
    if n <= 0 || n > rules.len() {
        Seq::empty()
    } else {
        let before = rule_events(rules, n - 1, family, track, context, vars);
        let rule = rules[n - 1];
        if rule.enabled && rule.matcher.accepts(
            family,
            track,
            vars.register,
            vars.data,
            context,
        ) {
            before.push(
                RuleEventsView {
                    name: rule.name,
                    events: filled(
                        rule.emit,
                        rule.formulas,
                        rule.emit.len() as int,
                        vars,
                    ),
                },
            )
        } else {
            before
        }
    }
}

pub fn copy_requests(v: &Vec<SmfRequest>) -> (r: Vec<SmfRequest>)
    ensures
        views::all_views(r@) == views::all_views(v@),
{
    let mut out: Vec<SmfRequest> = Vec::new();
    let mut i: usize = 0;
    while i < v.len()
        invariant
            i <= v@.len(),
            views::all_views(out@) == views::all_views(v@).take(i as int),
        decreases v@.len() - i,
    {
        push_viewed(&mut out, v[i].clone());
        assert(views::all_views(v@).take(i + 1) =~= views::all_views(v@).take(i as int).push(
            v@[i as int].deep_view(),
        ));
        i += 1;
    }
    assert(views::all_views(v@).take(v@.len() as int) =~= views::all_views(v@));
    out
}

impl SmfMapConfigView {
    /// The family of a track. The word `rhythm` on an OPLL track that has no
    /// built-in drums leaves it an OPLL track, played as drums.
    pub open spec fn family(self, track: Seq<char>, opll_mode: i32, kind: TrackKind) ->
        SourceFamily {
        let default = default_family(track, opll_mode, kind);
        if self.tracks.contains_key(track) {
            match self.tracks[track].family {
                Some(SourceFamily::Rhythm) => if default == SourceFamily::Opll {
                    SourceFamily::Opll
                } else {
                    SourceFamily::Rhythm
                },
                Some(f) => f,
                None => default,
            }
        } else {
            default
        }
    }

    pub open spec fn midi_channel(self, track: Seq<char>) -> Option<u8> {
        if self.tracks.contains_key(track) {
            match self.tracks[track].midi_channel {
                Some(c) => Some(text::min_int(self.channel_numbering.base_zero(c) as int, 15) as u8),
                None => None,
            }
        } else {
            None
        }
    }

    pub open spec fn midi_port(self, track: Seq<char>) -> Option<u8> {
        if self.tracks.contains_key(track) {
            self.tracks[track].midi_port
        } else {
            None
        }
    }

    /// The events of a tone: SCC and OPLL tones only.
    pub open spec fn tone(self, family: SourceFamily, tone: u8) -> Option<Seq<SmfRequestView>> {
        let tones = match family {
            SourceFamily::Scc => self.tone_map.scc,
            SourceFamily::Opll => self.tone_map.opll,
            _ => None,
        };
        match tones {
            Some(t) => if self.tone_map_enabled && t.contains_key(tone) {
                Some(t[tone].events)
            } else {
                None
            },
            None => None,
        }
    }

    pub open spec fn envelope_mode_of(self, family: SourceFamily, mode: EnvelopeMode) ->
        EnvelopeMode {
        let chosen = match self.envelope_mode {
            Some(m) => m,
            None => mode,
        };
        match family {
            SourceFamily::Psg | SourceFamily::PsgNoise => if self.psg_envelope_map_enabled {
                mode
            } else {
                EnvelopeMode::Off
            },
            SourceFamily::Scc => if self.envelope_map_enabled && self.envelope_scc_enabled {
                chosen
            } else {
                EnvelopeMode::Off
            },
            SourceFamily::Opll => if self.envelope_map_enabled && self.envelope_opll_enabled {
                chosen
            } else {
                EnvelopeMode::Off
            },
            SourceFamily::Rhythm => EnvelopeMode::Off,
        }
    }

    pub open spec fn envelope_controller(self, family: SourceFamily, mode: EnvelopeMode) -> u8 {
        match mode {
            EnvelopeMode::Cc7 => self.envelope_volume_cc,
            EnvelopeMode::Cc11 => match family {
                SourceFamily::Psg | SourceFamily::PsgNoise => self.psg_expression_cc,
                _ => self.envelope_expression_cc,
            },
            _ => 11,
        }
    }

    pub open spec fn noise_drum(self, reference: Option<EnvelopeRef>) -> Option<
        PsgNoiseDrumEntryView,
    > {
        if !self.psg_noise_enabled || !self.psg_noise_drum_map_enabled
            || self.psg_noise_default_action != PsgNoiseDefaultAction::DrumMap {
            None
        } else {
            match reference {
                Some(r) => {
                    let id = envelope_id(r);
                    if self.psg_noise_drums.contains_key(id) {
                        Some(self.psg_noise_drums[id])
                    } else {
                        None
                    }
                },
                None => None,
            }
        }
    }

    /// The drum map of an OPLL track that is played as drums.
    pub open spec fn drum_map(self, track: Seq<char>, kind: TrackKind) -> Option<
        OpllPseudoDrumMapView,
    > {
        if !self.opll_pseudo_drum_enabled || kind == TrackKind::Rhythm
            || !self.tracks.contains_key(track) || self.family(track, 0, kind)
            != SourceFamily::Opll {
            None
        } else {
            let t = self.tracks[track];
            let drum = match t.render_role {
                Some(role) => role == RenderRole::Drum,
                None => t.family == Some(SourceFamily::Rhythm),
            };
            let name = match t.drum_map {
                Some(n) => n,
                None => "default_opll_pseudo"@,
            };
            if drum && self.opll_pseudo_drum_maps.contains_key(name) {
                Some(self.opll_pseudo_drum_maps[name])
            } else {
                None
            }
        }
    }
}

pub open spec fn envelope_id(r: EnvelopeRef) -> u8 {
    match r {
        EnvelopeRef::E(id) => id,
        EnvelopeRef::R(id) => id,
    }
}

pub open spec fn opt_slice(r: Option<&[SmfRequest]>) -> Option<Seq<SmfRequestView>> {
    match r {
        Some(e) => Some(views::all_views(e@)),
        None => None,
    }
}

impl SmfMapConfig {
    pub fn family_for_track(&self, track_id: &str, opll_mode: i32, kind: TrackKind) -> (r:
        SourceFamily)
        ensures
            r == self.deep_view().family(track_id@, opll_mode, kind),
    {
        let default = default_family_for_track(track_id, opll_mode, kind);
        match self.tracks.get(track_id) {
            Some(t) => match t.family {
                Some(SourceFamily::Rhythm) => if default == SourceFamily::Opll {
                    SourceFamily::Opll
                } else {
                    SourceFamily::Rhythm
                },
                Some(f) => f,
                None => default,
            },
            None => default,
        }
    }

    pub fn midi_channel_for_track(&self, track_id: &str) -> (r: Option<u8>)
        ensures
            r == self.deep_view().midi_channel(track_id@),
    {
        match self.tracks.get(track_id) {
            Some(t) => match t.midi_channel {
                Some(c) => {
                    let n = self.channel_numbering.normalize(c);
                    if n <= 15 {
                        Some(n)
                    } else {
                        Some(15)
                    }
                },
                None => None,
            },
            None => None,
        }
    }

    pub fn midi_port_for_track(&self, track_id: &str) -> (r: Option<u8>)
        ensures
            r == self.deep_view().midi_port(track_id@),
    {
        match self.tracks.get(track_id) {
            Some(t) => t.midi_port,
            None => None,
        }
    }

    pub fn tone_events(&self, family: SourceFamily, tone: u8) -> (r: Option<&[SmfRequest]>)
        ensures
            opt_slice(r) == self.deep_view().tone(family, tone),
    {
        if !self.tone_map_enabled {
            return None;
        }
        let tones = match family {
            SourceFamily::Scc => &self.tone_map.scc,
            SourceFamily::Opll => &self.tone_map.opll,
            _ => {
                return None;
            },
        };
        match tones {
            Some(t) => match t.get(&tone) {
                Some(e) => Some(e.events.as_slice()),
                None => None,
            },
            None => None,
        }
    }

    pub fn envelope_mode_for_family(&self, family: SourceFamily, cli_mode: EnvelopeMode) -> (r:
        EnvelopeMode)
        ensures
            r == self.deep_view().envelope_mode_of(family, cli_mode),
    {
        let chosen = match self.envelope_mode {
            Some(m) => m,
            None => cli_mode,
        };
        match family {
            SourceFamily::Psg | SourceFamily::PsgNoise => if self.psg_envelope_map_enabled {
                cli_mode
            } else {
                EnvelopeMode::Off
            },
            SourceFamily::Scc => if self.envelope_map_enabled && self.envelope_scc_enabled {
                chosen
            } else {
                EnvelopeMode::Off
            },
            SourceFamily::Opll => if self.envelope_map_enabled && self.envelope_opll_enabled {
                chosen
            } else {
                EnvelopeMode::Off
            },
            SourceFamily::Rhythm => EnvelopeMode::Off,
        }
    }

    pub fn envelope_controller_for_family(&self, family: SourceFamily, mode: EnvelopeMode) -> (r:
        u8)
        ensures
            r == self.deep_view().envelope_controller(family, mode),
    {
        match mode {
            EnvelopeMode::Cc7 => self.envelope_volume_cc,
            EnvelopeMode::Cc11 => match family {
                SourceFamily::Psg | SourceFamily::PsgNoise => self.psg_expression_cc,
                _ => self.envelope_expression_cc,
            },
            _ => 11,
        }
    }

    pub fn psg_noise_drum_for_envelope(&self, reference: Option<EnvelopeRef>) -> (r: Option<
        &PsgNoiseDrumEntry,
    >)
        ensures
            r.deep_view() == self.deep_view().noise_drum(reference),
    {
        if !self.psg_noise_enabled || !self.psg_noise_drum_map_enabled
            || self.psg_noise_default_action != PsgNoiseDefaultAction::DrumMap {
            return None;
        }
        let id = match reference {
            Some(EnvelopeRef::E(id)) => id,
            Some(EnvelopeRef::R(id)) => id,
            None => {
                return None;
            },
        };
        self.psg_noise_drums.get(&id)
    }

    /// What the rules emit for a register write of which no more than this is known.
    pub fn register_rule_events(
        &self,
        family: SourceFamily,
        source_track: &str,
        register: u8,
        data: u8,
        context: RegisterContext,
    ) -> (r: Vec<RuleEvents>)
        ensures
            views::all_views(r@) == rule_events(
                self.deep_view().register_rules,
                self.deep_view().register_rules.len() as int,
                family,
                source_track@,
                context,
                FormulaVars {
                    track: track_number(source_track@),
                    family: Some(family_number(family)),
                    ..FormulaVars::bare(register, data)
                },
            ),
    {
        let mut vars = FormulaVars::of_write(register, data);
        vars.track = find_track_number(source_track);
        vars.family = Some(find_family_number(family));
        self.rule_events_for(family, source_track, context, vars)
    }

    /// What the rules emit for a register write.
    pub fn rule_events_for(
        &self,
        family: SourceFamily,
        source_track: &str,
        context: RegisterContext,
        vars: FormulaVars,
    ) -> (r: Vec<RuleEvents>)
        ensures
            views::all_views(r@) == rule_events(
                self.deep_view().register_rules,
                self.deep_view().register_rules.len() as int,
                family,
                source_track@,
                context,
                vars,
            ),
    {
        let ghost rules = views::all_views(self.register_rules@);
        let mut out: Vec<RuleEvents> = Vec::new();
        let mut i: usize = 0;
        assert(views::all_views(out@) =~= Seq::empty());
        while i < self.register_rules.len()
            invariant
                i <= self.register_rules@.len(),
                rules == views::all_views(self.register_rules@),
                views::all_views(out@) == rule_events(
                    rules,
                    i as int,
                    family,
                    source_track@,
                    context,
                    vars,
                ),
            decreases self.register_rules@.len() - i,
        {
            let rule = &self.register_rules[i];
            assert(rules[i as int] == rule.deep_view());
            if rule.enabled && rule.matcher.matches(
                family,
                source_track,
                vars.register,
                vars.data,
                context,
            ) {
                push_viewed(
                    &mut out,
                    RuleEvents {
                        name: copy_text(rule.name.as_str()),
                        events: rule.events_for(vars),
                    },
                );
            }
            i += 1;
        }
        out
    }

    /// The drum map of an OPLL track that is played as drums.
    pub fn opll_pseudo_drum_map_for_track(&self, track_id: &str, kind: TrackKind) -> (r: Option<
        &OpllPseudoDrumMap,
    >)
        ensures
            r.deep_view() == self.deep_view().drum_map(track_id@, kind),
    {
        if !self.opll_pseudo_drum_enabled || kind == TrackKind::Rhythm {
            return None;
        }
        let t = match self.tracks.get(track_id) {
            Some(t) => t,
            None => {
                return None;
            },
        };
        if self.family_for_track(track_id, 0, kind) != SourceFamily::Opll {
            return None;
        }
        let drum = match t.render_role {
            Some(role) => role == RenderRole::Drum,
            None => t.family == Some(SourceFamily::Rhythm),
        };
        if !drum {
            return None;
        }
        match &t.drum_map {
            Some(n) => self.opll_pseudo_drum_maps.get(n.as_str()),
            None => self.opll_pseudo_drum_maps.get("default_opll_pseudo"),
        }
    }

    /// The first rule of a drum map that a note passes.
    pub fn opll_pseudo_drum_for_note<'a>(
        &self,
        map: &'a OpllPseudoDrumMap,
        context: &OpllPseudoDrumContext,
    ) -> (r: Option<&'a OpllPseudoDrumRule>)
        ensures
            r.deep_view() == drum_rule_from(map.deep_view().rules, 0, context.deep_view()),
    {
        let ghost rules = views::all_views(map.rules@);
        let mut i: usize = 0;
        while i < map.rules.len()
            invariant
                i <= map.rules@.len(),
                rules == views::all_views(map.rules@),
                drum_rule_from(rules, 0, context.deep_view()) == drum_rule_from(
                    rules,
                    i as int,
                    context.deep_view(),
                ),
            decreases map.rules@.len() - i,
        {
            assert(rules[i as int] == map.rules@[i as int].deep_view());
            if map.rules[i].matcher.matches(context) {
                return Some(&map.rules[i]);
            }
            i += 1;
        }
        None
    }
}

/// Only SCC and OPLL tones are mapped: the numbers of PSG and rhythm tracks never
/// become programs.
pub proof fn other_families_have_no_tones(c: SmfMapConfigView, family: SourceFamily, tone: u8)
    requires
        family != SourceFamily::Scc,
        family != SourceFamily::Opll,
    ensures
        c.tone(family, tone) is None,
{
}

} // verus!
