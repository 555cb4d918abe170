//! The command line.

use vstd::prelude::*;

use crate::ir::{
    ChannelOverflowPolicy, ConversionOptions, EncodingChoice, EnvelopeMode, OptionsView,
    RhythmMap, TonePolicy,
};
use crate::smfmap::{
    Numbering, PsgNoiseDefaultAction, RegisterMapPolicy, SmfMapConfig, SmfMapConfigView, ToneMap,
};
use crate::text;
use crate::text::{
    after, begins_with, begins_with_char, chars_of, copy_text, find_char, join2, read_whole,
    same_text, signed_text, substring,
};
use crate::views;
use crate::views::push_viewed;

verus! {

/// What a command line asks for.
#[derive(Debug)]
pub struct Cli {
    pub input: String,
    pub output: Option<String>,
    pub diagnostics: Option<String>,
    pub config_paths: Vec<String>,
    pub emit_config_skeleton: Option<String>,
    pub options: ConversionOptions,
    pub overrides: Overrides,
    pub help: bool,
}

/// The settings of the command line that a configuration cannot change.
#[derive(Clone, Copy, Debug, PartialEq, Eq, Structural)]
pub struct Overrides {
    pub ppq: Option<u16>,
    pub channel_overflow: Option<ChannelOverflowPolicy>,
    pub program_numbering: Option<Numbering>,
    pub channel_numbering: Option<Numbering>,
    pub manual_smf: Option<bool>,
    pub tone_map: Option<bool>,
    pub psg_envelope_map: Option<bool>,
    pub psg_noise_drum_map: Option<bool>,
    pub register_map: Option<RegisterMapPolicy>,
}

impl Overrides {
    pub open spec fn nothing() -> Self {
        Overrides {
            ppq: None,
            channel_overflow: None,
            program_numbering: None,
            channel_numbering: None,
            manual_smf: None,
            tone_map: None,
            psg_envelope_map: None,
            psg_noise_drum_map: None,
            register_map: None,
        }
    }

    fn none() -> (r: Self)
        ensures
            r == Self::nothing(),
    {
        Overrides {
            ppq: None,
            channel_overflow: None,
            program_numbering: None,
            channel_numbering: None,
            manual_smf: None,
            tone_map: None,
            psg_envelope_map: None,
            psg_noise_drum_map: None,
            register_map: None,
        }
    }
}

#[verifier::ext_equal]
pub struct CliView {
    pub input: Seq<char>,
    pub output: Option<Seq<char>>,
    pub diagnostics: Option<Seq<char>>,
    pub config_paths: Seq<Seq<char>>,
    pub emit_config_skeleton: Option<Seq<char>>,
    pub options: OptionsView,
    pub overrides: Overrides,
    pub help: bool,
}

impl DeepView for Cli {
    type V = CliView;

    open spec fn deep_view(&self) -> CliView {
        CliView {
            input: self.input@,
            output: self.output.deep_view(),
            diagnostics: self.diagnostics.deep_view(),
            config_paths: views::all_views(self.config_paths@),
            emit_config_skeleton: self.emit_config_skeleton.deep_view(),
            options: self.options.deep_view(),
            overrides: self.overrides,
            help: self.help,
        }
    }
}

// ---------------------------------------------------------------------------
// Values
// ---------------------------------------------------------------------------
pub open spec fn on_off(value: Seq<char>) -> Result<bool, Seq<char>> {
    if value == "on"@ || value == "true"@ || value == "yes"@ {
        Ok(true)
    } else if value == "off"@ || value == "false"@ || value == "no"@ {
        Ok(false)
    } else {
        Err("expected on|off, got "@ + value)
    }
}

pub fn parse_on_off(value: &str) -> (r: Result<bool, String>)
    ensures
        views::result_view(r) == on_off(value@),
{
    if same_text(value, "on") || same_text(value, "true") || same_text(value, "yes") {
        Ok(true)
    } else if same_text(value, "off") || same_text(value, "false") || same_text(value, "no") {
        Ok(false)
    } else {
        Err(join2("expected on|off, got ", value))
    }
}

/// What stands behind a prefix, if it is there.
pub open spec fn after_prefix(s: Seq<char>, prefix: Seq<char>) -> Seq<char> {
    if prefix.len() <= s.len() && s.take(prefix.len() as int) == prefix {
        s.skip(prefix.len() as int)
    } else {
        s
    }
}

pub open spec fn octave_base(value: Seq<char>) -> Result<i32, Seq<char>> {
    match text::whole_number(
        after_prefix(value, "o4c="@),
        10,
        true,
        i32::MIN as int,
        i32::MAX as int,
    ) {
        None => Err("invalid --octave-base value: "@ + value),
        Some(note) => if 0 <= note <= 127 {
            Ok(note as i32)
        } else {
            Err("--octave-base must be in MIDI note range 0..127: "@ + text::signed_decimal(note))
        },
    }
}

pub fn parse_octave_base(value: &str) -> (r: Result<i32, String>)
    ensures
        views::result_view(r) == octave_base(value@),
{
    let chars = chars_of(value);
    let raw = if begins_with(chars.as_slice(), "o4c=") {
        proof {
            reveal_strlit("o4c=");
        }
        after(chars.as_slice(), 4)
    } else {
        chars.as_slice()
    };
    assert(raw@ =~= after_prefix(value@, "o4c="@)) by {
        reveal_strlit("o4c=");
    }
    match read_whole(raw, 10, true, -0x8000_0000, 0x7fff_ffff) {
        None => Err(join2("invalid --octave-base value: ", value)),
        Some(note) => {
            if 0 <= note && note <= 127 {
                Ok(note as i32)
            } else {
                let number = signed_text(note as i128);
                Err(
                    join2(
                        "--octave-base must be in MIDI note range 0..127: ",
                        number.as_str(),
                    ),
                )
            }
        },
    }
}

pub open spec fn loop_marker_names(value: Seq<char>) -> Result<(Seq<char>, Seq<char>), Seq<char>> {
    match text::find_from(value, 0, ':') {
        None => Err("--loop-marker-name must be formatted as start:end"@),
        Some(i) => if i == 0 || i + 1 >= value.len() {
            Err("--loop-marker-name start and end must be non-empty"@)
        } else {
            Ok((value.take(i), value.skip(i + 1)))
        },
    }
}

pub open spec fn pair_view(r: Result<(String, String), String>) -> Result<
    (Seq<char>, Seq<char>),
    Seq<char>,
> {
    match r {
        Ok((a, b)) => Ok((a@, b@)),
        Err(e) => Err(e@),
    }
}

pub fn parse_loop_marker_name(value: &str) -> (r: Result<(String, String), String>)
    ensures
        pair_view(r) == loop_marker_names(value@),
{
    let chars = chars_of(value);
    match find_char(chars.as_slice(), 0, ':') {
        None => Err(copy_text("--loop-marker-name must be formatted as start:end")),
        Some(i) => {
            if i == 0 || i >= chars.len() - 1 {
                Err(copy_text("--loop-marker-name start and end must be non-empty"))
            } else {
                let start = substring(chars.as_slice(), 0, i);
                let end = substring(chars.as_slice(), i + 1, chars.len());
                assert(start@ =~= value@.take(i as int));
                assert(end@ =~= value@.skip(i + 1));
                Ok((start, end))
            }
        },
    }
}

// ---------------------------------------------------------------------------
// Options with a value
// ---------------------------------------------------------------------------
/// What an option with no value behind it is answered; `None` for what is no
/// such option.
pub open spec fn missing_value(name: Seq<char>) -> Option<Seq<char>> {
    if name == "-o"@ || name == "--output"@ {
        Some("--output requires a path"@)
    } else if name == "--ppq"@ {
        Some("--ppq requires an integer"@)
    } else if name == "--loop-count"@ {
        Some("--loop-count requires an integer"@)
    } else if name == "--loop-marker-name"@ {
        Some("--loop-marker-name requires start:end"@)
    } else if name == "--envelope-mode"@ {
        Some("--envelope-mode requires a value"@)
    } else if name == "--tone-policy"@ {
        Some("--tone-policy requires a value"@)
    } else if name == "--rhythm-map"@ {
        Some("--rhythm-map requires a value"@)
    } else if name == "--channel-overflow"@ {
        Some("--channel-overflow requires a value"@)
    } else if name == "--encoding"@ {
        Some("--encoding requires a value"@)
    } else if name == "--octave-base"@ {
        Some("--octave-base requires o4c=<midi_note>"@)
    } else if name == "--diagnostics"@ {
        Some("--diagnostics requires a path"@)
    } else if name == "--config"@ {
        Some("--config requires a path"@)
    } else if name == "--emit-config-skeleton"@ {
        Some("--emit-config-skeleton requires a path"@)
    } else if name == "--manual-smf"@ {
        Some("--manual-smf requires on|off"@)
    } else if name == "--tone-map"@ {
        Some("--tone-map requires on|off"@)
    } else if name == "--psg-envelope-map"@ {
        Some("--psg-envelope-map requires on|off"@)
    } else if name == "--psg-noise-drum-map"@ {
        Some("--psg-noise-drum-map requires on|off"@)
    } else if name == "--register-map"@ {
        Some("--register-map requires off|report|on"@)
    } else if name == "--program-numbering"@ || name == "--channel-numbering"@ {
        Some("numbering option requires zero|one"@)
    } else {
        None
    }
}

fn missing_value_text(name: &str) -> (r: Option<&'static str>)
    ensures
        match r {
            Some(s) => missing_value(name@) == Some(s@),
            None => missing_value(name@) is None,
        },
{
    if same_text(name, "-o") || same_text(name, "--output") {
        Some("--output requires a path")
    } else if same_text(name, "--ppq") {
        Some("--ppq requires an integer")
    } else if same_text(name, "--loop-count") {
        Some("--loop-count requires an integer")
    } else if same_text(name, "--loop-marker-name") {
        Some("--loop-marker-name requires start:end")
    } else if same_text(name, "--envelope-mode") {
        Some("--envelope-mode requires a value")
    } else if same_text(name, "--tone-policy") {
        Some("--tone-policy requires a value")
    } else if same_text(name, "--rhythm-map") {
        Some("--rhythm-map requires a value")
    } else if same_text(name, "--channel-overflow") {
        Some("--channel-overflow requires a value")
    } else if same_text(name, "--encoding") {
        Some("--encoding requires a value")
    } else if same_text(name, "--octave-base") {
        Some("--octave-base requires o4c=<midi_note>")
    } else if same_text(name, "--diagnostics") {
        Some("--diagnostics requires a path")
    } else if same_text(name, "--config") {
        Some("--config requires a path")
    } else if same_text(name, "--emit-config-skeleton") {
        Some("--emit-config-skeleton requires a path")
    } else if same_text(name, "--manual-smf") {
        Some("--manual-smf requires on|off")
    } else if same_text(name, "--tone-map") {
        Some("--tone-map requires on|off")
    } else if same_text(name, "--psg-envelope-map") {
        Some("--psg-envelope-map requires on|off")
    } else if same_text(name, "--psg-noise-drum-map") {
        Some("--psg-noise-drum-map requires on|off")
    } else if same_text(name, "--register-map") {
        Some("--register-map requires off|report|on")
    } else if same_text(name, "--program-numbering") || same_text(name, "--channel-numbering") {
        Some("numbering option requires zero|one")
    } else {
        None
    }
}

/// A setting of how notes and tones are rendered.
pub open spec fn set_rendering(o: OptionsView, name: Seq<char>, value: Seq<char>) -> Result<
    OptionsView,
    Seq<char>,
> {
    if name == "--ppq"@ {
        match text::whole_number(value, 10, false, 0, u16::MAX as int) {
            Some(n) => Ok(OptionsView { ppq: n as u16, ..o }),
            None => Err("invalid --ppq value: "@ + value),
        }
    } else if name == "--loop-count"@ {
        match text::whole_number(value, 10, false, 0, u32::MAX as int) {
            Some(n) => Ok(OptionsView { loop_count: Some(n as u32), ..o }),
            None => Err("invalid --loop-count value: "@ + value),
        }
    } else if name == "--channel-overflow"@ {
        match ChannelOverflowPolicy::named(value) {
            Some(v) => Ok(OptionsView { channel_overflow: v, ..o }),
            None => Err("invalid channel overflow policy: "@ + value),
        }
    } else if name == "--loop-marker-name"@ {
        match loop_marker_names(value) {
            Ok((start, end)) => Ok(
                OptionsView { loop_marker_start: start, loop_marker_end: end, ..o },
            ),
            Err(e) => Err(e),
        }
    } else if name == "--envelope-mode"@ {
        match EnvelopeMode::named(value) {
            Some(v) => Ok(OptionsView { envelope_mode: v, ..o }),
            None => Err("invalid envelope mode: "@ + value),
        }
    } else if name == "--tone-policy"@ {
        match TonePolicy::named(value) {
            Some(v) => Ok(OptionsView { tone_policy: v, ..o }),
            None => Err("invalid tone policy: "@ + value),
        }
    } else if name == "--rhythm-map"@ {
        match RhythmMap::named(value) {
            Some(v) => Ok(OptionsView { rhythm_map: v, ..o }),
            None => Err("invalid rhythm map: "@ + value),
        }
    } else if name == "--encoding"@ {
        match EncodingChoice::named(value) {
            Some(v) => Ok(OptionsView { encoding: v, ..o }),
            None => Err("invalid encoding: "@ + value),
        }
    } else {
        match octave_base(value) {
            Ok(v) => Ok(OptionsView { octave_base: v, ..o }),
            Err(e) => Err(e),
        }
    }
}

/// A setting of the configuration that the command line can make.
#[derive(Clone, Copy, Debug, PartialEq, Eq, Structural)]
pub enum Switch {
    RegisterMap(RegisterMapPolicy),
    ProgramNumbering(Numbering),
    ChannelNumbering(Numbering),
    ManualSmf(bool),
    ToneMap(bool),
    PsgEnvelopeMap(bool),
    PsgNoiseDrumMap(bool),
}

/// The setting that an option makes.
pub open spec fn switch_of(name: Seq<char>, value: Seq<char>) -> Result<Switch, Seq<char>> {
    if name == "--register-map"@ {
        match RegisterMapPolicy::named(value) {
            Some(policy) => Ok(Switch::RegisterMap(policy)),
            None => Err("invalid --register-map value: "@ + value),
        }
    } else if name == "--program-numbering"@ || name == "--channel-numbering"@ {
        match Numbering::named(value) {
            Some(numbering) => if name == "--program-numbering"@ {
                Ok(Switch::ProgramNumbering(numbering))
            } else {
                Ok(Switch::ChannelNumbering(numbering))
            },
            None => Err("invalid numbering value: "@ + value),
        }
    } else {
        match on_off(value) {
            Err(e) => Err(e),
            Ok(on) => if name == "--manual-smf"@ {
                Ok(Switch::ManualSmf(on))
            } else if name == "--tone-map"@ {
                Ok(Switch::ToneMap(on))
            } else if name == "--psg-envelope-map"@ {
                Ok(Switch::PsgEnvelopeMap(on))
            } else {
                Ok(Switch::PsgNoiseDrumMap(on))
            },
        }
    }
}

pub open spec fn switch_view(r: Result<Switch, String>) -> Result<Switch, Seq<char>> {
    match r {
        Ok(v) => Ok(v),
        Err(e) => Err(e@),
    }
}

fn read_switch(name: &str, value: &str) -> (r: Result<Switch, String>)
    ensures
        switch_view(r) == switch_of(name@, value@),
{
    if same_text(name, "--register-map") {
        match RegisterMapPolicy::parse(value) {
            Some(policy) => Ok(Switch::RegisterMap(policy)),
            None => Err(join2("invalid --register-map value: ", value)),
        }
    } else if same_text(name, "--program-numbering") || same_text(name, "--channel-numbering") {
        match Numbering::parse(value) {
            Some(numbering) => {
                if same_text(name, "--program-numbering") {
                    Ok(Switch::ProgramNumbering(numbering))
                } else {
                    Ok(Switch::ChannelNumbering(numbering))
                }
            },
            None => Err(join2("invalid numbering value: ", value)),
        }
    } else {
        match parse_on_off(value) {
            Err(e) => Err(e),
            Ok(on) => {
                if same_text(name, "--manual-smf") {
                    Ok(Switch::ManualSmf(on))
                } else if same_text(name, "--tone-map") {
                    Ok(Switch::ToneMap(on))
                } else if same_text(name, "--psg-envelope-map") {
                    Ok(Switch::PsgEnvelopeMap(on))
                } else {
                    Ok(Switch::PsgNoiseDrumMap(on))
                }
            },
        }
    }
}

impl Overrides {
    /// With a setting among the options that a configuration could make, too.
    pub open spec fn noted(self, name: Seq<char>, o: OptionsView) -> Self {
        Overrides {
            ppq: if name == "--ppq"@ {
                Some(o.ppq)
            } else {
                self.ppq
            },
            channel_overflow: if name == "--channel-overflow"@ {
                Some(o.channel_overflow)
            } else {
                self.channel_overflow
            },
            ..self
        }
    }

    fn note(self, name: &str, o: &ConversionOptions) -> (r: Self)
        ensures
            r == self.noted(name@, o.deep_view()),
    {
        Overrides {
            ppq: if same_text(name, "--ppq") {
                Some(o.ppq)
            } else {
                self.ppq
            },
            channel_overflow: if same_text(name, "--channel-overflow") {
                Some(o.channel_overflow)
            } else {
                self.channel_overflow
            },
            ..self
        }
    }

    /// With a setting of the command line.
    pub open spec fn with(self, s: Switch) -> Self {
        match s {
            Switch::RegisterMap(v) => Overrides { register_map: Some(v), ..self },
            Switch::ProgramNumbering(v) => Overrides { program_numbering: Some(v), ..self },
            Switch::ChannelNumbering(v) => Overrides { channel_numbering: Some(v), ..self },
            Switch::ManualSmf(v) => Overrides { manual_smf: Some(v), ..self },
            Switch::ToneMap(v) => Overrides { tone_map: Some(v), ..self },
            Switch::PsgEnvelopeMap(v) => Overrides { psg_envelope_map: Some(v), ..self },
            Switch::PsgNoiseDrumMap(v) => Overrides { psg_noise_drum_map: Some(v), ..self },
        }
    }

    fn and(self, s: Switch) -> (r: Self)
        ensures
            r == self.with(s),
    {
        match s {
            Switch::RegisterMap(v) => Overrides { register_map: Some(v), ..self },
            Switch::ProgramNumbering(v) => Overrides { program_numbering: Some(v), ..self },
            Switch::ChannelNumbering(v) => Overrides { channel_numbering: Some(v), ..self },
            Switch::ManualSmf(v) => Overrides { manual_smf: Some(v), ..self },
            Switch::ToneMap(v) => Overrides { tone_map: Some(v), ..self },
            Switch::PsgEnvelopeMap(v) => Overrides { psg_envelope_map: Some(v), ..self },
            Switch::PsgNoiseDrumMap(v) => Overrides { psg_noise_drum_map: Some(v), ..self },
        }
    }
}

pub open spec fn or_else<T>(first: Option<T>, second: T) -> T {
    match first {
        Some(v) => v,
        None => second,
    }
}

/// The noise drum map, switched on, is also what noise becomes.
pub open spec fn noise_action(on: Option<bool>, action: PsgNoiseDefaultAction) -> PsgNoiseDefaultAction {
    if on == Some(true) {
        PsgNoiseDefaultAction::DrumMap
    } else {
        action
    }
}

/// A configuration below the settings of the command line.
pub open spec fn settled_map(m: SmfMapConfigView, v: Overrides) -> SmfMapConfigView {
    SmfMapConfigView {
        program_numbering: or_else(v.program_numbering, m.program_numbering),
        channel_numbering: or_else(v.channel_numbering, m.channel_numbering),
        manual_smf_enabled: or_else(v.manual_smf, m.manual_smf_enabled),
        tone_map_enabled: or_else(v.tone_map, m.tone_map_enabled),
        psg_envelope_map_enabled: or_else(v.psg_envelope_map, m.psg_envelope_map_enabled),
        psg_noise_drum_map_enabled: or_else(v.psg_noise_drum_map, m.psg_noise_drum_map_enabled),
        psg_noise_default_action: noise_action(v.psg_noise_drum_map, m.psg_noise_default_action),
        register_map_policy: or_else(v.register_map, m.register_map_policy),
        ..m
    }
}

fn pick<T: Copy>(first: Option<T>, second: T) -> (r: T)
    ensures
        r == or_else(first, second),
{
    match first {
        Some(v) => v,
        None => second,
    }
}

fn pick_action(on: Option<bool>, action: PsgNoiseDefaultAction) -> (r: PsgNoiseDefaultAction)
    ensures
        r == noise_action(on, action),
{
    if on == Some(true) {
        PsgNoiseDefaultAction::DrumMap
    } else {
        action
    }
}

#[verifier::rlimit(60)]
fn settle_map(m: &mut SmfMapConfig, v: Overrides)
    ensures
        final(m).deep_view() == settled_map(old(m).deep_view(), v),
{
    m.program_numbering = pick(v.program_numbering, m.program_numbering);
    m.channel_numbering = pick(v.channel_numbering, m.channel_numbering);
    m.manual_smf_enabled = pick(v.manual_smf, m.manual_smf_enabled);
    m.tone_map_enabled = pick(v.tone_map, m.tone_map_enabled);
    m.psg_envelope_map_enabled = pick(v.psg_envelope_map, m.psg_envelope_map_enabled);
    m.psg_noise_drum_map_enabled = pick(v.psg_noise_drum_map, m.psg_noise_drum_map_enabled);
    m.psg_noise_default_action = pick_action(v.psg_noise_drum_map, m.psg_noise_default_action);
    m.register_map_policy = pick(v.register_map, m.register_map_policy);
}

/// Whether an option sets how notes and tones are rendered.
pub open spec fn is_rendering(name: Seq<char>) -> bool {
    name == "--ppq"@ || name == "--loop-count"@ || name == "--channel-overflow"@ || name
        == "--loop-marker-name"@ || name == "--envelope-mode"@ || name == "--tone-policy"@ || name
        == "--rhythm-map"@ || name == "--encoding"@ || name == "--octave-base"@
}

/// An option with its value. The option is one that takes a value.
pub open spec fn set_option(cli: CliView, name: Seq<char>, value: Seq<char>) -> Result<
    CliView,
    Seq<char>,
> {
    if name == "-o"@ || name == "--output"@ {
        Ok(CliView { output: Some(value), ..cli })
    } else if name == "--diagnostics"@ {
        Ok(CliView { diagnostics: Some(value), ..cli })
    } else if name == "--config"@ {
        Ok(CliView { config_paths: cli.config_paths.push(value), ..cli })
    } else if name == "--emit-config-skeleton"@ {
        Ok(CliView { emit_config_skeleton: Some(value), ..cli })
    } else if is_rendering(name) {
        match set_rendering(cli.options, name, value) {
            Ok(options) => Ok(
                CliView { options, overrides: cli.overrides.noted(name, options), ..cli },
            ),
            Err(e) => Err(e),
        }
    } else {
        match switch_of(name, value) {
            Ok(s) => Ok(
                CliView {
                    options: OptionsView {
                        smfmap: settled_map(cli.options.smfmap, Overrides::nothing().with(s)),
                        ..cli.options
                    },
                    overrides: cli.overrides.with(s),
                    ..cli
                },
            ),
            Err(e) => Err(e),
        }
    }
}

fn names_rendering(name: &str) -> (r: bool)
    ensures
        r == is_rendering(name@),
{
    same_text(name, "--ppq") || same_text(name, "--loop-count") || same_text(
        name,
        "--channel-overflow",
    ) || same_text(name, "--loop-marker-name") || same_text(name, "--envelope-mode") || same_text(
        name,
        "--tone-policy",
    ) || same_text(name, "--rhythm-map") || same_text(name, "--encoding") || same_text(
        name,
        "--octave-base",
    )
}

fn apply_rendering(options: &mut ConversionOptions, name: &str, value: &str) -> (r: Result<
    (),
    String,
>)
    ensures
        views::outcome_is(
            set_rendering(old(options).deep_view(), name@, value@),
            final(options).deep_view(),
            r,
        ),
{
    if same_text(name, "--ppq") {
        let chars = chars_of(value);
        match read_whole(chars.as_slice(), 10, false, 0, 0xffff) {
            Some(n) => {
                options.ppq = n as u16;
                Ok(())
            },
            None => Err(join2("invalid --ppq value: ", value)),
        }
    } else if same_text(name, "--loop-count") {
        let chars = chars_of(value);
        match read_whole(chars.as_slice(), 10, false, 0, 0xffff_ffff) {
            Some(n) => {
                options.loop_count = Some(n as u32);
                Ok(())
            },
            None => Err(join2("invalid --loop-count value: ", value)),
        }
    } else if same_text(name, "--channel-overflow") {
        match ChannelOverflowPolicy::parse(value) {
            Ok(v) => {
                options.channel_overflow = v;
                Ok(())
            },
            Err(e) => Err(e),
        }
    } else if same_text(name, "--loop-marker-name") {
        match parse_loop_marker_name(value) {
            Ok((start, end)) => {
                options.loop_marker_start = start;
                options.loop_marker_end = end;
                Ok(())
            },
            Err(e) => Err(e),
        }
    } else if same_text(name, "--envelope-mode") {
        match EnvelopeMode::parse(value) {
            Ok(v) => {
                options.envelope_mode = v;
                Ok(())
            },
            Err(e) => Err(e),
        }
    } else if same_text(name, "--tone-policy") {
        match TonePolicy::parse(value) {
            Ok(v) => {
                options.tone_policy = v;
                Ok(())
            },
            Err(e) => Err(e),
        }
    } else if same_text(name, "--rhythm-map") {
        match RhythmMap::parse(value) {
            Ok(v) => {
                options.rhythm_map = v;
                Ok(())
            },
            Err(e) => Err(e),
        }
    } else if same_text(name, "--encoding") {
        match EncodingChoice::parse(value) {
            Ok(v) => {
                options.encoding = v;
                Ok(())
            },
            Err(e) => Err(e),
        }
    } else {
        match parse_octave_base(value) {
            Ok(v) => {
                options.octave_base = v;
                Ok(())
            },
            Err(e) => Err(e),
        }
    }
}

impl Cli {
    fn set_option(&mut self, name: &str, value: &str) -> (r: Result<(), String>)
        ensures
            views::outcome_is(
                set_option(old(self).deep_view(), name@, value@),
                final(self).deep_view(),
                r,
            ),
    {
        if same_text(name, "-o") || same_text(name, "--output") {
            self.output = Some(copy_text(value));
            Ok(())
        } else if same_text(name, "--diagnostics") {
            self.diagnostics = Some(copy_text(value));
            Ok(())
        } else if same_text(name, "--config") {
            push_viewed(&mut self.config_paths, copy_text(value));
            Ok(())
        } else if same_text(name, "--emit-config-skeleton") {
            self.emit_config_skeleton = Some(copy_text(value));
            Ok(())
        } else if names_rendering(name) {
            match apply_rendering(&mut self.options, name, value) {
                Ok(_) => {
                    self.overrides = self.overrides.note(name, &self.options);
                    Ok(())
                },
                Err(e) => Err(e),
            }
        } else {
            match read_switch(name, value) {
                Ok(s) => {
                    settle_map(&mut self.options.smfmap, Overrides::none().and(s));
                    self.overrides = self.overrides.and(s);
                    Ok(())
                },
                Err(e) => Err(e),
            }
        }
    }
}

// ---------------------------------------------------------------------------
// The whole line
// ---------------------------------------------------------------------------
/// A command line with nothing on it.
pub open spec fn empty_line(help: bool) -> CliView {
    CliView {
        input: Seq::empty(),
        output: None,
        diagnostics: None,
        config_paths: Seq::empty(),
        emit_config_skeleton: None,
        options: OptionsView::initial(),
        overrides: Overrides::nothing(),
        help,
    }
}

/// The arguments from place `i` on; `named` says whether an input was named.
pub open spec fn read_args(args: Seq<Seq<char>>, i: int, cli: CliView, named: bool) -> Result<
    CliView,
    Seq<char>,
>
    decreases args.len() - i,
{
    if i < 0 || i >= args.len() {
        if named {
            Ok(cli)
        } else {
            Err("missing input .mus path"@)
        }
    } else {
        let a = args[i];
        match missing_value(a) {
            Some(missing) => if i + 1 >= args.len() {
                Err(missing)
            } else {
                match set_option(cli, a, args[i + 1]) {
                    Ok(next) => read_args(args, i + 2, next, named),
                    Err(e) => Err(e),
                }
            },
            None => if a == "--strict"@ {
                read_args(
                    args,
                    i + 1,
                    CliView { options: OptionsView { strict: true, ..cli.options }, ..cli },
                    named,
                )
            } else if text::begins(a, '-') {
                Err("unknown option: "@ + a)
            } else if named {
                Err("unexpected positional argument: "@ + a)
            } else {
                read_args(args, i + 1, CliView { input: a, ..cli }, true)
            },
        }
    }
}

pub open spec fn asks_help(args: Seq<Seq<char>>) -> bool {
    args.contains("-h"@) || args.contains("--help"@)
}

/// What a command line asks for, or what is wrong with it.
pub open spec fn command_line(args: Seq<Seq<char>>) -> Result<CliView, Seq<char>> {
    if asks_help(args) {
        Ok(empty_line(true))
    } else {
        read_args(args, 0, empty_line(false), false)
    }
}

fn has_arg(args: &[String], name: &str) -> (r: bool)
    ensures
        r == views::all_views(args@).contains(name@),
{
    let ghost all = views::all_views(args@);
    let mut i: usize = 0;
    while i < args.len()
        invariant
            i <= args@.len(),
            all == views::all_views(args@),
            forall|k: int| 0 <= k < i ==> all[k] != name@,
        decreases args@.len() - i,
    {
        assert(all[i as int] == args@[i as int]@);
        if same_text(args[i].as_str(), name) {
            return true;
        }
        i += 1;
    }
    false
}

impl Cli {
    fn empty(help: bool) -> (r: Self)
        ensures
            r.deep_view() == empty_line(help),
    {
        let r = Cli {
            input: String::new(),
            output: None,
            diagnostics: None,
            config_paths: Vec::new(),
            emit_config_skeleton: None,
            options: ConversionOptions::default(),
            overrides: Overrides::none(),
            help,
        };
        assert(views::all_views(r.config_paths@) =~= Seq::empty());
        r
    }

    /// Reads a command line; the program's own name is not on it.
    pub fn parse(args: Vec<String>) -> (r: Result<Self, String>)
        ensures
            views::result_view(r) == command_line(views::all_views(args@)),
    {
        if has_arg(args.as_slice(), "-h") || has_arg(args.as_slice(), "--help") {
            return Ok(Cli::empty(true));
        }
        let ghost all = views::all_views(args@);
        let mut cli = Cli::empty(false);
        let mut named = false;
        let mut i: usize = 0;
        while i < args.len()
            invariant
                i <= args@.len(),
                all == views::all_views(args@),
                command_line(all) == read_args(all, i as int, cli.deep_view(), named),
            decreases args@.len() - i,
        {
            assert(all[i as int] == args@[i as int]@);
            let a = args[i].as_str();
            match missing_value_text(a) {
                Some(missing) => {
                    if i + 1 >= args.len() {
                        return Err(copy_text(missing));
                    }
                    assert(all[i + 1] == args@[i + 1]@);
                    match cli.set_option(a, args[i + 1].as_str()) {
                        Ok(_) => {},
                        Err(e) => {
                            return Err(e);
                        },
                    }
                    i += 2;
                },
                None => {
                    let chars = chars_of(a);
                    if same_text(a, "--strict") {
                        cli.options.strict = true;
                    } else if begins_with_char(chars.as_slice(), '-') {
                        return Err(join2("unknown option: ", a));
                    } else if named {
                        return Err(join2("unexpected positional argument: ", a));
                    } else {
                        cli.input = copy_text(a);
                        named = true;
                    }
                    i += 1;
                },
            }
        }
        if named {
            Ok(cli)
        } else {
            Err(copy_text("missing input .mus path"))
        }
    }
}

// ---------------------------------------------------------------------------
// Configurations
// ---------------------------------------------------------------------------
/// The settings once the configurations are read: those of the command line
/// stand above those of a configuration.
pub open spec fn settled(cli: CliView) -> CliView {
    let m = cli.options.smfmap;
    let v = cli.overrides;
    CliView {
        options: OptionsView {
            ppq: if v.ppq is None {
                or_else(m.smf_ppq, cli.options.ppq)
            } else {
                cli.options.ppq
            },
            channel_overflow: if v.channel_overflow is None {
                or_else(m.channel_overflow, cli.options.channel_overflow)
            } else {
                cli.options.channel_overflow
            },
            smfmap: settled_map(m, v),
            ..cli.options
        },
        ..cli
    }
}

impl Cli {
    /// Puts the settings of the command line above those of the configurations.
    pub fn settle(&mut self)
        ensures
            final(self).deep_view() == settled(old(self).deep_view()),
    {
        self.options.ppq = if self.overrides.ppq.is_none() {
            pick(self.options.smfmap.smf_ppq, self.options.ppq)
        } else {
            self.options.ppq
        };
        self.options.channel_overflow = if self.overrides.channel_overflow.is_none() {
            pick(self.options.smfmap.channel_overflow, self.options.channel_overflow)
        } else {
            self.options.channel_overflow
        };
        settle_map(&mut self.options.smfmap, self.overrides);
    }
}

/// The first `n` paths, each once.
pub open spec fn distinct(paths: Seq<Seq<char>>, n: int) -> Seq<Seq<char>>
    decreases n,
{
    if n <= 0 || n > paths.len() {
        Seq::empty()
    } else {
        let before = distinct(paths, n - 1);
        if before.contains(paths[n - 1]) {
            before
        } else {
            before.push(paths[n - 1])
        }
    }
}

/// The configurations to read, in order: those named on the command line, or
/// where none is named those that were found.
pub open spec fn chosen_configs(found: Seq<Seq<char>>, explicit: Seq<Seq<char>>) -> Seq<Seq<char>> {
    if explicit.len() == 0 {
        distinct(found, found.len() as int)
    } else {
        distinct(explicit, explicit.len() as int)
    }
}

fn distinct_paths(paths: &[String]) -> (r: Vec<String>)
    ensures
        views::all_views(r@) == distinct(views::all_views(paths@), paths@.len() as int),
{
    let ghost all = views::all_views(paths@);
    let mut out: Vec<String> = Vec::new();
    assert(views::all_views(out@) =~= Seq::empty());
    let mut i: usize = 0;
    while i < paths.len()
        invariant
            i <= paths@.len(),
            all == views::all_views(paths@),
            views::all_views(out@) == distinct(all, i as int),
        decreases paths@.len() - i,
    {
        assert(all[i as int] == paths@[i as int]@);
        if !has_arg(out.as_slice(), paths[i].as_str()) {
            push_viewed(&mut out, copy_text(paths[i].as_str()));
        }
        i += 1;
    }
    out
}

/// The configurations to read; `found` are the ones that exist beside the input.
pub fn discover_smfmap_configs(found: &[String], explicit: &[String]) -> (r: Vec<String>)
    ensures
        views::all_views(r@) == chosen_configs(views::all_views(found@), views::all_views(explicit@)),
{
    if explicit.len() == 0 {
        distinct_paths(found)
    } else {
        distinct_paths(explicit)
    }
}

/// A setting of the command line stands, whatever a configuration says.
pub proof fn command_line_stands(m: SmfMapConfigView, v: Overrides)
    ensures
        ({
            let r = settled_map(m, v);
            &&& v.program_numbering matches Some(x) ==> r.program_numbering == x
            &&& v.channel_numbering matches Some(x) ==> r.channel_numbering == x
            &&& v.manual_smf matches Some(x) ==> r.manual_smf_enabled == x
            &&& v.tone_map matches Some(x) ==> r.tone_map_enabled == x
            &&& v.psg_envelope_map matches Some(x) ==> r.psg_envelope_map_enabled == x
            &&& v.psg_noise_drum_map matches Some(x) ==> r.psg_noise_drum_map_enabled == x
            &&& v.register_map matches Some(x) ==> r.register_map_policy == x
        }),
{
}

/// What the command line does not set, the configuration does.
pub proof fn configuration_counts_otherwise(m: SmfMapConfigView)
    ensures
        settled_map(m, Overrides::nothing()) == m,
{
    assert(settled_map(m, Overrides::nothing()) =~= m);
}

} // verus!
