use mgs2smf::cli::{
    discover_smfmap_configs, parse_loop_marker_name, parse_octave_base, parse_on_off, Cli,
};
use mgs2smf::ir::{
    ChannelOverflowPolicy, EncodingChoice, EnvelopeMode, RhythmMap, TonePolicy,
};
use mgs2smf::smfmap::{Numbering, PsgNoiseDefaultAction, RegisterMapPolicy};

fn args(list: &[&str]) -> Vec<String> {
    list.iter().map(|a| a.to_string()).collect()
}

fn parse(list: &[&str]) -> Cli {
    Cli::parse(args(list)).unwrap()
}

fn refused(list: &[&str]) -> String {
    Cli::parse(args(list)).unwrap_err()
}

#[test]
fn every_option_is_read() {
    let cli = parse(&[
        "song.mus",
        "-o",
        "song.mid",
        "--ppq",
        "480",
        "--loop-count",
        "3",
        "--loop-marker-name",
        "A:B",
        "--envelope-mode",
        "velocity",
        "--tone-policy",
        "gm_program",
        "--rhythm-map",
        "off",
        "--channel-overflow",
        "multi_port",
        "--encoding",
        "sjis",
        "--octave-base",
        "o4c=48",
        "--diagnostics",
        "song.json",
        "--config",
        "a.yaml",
        "--config",
        "b.yaml",
        "--emit-config-skeleton",
        "skeleton.yaml",
        "--strict",
    ]);
    assert_eq!(cli.input, "song.mus");
    assert_eq!(cli.output.as_deref(), Some("song.mid"));
    assert_eq!(cli.diagnostics.as_deref(), Some("song.json"));
    assert_eq!(cli.config_paths, args(&["a.yaml", "b.yaml"]));
    assert_eq!(cli.emit_config_skeleton.as_deref(), Some("skeleton.yaml"));
    assert_eq!(cli.options.ppq, 480);
    assert_eq!(cli.overrides.ppq, Some(480));
    assert_eq!(cli.options.loop_count, Some(3));
    assert_eq!(cli.options.loop_marker_start, "A");
    assert_eq!(cli.options.loop_marker_end, "B");
    assert_eq!(cli.options.envelope_mode, EnvelopeMode::NoteVelocity);
    assert_eq!(cli.options.tone_policy, TonePolicy::GmProgram);
    assert_eq!(cli.options.rhythm_map, RhythmMap::Off);
    assert_eq!(cli.options.channel_overflow, ChannelOverflowPolicy::MultiPort);
    assert_eq!(cli.options.encoding, EncodingChoice::ShiftJis);
    assert_eq!(cli.options.octave_base, 48);
    assert!(cli.options.strict);
    assert!(!cli.help);
}

#[test]
fn help_wins_over_everything() {
    assert!(parse(&["--nonsense", "-h"]).help);
    assert!(parse(&["--help"]).help);
}

#[test]
fn switches_are_read() {
    let cli = parse(&[
        "song.mus",
        "--manual-smf",
        "off",
        "--tone-map",
        "no",
        "--psg-envelope-map",
        "false",
        "--psg-noise-drum-map",
        "on",
        "--register-map",
        "on",
        "--program-numbering",
        "one",
        "--channel-numbering",
        "zero",
    ]);
    assert!(!cli.options.smfmap.manual_smf_enabled);
    assert!(!cli.options.smfmap.tone_map_enabled);
    assert!(!cli.options.smfmap.psg_envelope_map_enabled);
    assert!(cli.options.smfmap.psg_noise_drum_map_enabled);
    assert_eq!(
        cli.options.smfmap.psg_noise_default_action,
        PsgNoiseDefaultAction::DrumMap
    );
    assert_eq!(cli.options.smfmap.register_map_policy, RegisterMapPolicy::ApplyRules);
    assert_eq!(cli.options.smfmap.program_numbering, Numbering::OneBased);
    assert_eq!(cli.options.smfmap.channel_numbering, Numbering::ZeroBased);
}

#[test]
fn missing_values_are_named() {
    for (option, message) in [
        ("-o", "--output requires a path"),
        ("--output", "--output requires a path"),
        ("--ppq", "--ppq requires an integer"),
        ("--loop-count", "--loop-count requires an integer"),
        ("--loop-marker-name", "--loop-marker-name requires start:end"),
        ("--envelope-mode", "--envelope-mode requires a value"),
        ("--tone-policy", "--tone-policy requires a value"),
        ("--rhythm-map", "--rhythm-map requires a value"),
        ("--channel-overflow", "--channel-overflow requires a value"),
        ("--encoding", "--encoding requires a value"),
        ("--octave-base", "--octave-base requires o4c=<midi_note>"),
        ("--diagnostics", "--diagnostics requires a path"),
        ("--config", "--config requires a path"),
        ("--emit-config-skeleton", "--emit-config-skeleton requires a path"),
        ("--manual-smf", "--manual-smf requires on|off"),
        ("--tone-map", "--tone-map requires on|off"),
        ("--psg-envelope-map", "--psg-envelope-map requires on|off"),
        ("--psg-noise-drum-map", "--psg-noise-drum-map requires on|off"),
        ("--register-map", "--register-map requires off|report|on"),
        ("--program-numbering", "numbering option requires zero|one"),
        ("--channel-numbering", "numbering option requires zero|one"),
    ] {
        assert_eq!(refused(&["song.mus", option]), message);
    }
}

#[test]
fn bad_values_are_refused() {
    for (option, value, message) in [
        ("--ppq", "65536", "invalid --ppq value: 65536"),
        ("--ppq", "-1", "invalid --ppq value: -1"),
        ("--loop-count", "x", "invalid --loop-count value: x"),
        ("--loop-marker-name", "start", "--loop-marker-name must be formatted as start:end"),
        ("--loop-marker-name", ":end", "--loop-marker-name start and end must be non-empty"),
        ("--envelope-mode", "loud", "invalid envelope mode: loud"),
        ("--tone-policy", "loud", "invalid tone policy: loud"),
        ("--rhythm-map", "loud", "invalid rhythm map: loud"),
        ("--channel-overflow", "loud", "invalid channel overflow policy: loud"),
        ("--encoding", "ebcdic", "invalid encoding: ebcdic"),
        ("--octave-base", "o4c=x", "invalid --octave-base value: o4c=x"),
        ("--octave-base", "128", "--octave-base must be in MIDI note range 0..127: 128"),
        ("--manual-smf", "maybe", "expected on|off, got maybe"),
        ("--register-map", "maybe", "invalid --register-map value: maybe"),
        ("--program-numbering", "two", "invalid numbering value: two"),
    ] {
        assert_eq!(refused(&["song.mus", option, value]), message);
    }
    assert_eq!(refused(&["--loud"]), "unknown option: --loud");
    assert_eq!(refused(&["a.mus", "b.mus"]), "unexpected positional argument: b.mus");
    assert_eq!(refused(&["-o", "a.mid"]), "missing input .mus path");
}

#[test]
fn small_values_are_read() {
    assert_eq!(parse_on_off("yes"), Ok(true));
    assert_eq!(parse_on_off("no"), Ok(false));
    assert_eq!(parse_on_off("On"), Err("expected on|off, got On".to_string()));
    assert_eq!(parse_octave_base("72"), Ok(72));
    assert_eq!(parse_octave_base("o4c=0"), Ok(0));
    assert_eq!(
        parse_octave_base("-1"),
        Err("--octave-base must be in MIDI note range 0..127: -1".to_string())
    );
    assert_eq!(
        parse_loop_marker_name("a:b:c"),
        Ok(("a".to_string(), "b:c".to_string()))
    );
}

#[test]
fn explicit_configurations_replace_found_ones() {
    let found = args(&[".smfmap.yaml", "song.smfmap.yaml", ".smfmap.yaml"]);
    assert_eq!(
        discover_smfmap_configs(&found, &[]),
        args(&[".smfmap.yaml", "song.smfmap.yaml"])
    );
    assert_eq!(
        discover_smfmap_configs(&found, &args(&["b.yaml", "a.yaml", "b.yaml"])),
        args(&["b.yaml", "a.yaml"])
    );
}

#[test]
fn the_command_line_counts_over_configurations() {
    let mut cli = parse(&["song.mus", "--ppq", "960", "--tone-map", "off"]);
    cli.options
        .smfmap
        .merge_yaml_str(
            "smf:\n  ppq: 480\n  channel_allocation: { overflow_policy: shared }\n  \
             program_numbering: one\ntone_map:\n  enabled: true\n",
        )
        .unwrap();
    cli.settle();
    assert_eq!(cli.options.ppq, 960);
    assert_eq!(cli.options.channel_overflow, ChannelOverflowPolicy::Shared);
    assert_eq!(cli.options.smfmap.program_numbering, Numbering::OneBased);
    assert!(!cli.options.smfmap.tone_map_enabled);

    let mut other = parse(&["song.mus", "--channel-overflow", "error"]);
    other
        .options
        .smfmap
        .merge_yaml_str("smf:\n  ppq: 480\n  channel_allocation: { overflow_policy: shared }\n")
        .unwrap();
    other.settle();
    assert_eq!(other.options.ppq, 480);
    assert_eq!(other.options.channel_overflow, ChannelOverflowPolicy::Error);
}
