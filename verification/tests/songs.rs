use mgs2smf::ir::{ConversionOptions, ECommand, IrEvent, RhythmMap, SourceFamily, TrackKind};
use mgs2smf::parser::parse_source;
use mgs2smf::render::{RenderedEvent, RenderedEventKind, collect_midi_events};

fn parse_and_render(input: &str) -> Vec<RenderedEvent> {
    let opts = ConversionOptions::default();
    let mut song = parse_source(input, &opts).unwrap();
    collect_midi_events(&mut song, &opts).unwrap()
}

#[test]
fn tempo_and_cdef_become_four_quarter_notes() {
    let events = parse_and_render("#tempo 120\n1 cdef\n");
    let starts: Vec<u64> = events
        .iter()
        .filter_map(|event| match event.kind {
            RenderedEventKind::NoteOn { note, .. } => Some((event.abs_tick, note)),
            _ => None,
        })
        .map(|(tick, _)| tick)
        .collect();
    assert_eq!(starts, vec![0, 3600, 7200, 10800]);

    let offs: Vec<u64> = events
        .iter()
        .filter_map(|event| match event.kind {
            RenderedEventKind::NoteOff { .. } => Some(event.abs_tick),
            _ => None,
        })
        .collect();
    assert_eq!(offs[0], 3600);
}

#[test]
fn smf_auxiliary_meta_events_are_emitted() {
    let opts = ConversionOptions::default();
    let mut song = parse_source("#title \"aux meta\"\n1 c\n", &opts).unwrap();
    song.diagnostics.input_file = Some("tests/compat/simple_scale.mus".to_string());
    let events = collect_midi_events(&mut song, &opts).unwrap();

    assert!(events.iter().any(|event| {
        event.track_index == 0
            && event.abs_tick == 0
            && matches!(
                event.kind,
                RenderedEventKind::TimeSignature {
                    numerator: 4,
                    denominator_power: 2,
                    clocks_per_metronome: 24,
                    thirty_seconds_per_quarter: 8,
                }
            )
    }));
    assert!(events.iter().any(|event| {
        event.track_index == 0
            && event.abs_tick == 0
            && matches!(
                event.kind,
                RenderedEventKind::KeySignature {
                    sharps_flats: 0,
                    minor: false,
                }
            )
    }));
    assert!(events.iter().any(|event| {
        matches!(
            &event.kind,
            RenderedEventKind::Text(text) if text == "Generated by mgs2smf"
        )
    }));
    assert!(events.iter().any(|event| {
        matches!(
            &event.kind,
            RenderedEventKind::Text(text)
                if text == "Source MUS: tests/compat/simple_scale.mus"
        )
    }));
}

#[test]
fn percent_length_48_is_one_quarter() {
    let events = parse_and_render("1 c%48\n");
    let off = events
        .iter()
        .find(|event| matches!(event.kind, RenderedEventKind::NoteOff { .. }))
        .unwrap();
    assert_eq!(off.abs_tick, 3600);
}

#[test]
fn rest_percent_48_creates_gap() {
    let events = parse_and_render("1 c%48 r%48 d%48\n");
    let starts: Vec<u64> = events
        .iter()
        .filter_map(|event| match event.kind {
            RenderedEventKind::NoteOn { .. } => Some(event.abs_tick),
            _ => None,
        })
        .collect();
    assert_eq!(starts, vec![0, 7200]);
}

#[test]
fn e_envelope_generates_cc11() {
    let events = parse_and_render("@e0 = {1,0,f}\n1 @e0 c4\n");
    assert!(events.iter().any(|event| {
        event.abs_tick == 0
            && matches!(
                event.kind,
                RenderedEventKind::ControlChange {
                    controller: 11,
                    value: 127,
                    ..
                }
            )
    }));
}

#[test]
fn e_envelope_count_timing_follows_tempo_map() {
    let events = parse_and_render("#tempo 120\n@e0 = {1,0,f:31,8}\n1 @e0 c1\n2 r%48 t60\n");
    let cc11s: Vec<(u64, u8)> = events
        .iter()
        .filter_map(|event| match event.kind {
            RenderedEventKind::ControlChange {
                controller: 11,
                value,
                ..
            } => Some((event.abs_tick, value)),
            _ => None,
        })
        .collect();
    assert!(cc11s.contains(&(0, 127)));
    assert!(cc11s.contains(&(3660, 68)));
    assert!(!cc11s.contains(&(3720, 68)));
}

#[test]
fn r_envelope_adsr_generates_cc11_curve() {
    let events = parse_and_render("@r0 = {0,0,0,128,64,128,32,0}\n1 @r0 c4\n");
    let cc11s: Vec<(u64, u8)> = events
        .iter()
        .filter_map(|event| match event.kind {
            RenderedEventKind::ControlChange {
                controller: 11,
                value,
                ..
            } => Some((event.abs_tick, value)),
            _ => None,
        })
        .collect();
    assert!(cc11s.contains(&(0, 0)));
    assert!(cc11s.contains(&(120, 64)));
    assert!(cc11s.contains(&(240, 127)));
    assert!(cc11s.contains(&(480, 95)));
}

#[test]
fn split_velocity_splits_note_at_envelope_changes() {
    let mut opts = ConversionOptions::default();
    opts.envelope_mode = mgs2smf::ir::EnvelopeMode::SplitVelocity;
    let mut song = parse_source("@e0 = {1,0,f:1,8:1,4:1}\n1 v15 @e0 c4\n", &opts).unwrap();
    let events = collect_midi_events(&mut song, &opts).unwrap();

    let note_ons: Vec<(u64, u8)> = events
        .iter()
        .filter_map(|event| match event.kind {
            RenderedEventKind::NoteOn { velocity, .. } => Some((event.abs_tick, velocity)),
            _ => None,
        })
        .collect();
    let note_offs: Vec<u64> = events
        .iter()
        .filter_map(|event| match event.kind {
            RenderedEventKind::NoteOff { .. } => Some(event.abs_tick),
            _ => None,
        })
        .collect();

    assert_eq!(note_ons, vec![(0, 127), (120, 68), (240, 34)]);
    assert_eq!(note_offs, vec![120, 240, 3600]);
    assert!(!events.iter().any(|event| {
        matches!(
            event.kind,
            RenderedEventKind::ControlChange { controller: 11, .. }
        )
    }));
}

#[test]
fn e_envelope_tone_change_is_preserved() {
    let opts = ConversionOptions::default();
    let song = parse_source("@e0 = {1,0,@10,f}\n1 @e0 c\n", &opts).unwrap();
    let commands = &song.envelopes.e.get(&0).unwrap().commands;
    assert!(commands.contains(&ECommand::ToneChange(10)));
    assert!(
        !song
            .diagnostics
            .unsupported_commands
            .iter()
            .any(|item| item.command == "@e:@10")
    );
}

#[test]
fn e_envelope_non_smf_commands_are_preserved_with_warnings() {
    let opts = ConversionOptions::default();
    let song = parse_source("@e0 = {1,0,n3,/2,*1,y7,9,\\-2,f}\n1 @e0 c\n", &opts).unwrap();
    let commands = &song.envelopes.e.get(&0).unwrap().commands;
    assert!(commands.contains(&ECommand::Noise(3)));
    assert!(commands.contains(&ECommand::ModeChange {
        command: '/',
        value: 2
    }));
    assert!(commands.contains(&ECommand::ModeChange {
        command: '*',
        value: 1
    }));
    assert!(commands.contains(&ECommand::RegisterWrite {
        register: 7,
        data: 9
    }));
    assert!(commands.contains(&ECommand::FrequencyOffset(-2)));

    let unsupported: Vec<&str> = song
        .diagnostics
        .unsupported_commands
        .iter()
        .map(|item| item.command.as_str())
        .collect();
    assert!(unsupported.contains(&"@e:n3"));
    assert!(unsupported.contains(&"@e:/2"));
    assert!(unsupported.contains(&"@e:*1"));
    assert!(unsupported.contains(&"@e:y7,9"));
    assert!(unsupported.contains(&"@e:\\-2"));
}

#[test]
fn infinite_loop_generates_markers() {
    let events = parse_and_render("1 [0 c]\n");
    assert!(events.iter().any(|event| {
        matches!(
            &event.kind,
            RenderedEventKind::Marker { text, .. } if text == "loopStart"
        )
    }));
    assert!(events.iter().any(|event| {
        matches!(
            &event.kind,
            RenderedEventKind::Marker { text, .. } if text == "loopEnd"
        )
    }));
}

#[test]
fn multiline_infinite_loop_generates_markers() {
    let events = parse_and_render("1 [0\n1 c4\n1 ]\n");
    assert!(events.iter().any(|event| {
        matches!(
            &event.kind,
            RenderedEventKind::Marker { text, .. } if text == "loopStart"
        )
    }));
    assert!(events.iter().any(|event| {
        matches!(
            &event.kind,
            RenderedEventKind::Marker { text, .. } if text == "loopEnd"
        )
    }));
    let note_ons = events
        .iter()
        .filter(|event| matches!(event.kind, RenderedEventKind::NoteOn { note: 60, .. }))
        .count();
    assert_eq!(note_ons, 1);
}

#[test]
fn earlier_infinite_loop_extends_to_common_default_horizon() {
    let events = parse_and_render("1 r1 [0 c4]\n2 r1r1 [0 d4]\n");
    let c_starts: Vec<u64> = events
        .iter()
        .filter_map(|event| match event.kind {
            RenderedEventKind::NoteOn { note: 60, .. } => Some(event.abs_tick),
            _ => None,
        })
        .collect();
    let d_starts: Vec<u64> = events
        .iter()
        .filter_map(|event| match event.kind {
            RenderedEventKind::NoteOn { note: 62, .. } => Some(event.abs_tick),
            _ => None,
        })
        .collect();
    assert_eq!(c_starts, vec![14400, 18000, 21600, 25200, 28800]);
    assert_eq!(d_starts, vec![28800]);
}

#[test]
fn explicit_loop_count_extends_to_common_horizon() {
    let mut opts = ConversionOptions::default();
    opts.loop_count = Some(2);
    let mut song = parse_source("1 r1 [0 c4]\n2 r1r1 [0 d4]\n", &opts).unwrap();
    let events = collect_midi_events(&mut song, &opts).unwrap();
    let c_starts: Vec<u64> = events
        .iter()
        .filter_map(|event| match event.kind {
            RenderedEventKind::NoteOn { note: 60, .. } => Some(event.abs_tick),
            _ => None,
        })
        .collect();
    assert_eq!(c_starts, vec![14400, 18000, 21600, 25200, 28800, 32400]);
}

#[test]
fn msxplay_header_defaults_to_two_global_loops() {
    let events = parse_and_render(";[gain=1.0]\n1 r1 [0 c4]\n2 r1r1 [0 d4]\n");
    let c_starts: Vec<u64> = events
        .iter()
        .filter_map(|event| match event.kind {
            RenderedEventKind::NoteOn { note: 60, .. } => Some(event.abs_tick),
            _ => None,
        })
        .collect();
    assert_eq!(c_starts, vec![14400, 18000, 21600, 25200, 28800, 32400]);
}

#[test]
fn multiline_finite_loop_repeats_body() {
    let events = parse_and_render("1 [2\n1 c4\n1 ]\n");
    let starts: Vec<u64> = events
        .iter()
        .filter_map(|event| match event.kind {
            RenderedEventKind::NoteOn { note: 60, .. } => Some(event.abs_tick),
            _ => None,
        })
        .collect();
    assert_eq!(starts, vec![0, 3600]);
}

#[test]
fn loop_alternative_exits_on_final_iteration() {
    let events = parse_and_render("1 [3 c|d] e\n");
    let starts: Vec<(u64, u8)> = events
        .iter()
        .filter_map(|event| match event.kind {
            RenderedEventKind::NoteOn { note, .. } => Some((event.abs_tick, note)),
            _ => None,
        })
        .collect();
    assert_eq!(
        starts,
        vec![
            (0, 60),
            (3600, 62),
            (7200, 60),
            (10800, 62),
            (14400, 60),
            (18000, 64),
        ]
    );
}

#[test]
fn custom_loop_marker_names_are_rendered() {
    let mut opts = ConversionOptions::default();
    opts.loop_marker_start = "A".to_string();
    opts.loop_marker_end = "B".to_string();
    let mut song = parse_source("1 [0 c]\n", &opts).unwrap();
    let events = collect_midi_events(&mut song, &opts).unwrap();
    assert!(events.iter().any(|event| {
        matches!(
            &event.kind,
            RenderedEventKind::Marker { text, .. } if text == "A"
        )
    }));
    assert!(events.iter().any(|event| {
        matches!(
            &event.kind,
            RenderedEventKind::Marker { text, .. } if text == "B"
        )
    }));
}

#[test]
fn unsupported_tones_become_warnings() {
    let opts = ConversionOptions::default();
    let song = parse_source("@s0 = {0}\n@v0 = {0}\n@#2 = 3\n", &opts).unwrap();
    let commands: Vec<&str> = song
        .diagnostics
        .unsupported_commands
        .iter()
        .map(|item| item.command.as_str())
        .collect();
    assert_eq!(commands, vec!["@s", "@v", "@#"]);
    let ignored: Vec<&str> = song
        .diagnostics
        .ignored_tone_definitions
        .iter()
        .map(|item| item.command.as_str())
        .collect();
    assert_eq!(ignored, vec!["@s", "@v", "@#"]);
}

#[test]
fn unsupported_mml_commands_are_diagnosed_by_policy() {
    let opts = ConversionOptions::default();
    let song = parse_source(
        r"1 m1 s2 n3 /4 \-5 p6 h7 ho hf hi _c4 y7,9 so sf ko kf $ @p1 @l2 @\3 @f4 @o5 c
",
        &opts,
    )
    .unwrap();
    let unsupported: Vec<(&str, &str)> = song
        .diagnostics
        .unsupported_commands
        .iter()
        .map(|item| (item.command.as_str(), item.policy.as_str()))
        .collect();
    let commands: Vec<&str> = unsupported.iter().map(|(command, _)| *command).collect();
    assert_eq!(
        commands,
        vec![
            "m1", "s2", "n3", "/4", "\\-5", "p6", "h7", "ho", "hf", "hi", "_c4", "so", "sf",
            "ko", "kf", "$", "@p1", "@l2", "@\\3", "@f4", "@o5"
        ]
    );

    for (command, policy_fragment) in [
        ("m1", "PSG hard envelope"),
        ("s2", "PSG hard envelope"),
        ("n3", "PSG noise"),
        ("/4", "PSG mode"),
        ("\\-5", "detune"),
        ("p6", "pitch down"),
        ("h7", "LFO"),
        ("ho", "LFO"),
        ("hf", "LFO"),
        ("hi", "LFO"),
        ("_c4", "pitch glide"),
        ("so", "FM sustain"),
        ("sf", "FM sustain"),
        ("ko", "keyoff"),
        ("kf", "keyoff"),
        ("$", "debug"),
        ("@p1", "LFO"),
        ("@l2", "FM total level"),
        ("@\\3", "fine detune"),
        ("@f4", "fade"),
        ("@o5", "output/control"),
    ] {
        assert!(
            unsupported.iter().any(|(diagnosed, policy)| {
                *diagnosed == command && policy.contains(policy_fragment)
            }),
            "missing policy fragment {policy_fragment:?} for {command:?}"
        );
    }

    let note_count = song.tracks[0]
        .events
        .iter()
        .filter(|event| matches!(event, IrEvent::Note { .. }))
        .count();
    assert_eq!(note_count, 1);
    assert!(song.tracks[0].events.iter().any(|event| {
        matches!(
            event,
            IrEvent::RegisterWrite {
                register: 7,
                data: 9,
                ..
            }
        )
    }));
    assert!(song.diagnostics.parse_warnings.is_empty());
}

#[test]
fn tone_policy_text_meta_preserves_ignored_tone_definitions() {
    let mut opts = ConversionOptions::default();
    opts.tone_policy = mgs2smf::ir::TonePolicy::TextMeta;
    let mut song = parse_source("@s0 = { 0, 1 }\n@v1 = { 2 }\n@#2 = 3\n1 c\n", &opts).unwrap();
    let events = collect_midi_events(&mut song, &opts).unwrap();
    let text: Vec<&str> = events
        .iter()
        .filter_map(|event| match &event.kind {
            RenderedEventKind::Text(text) => Some(text.as_str()),
            _ => None,
        })
        .collect();
    assert!(text.iter().any(|item| item.contains("@s0 = { 0, 1 }")));
    assert!(text.iter().any(|item| item.contains("@v1 = { 2 }")));
    assert!(text.iter().any(|item| item.contains("@#2 = 3")));
}

#[test]
fn at_number_is_tone_designation_on_scc_notes() {
    let opts = ConversionOptions::default();
    let song = parse_source("4 @10 c d @2 e\n", &opts).unwrap();
    let tones: Vec<Option<u8>> = song.tracks[0]
        .events
        .iter()
        .filter_map(|event| match event {
            IrEvent::Note { tone, .. } => Some(*tone),
            _ => None,
        })
        .collect();
    assert_eq!(tones, vec![Some(10), Some(10), Some(2)]);
}

#[test]
fn psg_at_number_selects_envelope_and_never_program_change() {
    let opts = ConversionOptions::default();
    let mut song = parse_source("@e1 = {1,0,f}\n1 @1 c4\n", &opts).unwrap();
    let events = collect_midi_events(&mut song, &opts).unwrap();
    assert!(events.iter().any(|event| {
        event.abs_tick == 0
            && matches!(
                event.kind,
                RenderedEventKind::ControlChange {
                    controller: 11,
                    value: 127,
                    ..
                }
            )
    }));
    assert!(
        !events
            .iter()
            .any(|event| { matches!(event.kind, RenderedEventKind::ProgramChange { .. }) })
    );
}

#[test]
fn opll_at_number_renders_default_tone_map_program() {
    let opts = ConversionOptions::default();
    let mut song = parse_source("9 @10 c\n", &opts).unwrap();
    let events = collect_midi_events(&mut song, &opts).unwrap();
    assert!(events.iter().any(|event| {
        event.abs_tick == 0
            && matches!(
                event.kind,
                RenderedEventKind::ProgramChange {
                    channel: 0,
                    program: 6
                }
            )
    }));
}

#[test]
fn manual_smf_pc_is_before_next_note() {
    let opts = ConversionOptions::default();
    let mut song = parse_source("9 ;@smf pc 80\n9 c4\n", &opts).unwrap();
    let events = collect_midi_events(&mut song, &opts).unwrap();
    let pc_index = events
        .iter()
        .position(|event| {
            event.abs_tick == 0
                && matches!(
                    event.kind,
                    RenderedEventKind::ProgramChange { program: 80, .. }
                )
        })
        .unwrap();
    let note_index = events
        .iter()
        .position(|event| {
            event.abs_tick == 0 && matches!(event.kind, RenderedEventKind::NoteOn { .. })
        })
        .unwrap();
    assert!(pc_index < note_index);
}

#[test]
fn manual_smf_channel_target_uses_explicit_channel() {
    let mut opts = ConversionOptions::default();
    opts.smfmap.channel_numbering = mgs2smf::smfmap::Numbering::OneBased;
    let mut song = parse_source(";@smf channel=3 pc 80\n1 c4\n", &opts).unwrap();
    let events = collect_midi_events(&mut song, &opts).unwrap();
    assert!(events.iter().any(|event| {
        event.track_index == 0
            && matches!(
                event.kind,
                RenderedEventKind::ProgramChange {
                    channel: 2,
                    program: 80
                }
            )
    }));
}

#[test]
fn manual_smf_macro_expands_from_yaml() {
    let mut opts = ConversionOptions::default();
    opts.smfmap
        .merge_yaml_str(
            r#"
smf_macros:
  bright:
    events:
      - pc: { program: 80 }
      - cc: { controller: 74, value: 105 }
"#,
        )
        .unwrap();
    let mut song = parse_source("9 ;@smf macro bright\n9 c4\n", &opts).unwrap();
    let events = collect_midi_events(&mut song, &opts).unwrap();
    assert!(events.iter().any(|event| {
        matches!(
            event.kind,
            RenderedEventKind::ProgramChange { program: 80, .. }
        )
    }));
    assert!(events.iter().any(|event| {
        matches!(
            event.kind,
            RenderedEventKind::ControlChange {
                controller: 74,
                value: 105,
                ..
            }
        )
    }));
}

#[test]
fn one_based_program_numbering_normalizes_yaml_and_manual_pc() {
    let mut opts = ConversionOptions::default();
    opts.smfmap
        .merge_yaml_str(
            r#"
smf:
  program_numbering: one_based
tone_map:
  scc:
    tones:
      "1":
        events:
          - pc: { program: 82 }
"#,
        )
        .unwrap();
    let mut song = parse_source("4 @1 ;@smf pc 81 c4\n", &opts).unwrap();
    let events = collect_midi_events(&mut song, &opts).unwrap();
    assert!(events.iter().any(|event| {
        matches!(
            event.kind,
            RenderedEventKind::ProgramChange { program: 81, .. }
        )
    }));
    assert!(events.iter().any(|event| {
        matches!(
            event.kind,
            RenderedEventKind::ProgramChange { program: 80, .. }
        )
    }));
}

#[test]
fn scc_tone_map_from_yaml_emits_program_change() {
    let mut opts = ConversionOptions::default();
    opts.smfmap
        .merge_yaml_str(
            r#"
tone_map:
  scc:
    tones:
      "1":
        events:
          - pc: { program: 81 }
"#,
        )
        .unwrap();
    let mut song = parse_source("4 @1 c4\n", &opts).unwrap();
    let events = collect_midi_events(&mut song, &opts).unwrap();
    assert!(events.iter().any(|event| {
        matches!(
            event.kind,
            RenderedEventKind::ProgramChange { program: 81, .. }
        )
    }));
}

#[test]
fn opll_at_hash_assignment_redirects_logical_tone_to_rom_tone() {
    let opts = ConversionOptions::default();
    let mut song = parse_source("@#2 = 14\n9 @2 c4\n", &opts).unwrap();
    let events = collect_midi_events(&mut song, &opts).unwrap();
    assert_eq!(song.opll_tone_assignments.get(&2).copied(), Some(14));
    assert!(events.iter().any(|event| {
        matches!(
            event.kind,
            RenderedEventKind::ProgramChange { program: 33, .. }
        )
    }));
}

#[test]
fn psg_envelope_map_custom_cc_is_used() {
    let mut opts = ConversionOptions::default();
    opts.smfmap
        .merge_yaml_str(
            r#"
psg_envelope_map:
  default:
    expression_cc: 12
"#,
        )
        .unwrap();
    let mut song = parse_source("@e1 = {1,0,f}\n1 @1 c4\n", &opts).unwrap();
    let events = collect_midi_events(&mut song, &opts).unwrap();
    assert!(events.iter().any(|event| {
        matches!(
            event.kind,
            RenderedEventKind::ControlChange {
                controller: 12,
                value: 127,
                ..
            }
        )
    }));
    assert!(!events.iter().any(|event| {
        matches!(
            event.kind,
            RenderedEventKind::ControlChange { controller: 11, .. }
        )
    }));
}

#[test]
fn scc_envelope_map_can_use_volume_cc() {
    let mut opts = ConversionOptions::default();
    opts.smfmap
        .merge_yaml_str(
            r#"
envelope_map:
  default_mode: cc7
  midi_cc:
    volume: 7
"#,
        )
        .unwrap();
    let mut song = parse_source("@e1 = {1,0,f}\n4 @e1 c4\n", &opts).unwrap();
    let events = collect_midi_events(&mut song, &opts).unwrap();
    assert!(events.iter().any(|event| {
        matches!(
            event.kind,
            RenderedEventKind::ControlChange {
                controller: 7,
                value: 127,
                ..
            }
        )
    }));
}

#[test]
fn psg_noise_drum_map_replaces_melody_note() {
    let mut opts = ConversionOptions::default();
    opts.smfmap
        .merge_yaml_str(
            r#"
psg_noise_map:
  default_action: drum_map
  drum_map:
    enabled: true
    channel: 9
    envelopes:
      "1":
        name: snare
        note: 38
        velocity: 100
"#,
        )
        .unwrap();
    let mut song = parse_source("@e1 = {1,0,f}\n3 @1 c4\n", &opts).unwrap();
    let events = collect_midi_events(&mut song, &opts).unwrap();
    assert!(events.iter().any(|event| {
        matches!(
            event.kind,
            RenderedEventKind::NoteOn {
                channel: 9,
                note: 38,
                velocity: 100
            }
        )
    }));
    assert!(
        !events
            .iter()
            .any(|event| { matches!(event.kind, RenderedEventKind::NoteOn { note: 60, .. }) })
    );
}

#[test]
fn psg_noise_drum_map_reserves_drum_channel_from_melodic_allocation() {
    let mut opts = ConversionOptions::default();
    opts.channel_overflow = mgs2smf::ir::ChannelOverflowPolicy::MultiPort;
    opts.smfmap
        .merge_yaml_str(
            r#"
psg_noise_map:
  default_action: drum_map
  drum_map:
    enabled: true
    channel: 9
    envelopes:
      "1": { name: snare, note: 38, velocity: 100 }
"#,
        )
        .unwrap();

    let mut song = parse_source("123456789abcdefgh @1 c4\n", &opts).unwrap();
    let events = collect_midi_events(&mut song, &opts).unwrap();

    assert!(
        song.diagnostics
            .channel_allocations
            .iter()
            .all(|allocation| allocation.midi_channel != 9)
    );
    assert!(
        song.diagnostics
            .channel_allocations
            .iter()
            .any(|allocation| allocation.midi_port == 1)
    );
    assert!(events.iter().any(|event| {
        matches!(
            event.kind,
            RenderedEventKind::NoteOn {
                channel: 9,
                note: 38,
                velocity: 100
            }
        )
    }));
}

#[test]
fn opll_pseudo_drum_map_replaces_macro_notes_and_suppresses_tone_map() {
    let mut opts = ConversionOptions::default();
    opts.smfmap
        .merge_yaml_str(
            r#"
tracks:
  "h":
    source_family: opll
    render_role: drum
    drum_map: test_opll_pseudo

opll_pseudo_drum_map:
  enabled: true
  maps:
    test_opll_pseudo:
      output:
        midi_channel: 9
        mode: replace
        unmatched: warn_and_drop
        suppress_tone_map: true
      rules:
        - name: kick
          match: { macro_symbol: "b" }
          drum: { note: 36, velocity: source_volume }

tone_map:
  opll:
    tones:
      "15":
        events:
          - pc: { program: 0 }
"#,
        )
        .unwrap();

    let mut song = parse_source(
        "*1 = { @15 v15 c4 }\n#macro_offset { b = 0 }\nh *b01\n",
        &opts,
    )
    .unwrap();
    let events = collect_midi_events(&mut song, &opts).unwrap();
    let allocation = song.diagnostics.channel_allocations.first().unwrap();
    assert_eq!(allocation.source_track, "h");
    assert_eq!(allocation.midi_channel, 9);

    assert!(events.iter().any(|event| {
        matches!(
            event.kind,
            RenderedEventKind::NoteOn {
                channel: 9,
                note: 36,
                velocity: 127
            }
        )
    }));
    assert!(!events.iter().any(|event| {
        matches!(
            event.kind,
            RenderedEventKind::ProgramChange { program: 0, .. }
        )
    }));
    assert!(
        !events
            .iter()
            .any(|event| { matches!(event.kind, RenderedEventKind::NoteOn { note: 60, .. }) })
    );
}

#[test]
fn opll_pseudo_drum_hit_grouping_suppresses_macro_continuations() {
    let mut opts = ConversionOptions::default();
    opts.smfmap
        .merge_yaml_str(
            r#"
tracks:
  "h":
    source_family: opll
    render_role: drum
    drum_map: grouped

opll_pseudo_drum_map:
  enabled: true
  maps:
    grouped:
      output:
        midi_channel: 9
        mode: replace
      hit_grouping:
        enabled: true
        suppress_continuations:
          - macro_continuation
      rules:
        - match: { macro_symbol: "b" }
          drum: { note: 36, velocity: source_volume }
"#,
        )
        .unwrap();

    let mut song =
        parse_source("*1 = { c16 d16 }\n#macro_offset { b = 0 }\nh *b01\n", &opts).unwrap();
    let events = collect_midi_events(&mut song, &opts).unwrap();
    let kick_count = events
        .iter()
        .filter(|event| {
            matches!(
                event.kind,
                RenderedEventKind::NoteOn {
                    channel: 9,
                    note: 36,
                    ..
                }
            )
        })
        .count();
    assert_eq!(kick_count, 1);
}

#[test]
fn family_rhythm_shorthand_distinguishes_native_and_pseudo_opll_drums() {
    let mut opts = ConversionOptions::default();
    opts.smfmap
        .merge_yaml_str(
            r#"
tracks:
  "f": { family: rhythm }
  "h": { family: rhythm }

opll_pseudo_drum_map:
  enabled: true
"#,
        )
        .unwrap();

    assert_eq!(
        opts.smfmap.family_for_track("f", 1, TrackKind::Rhythm),
        SourceFamily::Rhythm
    );
    assert_eq!(
        opts.smfmap.family_for_track("h", 0, TrackKind::Melodic),
        SourceFamily::Opll
    );
    assert!(
        opts.smfmap
            .opll_pseudo_drum_map_for_track("f", TrackKind::Rhythm)
            .is_none()
    );
    assert!(
        opts.smfmap
            .opll_pseudo_drum_map_for_track("h", TrackKind::Melodic)
            .is_some()
    );
}

#[test]
fn track_config_can_set_midi_port_and_channel() {
    let mut opts = ConversionOptions::default();
    opts.smfmap
        .merge_yaml_str(
            r#"
tracks:
  "1":
    midi_channel: 5
    midi_port: 2
"#,
        )
        .unwrap();
    let mut song = parse_source("1 c4\n", &opts).unwrap();
    let events = collect_midi_events(&mut song, &opts).unwrap();
    let allocation = song.diagnostics.channel_allocations.first().unwrap();
    assert_eq!(allocation.midi_channel, 5);
    assert_eq!(allocation.midi_port, 2);
    assert!(events.iter().any(|event| {
        event.track_index == 1 && matches!(event.kind, RenderedEventKind::MidiPort { port: 2 })
    }));
}

#[test]
fn track_config_events_emit_initial_program_change() {
    let mut opts = ConversionOptions::default();
    opts.smfmap
        .merge_yaml_str(
            r#"
tracks:
  "3":
    midi_channel: 4
    events:
      - pc: { program: 38 }
"#,
        )
        .unwrap();
    let mut song = parse_source("3 c4\n", &opts).unwrap();
    let events = collect_midi_events(&mut song, &opts).unwrap();
    let pc_index = events
        .iter()
        .position(|event| matches!(event.kind, RenderedEventKind::ProgramChange { .. }))
        .unwrap();
    let note_index = events
        .iter()
        .position(|event| matches!(event.kind, RenderedEventKind::NoteOn { .. }))
        .unwrap();
    let pc = &events[pc_index];
    assert_eq!(pc.abs_tick, 0);
    assert!(pc_index < note_index);
    assert!(matches!(
        pc.kind,
        RenderedEventKind::ProgramChange {
            channel: 4,
            program: 38
        }
    ));
}

#[test]
fn opll_register_write_is_reported_and_emits_no_smf_event() {
    let opts = ConversionOptions::default();
    let mut song = parse_source("9 y14,32 c4\n", &opts).unwrap();
    let events = collect_midi_events(&mut song, &opts).unwrap();
    assert!(song.diagnostics.register_write_usage.iter().any(|item| {
        item.track == "9" && item.family == "opll" && item.register == 14 && item.data == 32
    }));
    assert!(
        song.diagnostics
            .unsupported_commands
            .iter()
            .any(|item| item.command == "y14,32")
    );
    assert!(!events.iter().any(|event| {
        matches!(
            event.kind,
            RenderedEventKind::ProgramChange { .. }
                | RenderedEventKind::ControlChange { .. }
                | RenderedEventKind::PitchBend { .. }
        )
    }));
}

#[test]
fn register_map_apply_rules_emits_configured_event() {
    let mut opts = ConversionOptions::default();
    opts.smfmap
        .merge_yaml_str(
            r#"
opll_register_map:
  default_policy: apply_rules
  rules:
    - name: cutoff
      enabled: true
      match: { family: opll, source_track: "*", register: 14, data: 32, context: "*" }
      emit:
        - cc: { controller: 74, value: 100 }
"#,
        )
        .unwrap();
    let mut song = parse_source("9 y14,32 c4\n", &opts).unwrap();
    let events = collect_midi_events(&mut song, &opts).unwrap();
    assert!(events.iter().any(|event| {
        matches!(
            event.kind,
            RenderedEventKind::ControlChange {
                controller: 74,
                value: 100,
                ..
            }
        )
    }));
    assert!(
        !song
            .diagnostics
            .unsupported_commands
            .iter()
            .any(|item| item.policy == "apply_rules: no matching register rule")
    );
}

#[test]
fn envelope_register_write_routes_to_register_map() {
    let mut opts = ConversionOptions::default();
    opts.smfmap
        .merge_yaml_str(
            r#"
opll_register_map:
  default_policy: apply_rules
  rules:
    - name: env_y
      enabled: true
      match: { family: opll, source_track: "*", register: 7, data: 9, context: EnvelopeData }
      emit:
        - cc: { controller: 74, value: 99 }
"#,
        )
        .unwrap();
    let mut song = parse_source("@e0 = {1,0,y7,9,f}\n9 @e0 c4\n", &opts).unwrap();
    let events = collect_midi_events(&mut song, &opts).unwrap();
    assert!(events.iter().any(|event| {
        matches!(
            event.kind,
            RenderedEventKind::ControlChange {
                controller: 74,
                value: 99,
                ..
            }
        )
    }));
}

#[test]
fn envelope_tone_change_routes_to_tone_map() {
    let opts = ConversionOptions::default();
    let mut song = parse_source("@e0 = {1,0,@14,f}\n9 @e0 c4\n", &opts).unwrap();
    let events = collect_midi_events(&mut song, &opts).unwrap();
    assert!(events.iter().any(|event| {
        matches!(
            event.kind,
            RenderedEventKind::ProgramChange { program: 33, .. }
        )
    }));
}

#[test]
fn smf_type_zero_writes_single_track_header() {
    let mut opts = ConversionOptions::default();
    opts.smfmap
        .merge_yaml_str(
            r#"
smf:
  type: 0
"#,
        )
        .unwrap();
    let mut song = parse_source("12 c4\n", &opts).unwrap();
    let bytes = mgs2smf::render::render_smf(&mut song, &opts).unwrap();
    assert_eq!(&bytes[8..10], &[0x00, 0x00]);
    assert_eq!(&bytes[10..12], &[0x00, 0x01]);
}

#[test]
fn config_skeleton_includes_observed_usage() {
    let opts = ConversionOptions::default();
    let song = parse_source(
        "@e1 = {1,0,f}\n@e2 = {,,@4f}\n1 @1 c4\n4 @2 c4\n4 @e2 d4\n9 @3 y14,32 c4\n",
        &opts,
    )
    .unwrap();
    let skeleton = mgs2smf::smfmap::emit_config_skeleton(&song);
    assert!(skeleton.contains("version: 0.4.1"));
    assert!(skeleton.contains("pitch_glide:\n  enabled: false"));
    assert!(skeleton.contains("name: \"PSG envelope @1\""));
    assert!(skeleton.contains("name: \"SCC @2\"\n        events: []"));
    assert!(skeleton.contains("name: \"SCC @4\"\n        events: []"));
    assert!(skeleton.contains("name: \"OPLL @3\"\n        events: []"));
    assert!(skeleton.contains("register: 14"));
    assert!(skeleton.contains("data: 32"));
}

#[test]
fn control_text_definition_renders_text_meta() {
    let opts = ConversionOptions::default();
    let mut song = parse_source("@m2 = {\"hello\"}\n1 c @m2 d\n", &opts).unwrap();
    let events = collect_midi_events(&mut song, &opts).unwrap();
    assert_eq!(
        song.control_texts.get(&2).map(String::as_str),
        Some("hello")
    );
    assert!(events.iter().any(|event| {
        event.abs_tick == 3600
            && matches!(
                &event.kind,
                RenderedEventKind::Text(text) if text == "hello"
            )
    }));
}

#[test]
fn undefined_control_text_warns() {
    let opts = ConversionOptions::default();
    let mut song = parse_source("1 @m3 c\n", &opts).unwrap();
    let _ = collect_midi_events(&mut song, &opts).unwrap();
    assert!(
        song.diagnostics
            .parse_warnings
            .iter()
            .any(|item| item.message == "undefined control text @m3")
    );
}

#[test]
fn macro_offset_applies_to_definition_and_reference() {
    let events = parse_and_render("#macro_offset 10\n*0 = { c%48 }\n1 *0 d%48\n");
    let starts: Vec<(u64, u8)> = events
        .iter()
        .filter_map(|event| match event.kind {
            RenderedEventKind::NoteOn { note, .. } => Some((event.abs_tick, note)),
            _ => None,
        })
        .collect();
    assert_eq!(starts, vec![(0, 60), (3600, 62)]);
}

#[test]
fn macro_offset_map_resolves_named_references() {
    let events = parse_and_render(
        "#macro_offset { b = 00, q = 110 }\n*04 = { c%48 }\n*120 = { d%48 }\n1 *b04 *q10 e%48\n",
    );
    let starts: Vec<(u64, u8)> = events
        .iter()
        .filter_map(|event| match event.kind {
            RenderedEventKind::NoteOn { note, .. } => Some((event.abs_tick, note)),
            _ => None,
        })
        .collect();
    assert_eq!(starts, vec![(0, 60), (3600, 62), (7200, 64)]);
}

#[test]
fn pitch_glide_uses_target_length_for_timing() {
    let events = parse_and_render("1 l16 o3 b_<b%6 r8^%18 c%48\n");
    let starts: Vec<(u64, u8)> = events
        .iter()
        .filter_map(|event| match event.kind {
            RenderedEventKind::NoteOn { note, .. } => Some((event.abs_tick, note)),
            _ => None,
        })
        .collect();
    assert_eq!(starts, vec![(0, 59), (3600, 36)]);
}

#[test]
fn pitch_glide_keeps_source_note_octave() {
    let events = parse_and_render("1 o4 c_<c%48\n");
    let starts: Vec<(u64, u8)> = events
        .iter()
        .filter_map(|event| match event.kind {
            RenderedEventKind::NoteOn { note, .. } => Some((event.abs_tick, note)),
            _ => None,
        })
        .collect();
    assert_eq!(starts, vec![(0, 60)]);
}

#[test]
fn pitch_glide_opt_in_renders_pitch_bend() {
    let mut opts = ConversionOptions::default();
    opts.smfmap
        .merge_yaml_str(
            r#"
pitch_glide:
  enabled: true
  curve: { event_rate_hz: 4 }
"#,
        )
        .unwrap();
    let mut song = parse_source("1 t120 o4 c_<c%48\n", &opts).unwrap();
    let events = collect_midi_events(&mut song, &opts).unwrap();

    assert!(
        !song
            .diagnostics
            .unsupported_commands
            .iter()
            .any(|item| item.command.starts_with('_'))
    );
    let cc_at_start: Vec<(u8, u8)> = events
        .iter()
        .filter_map(|event| match event.kind {
            RenderedEventKind::ControlChange {
                channel: 0,
                controller,
                value,
            } if event.abs_tick == 0 => Some((controller, value)),
            _ => None,
        })
        .collect();
    assert_eq!(
        cc_at_start,
        vec![(101, 0), (100, 0), (6, 24), (38, 0), (101, 127), (100, 127)]
    );
    let pitch_bends: Vec<(u64, u16)> = events
        .iter()
        .filter_map(|event| match event.kind {
            RenderedEventKind::PitchBend { channel: 0, value } => Some((event.abs_tick, value)),
            _ => None,
        })
        .collect();
    assert!(pitch_bends.contains(&(0, 8192)));
    assert!(
        pitch_bends
            .iter()
            .any(|(tick, value)| *tick < 3600 && *value == 4096)
    );
    assert!(pitch_bends.contains(&(3600, 8192)));
}

#[test]
fn pitch_glide_shared_channel_policy_can_error() {
    let mut opts = ConversionOptions::default();
    opts.smfmap
        .merge_yaml_str(
            r#"
tracks:
  "1": { midi_channel: 0 }
  "2": { midi_channel: 0 }
pitch_glide:
  enabled: true
  shared_channel_policy: error
"#,
        )
        .unwrap();
    let mut song = parse_source("12 o4 c_<c%48\n", &opts).unwrap();
    let err = collect_midi_events(&mut song, &opts).unwrap_err();
    assert!(err.contains("pitch_glide rejected on shared MIDI channel"));
}

#[test]
fn pitch_glide_slur_group_holds_note_on() {
    let mut opts = ConversionOptions::default();
    opts.smfmap
        .merge_yaml_str(
            r#"
pitch_glide:
  enabled: true
  curve: { event_rate_hz: 4 }
"#,
        )
        .unwrap();
    let mut song = parse_source("1 t120 o4 c_d%48&d_e%48\n", &opts).unwrap();
    let events = collect_midi_events(&mut song, &opts).unwrap();
    let note_ons: Vec<(u64, u8)> = events
        .iter()
        .filter_map(|event| match event.kind {
            RenderedEventKind::NoteOn { note, .. } => Some((event.abs_tick, note)),
            _ => None,
        })
        .collect();
    let note_offs: Vec<(u64, u8)> = events
        .iter()
        .filter_map(|event| match event.kind {
            RenderedEventKind::NoteOff { note, .. } => Some((event.abs_tick, note)),
            _ => None,
        })
        .collect();
    assert_eq!(note_ons, vec![(0, 60)]);
    assert_eq!(note_offs, vec![(7200, 60)]);
    assert!(events.iter().any(|event| {
        matches!(
            event.kind,
            RenderedEventKind::PitchBend {
                channel: 0,
                value: 9557
            }
        )
    }));
}

#[test]
fn tie_extension_leaves_following_octave_note_target() {
    let events = parse_and_render("1 l6 o4 c^<b12 g\n");
    let starts: Vec<(u64, u8)> = events
        .iter()
        .filter_map(|event| match event.kind {
            RenderedEventKind::NoteOn { note, .. } => Some((event.abs_tick, note)),
            _ => None,
        })
        .collect();
    assert_eq!(starts, vec![(0, 60), (4800, 59), (6000, 55)]);
}

#[test]
fn play_track_filters_source_tracks() {
    let opts = ConversionOptions::default();
    let mut song = parse_source("#play_track 2a\n12a c\n3 d\n", &opts).unwrap();
    let events = collect_midi_events(&mut song, &opts).unwrap();
    let source_tracks: Vec<&str> = song
        .tracks
        .iter()
        .map(|track| track.source_id.as_str())
        .collect();
    assert_eq!(source_tracks, vec!["2", "a"]);

    let note_channels: Vec<u8> = events
        .iter()
        .filter_map(|event| match event.kind {
            RenderedEventKind::NoteOn { channel, .. } => Some(channel),
            _ => None,
        })
        .collect();
    assert_eq!(note_channels, vec![0, 1]);
}

#[test]
fn octave_base_option_changes_o4c() {
    let mut opts = ConversionOptions::default();
    opts.octave_base = 48;
    let mut song = parse_source("1 c\n", &opts).unwrap();
    let events = collect_midi_events(&mut song, &opts).unwrap();
    let note = events
        .iter()
        .find_map(|event| match event.kind {
            RenderedEventKind::NoteOn { note, .. } => Some(note),
            _ => None,
        })
        .unwrap();
    assert_eq!(note, 48);
}

#[test]
fn same_pitch_slur_merges_note_duration() {
    let events = parse_and_render("1 q4 c&c\n");
    let note_ons: Vec<_> = events
        .iter()
        .filter(|event| matches!(event.kind, RenderedEventKind::NoteOn { .. }))
        .collect();
    assert_eq!(note_ons.len(), 1);
    let note_off = events
        .iter()
        .find(|event| matches!(event.kind, RenderedEventKind::NoteOff { .. }))
        .unwrap();
    assert_eq!(note_off.abs_tick, 7200);
}

#[test]
fn consecutive_slurs_are_consumed_as_one_continuation() {
    let events = parse_and_render("1 q4 c&&c d\n");
    let note_ons: Vec<_> = events
        .iter()
        .filter(|event| matches!(event.kind, RenderedEventKind::NoteOn { .. }))
        .collect();
    assert_eq!(note_ons.len(), 2);
    let c_off = events
        .iter()
        .find(|event| matches!(event.kind, RenderedEventKind::NoteOff { note: 60, .. }))
        .unwrap();
    let d_on = events
        .iter()
        .find(|event| matches!(event.kind, RenderedEventKind::NoteOn { note: 62, .. }))
        .unwrap();
    assert_eq!(c_off.abs_tick, 7200);
    assert_eq!(d_on.abs_tick, 7200);
}

#[test]
fn different_pitch_slur_has_no_gap() {
    let events = parse_and_render("1 q4 c&d\n");
    let c_off = events
        .iter()
        .find(|event| matches!(event.kind, RenderedEventKind::NoteOff { note: 60, .. }))
        .unwrap();
    let d_on = events
        .iter()
        .find(|event| matches!(event.kind, RenderedEventKind::NoteOn { note: 62, .. }))
        .unwrap();
    assert_eq!(c_off.abs_tick, 3600);
    assert_eq!(d_on.abs_tick, 3600);
}

#[test]
fn opll_mode_1_rhythm_track_uses_gm_drums_on_channel_10() {
    let events = parse_and_render("#opll_mode 1\nf v15 b s m c h\n");
    let notes: Vec<(u64, u8, u8, u8)> = events
        .iter()
        .filter_map(|event| match event.kind {
            RenderedEventKind::NoteOn {
                channel,
                note,
                velocity,
            } => Some((event.abs_tick, channel, note, velocity)),
            _ => None,
        })
        .collect();
    assert_eq!(
        notes,
        vec![
            (0, 9, 36, 127),
            (3600, 9, 38, 127),
            (7200, 9, 45, 127),
            (10800, 9, 49, 127),
            (14400, 9, 42, 127),
        ]
    );
}

#[test]
fn rhythm_instrument_volume_overrides_track_volume() {
    let events = parse_and_render("#opll_mode 1\nf v0 vb15 b vc8 c\n");
    let notes: Vec<(u8, u8)> = events
        .iter()
        .filter_map(|event| match event.kind {
            RenderedEventKind::NoteOn { note, velocity, .. } => Some((note, velocity)),
            _ => None,
        })
        .collect();
    assert_eq!(notes, vec![(36, 127), (49, 68)]);
}

#[test]
fn rhythm_map_off_keeps_opll_f_track_melodic() {
    let mut opts = ConversionOptions::default();
    opts.rhythm_map = RhythmMap::Off;
    let mut song = parse_source("#opll_mode 1\nf v15 b\n", &opts).unwrap();
    let events = collect_midi_events(&mut song, &opts).unwrap();
    let note = events
        .iter()
        .find_map(|event| match event.kind {
            RenderedEventKind::NoteOn { channel, note, .. } => Some((channel, note)),
            _ => None,
        })
        .unwrap();
    assert_eq!(note, (0, 71));
}

#[test]
fn default_channel_overflow_errors() {
    let opts = ConversionOptions::default();
    let mut song = parse_source("123456789abcdefgh c\n", &opts).unwrap();
    let err = collect_midi_events(&mut song, &opts).unwrap_err();
    assert!(err.contains("MIDI channel overflow"));
}

#[test]
fn shared_channel_overflow_suppresses_envelope_cc_on_shared_channels() {
    let mut opts = ConversionOptions::default();
    opts.channel_overflow = mgs2smf::ir::ChannelOverflowPolicy::Shared;
    let mut song = parse_source("@e0 = {1,0,f}\n123456789abcdefgh @e0 c\n", &opts).unwrap();
    let events = collect_midi_events(&mut song, &opts).unwrap();
    let note_ons = events
        .iter()
        .filter(|event| matches!(event.kind, RenderedEventKind::NoteOn { .. }))
        .count();
    let cc11s = events
        .iter()
        .filter(|event| {
            matches!(
                event.kind,
                RenderedEventKind::ControlChange { controller: 11, .. }
            )
        })
        .count();
    assert_eq!(note_ons, 17);
    assert_eq!(cc11s, 15);
    assert!(
        song.diagnostics
            .unsupported_commands
            .iter()
            .any(|item| item.command == "channel-overflow shared")
    );
    assert!(
        song.diagnostics
            .unsupported_commands
            .iter()
            .any(|item| item.command == "envelope CC on shared MIDI channel")
    );
}

#[test]
fn multi_port_channel_overflow_uses_midi_port_meta() {
    let mut opts = ConversionOptions::default();
    opts.channel_overflow = mgs2smf::ir::ChannelOverflowPolicy::MultiPort;
    let mut song = parse_source("@e0 = {1,0,f}\n123456789abcdefgh @e0 c\n", &opts).unwrap();
    let events = collect_midi_events(&mut song, &opts).unwrap();

    let cc11s = events
        .iter()
        .filter(|event| {
            matches!(
                event.kind,
                RenderedEventKind::ControlChange { controller: 11, .. }
            )
        })
        .count();
    assert_eq!(cc11s, 17);

    let last = song.diagnostics.channel_allocations.last().unwrap();
    assert_eq!(last.source_track, "h");
    assert_eq!(last.midi_channel, 0);
    assert_eq!(last.midi_port, 1);

    assert!(events.iter().any(|event| {
        event.track_index == 17 && matches!(event.kind, RenderedEventKind::MidiPort { port: 1 })
    }));
    assert!(song.diagnostics.unsupported_commands.is_empty());
    assert!(song.diagnostics.parse_warnings.is_empty());
}
