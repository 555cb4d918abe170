use mgs2smf::ir::{
    ChannelOverflowPolicy, EnvelopeMode, EnvelopeRef, SmfRequest, SourceFamily, TrackKind,
};
use mgs2smf::smfmap::{
    DrumOutputMode, PitchGlideRangePolicy, RegisterMapPolicy, SmfMapConfig,
};

fn merged(texts: &[&str]) -> SmfMapConfig {
    let mut config = SmfMapConfig::default();
    for text in texts {
        config.merge_yaml_str(text).unwrap();
    }
    config
}

#[test]
fn a_document_that_sets_nothing_changes_nothing() {
    let before = format!("{:?}", SmfMapConfig::default());
    assert_eq!(format!("{:?}", merged(&["{}"])), before);
    assert_eq!(format!("{:?}", merged(&["just a text"])), before);
    assert_eq!(format!("{:?}", merged(&["[1, 2]"])), before);
}

#[test]
fn a_text_that_is_no_yaml_is_refused() {
    let mut config = SmfMapConfig::default();
    let before = format!("{config:?}");
    let message = config.merge_yaml_str("smf: [1,").unwrap_err();
    assert!(!message.is_empty());
    assert_eq!(format!("{config:?}"), before);
}

#[test]
fn later_documents_count() {
    let config = merged(&[
        "smf:\n  ppq: 480\n  type: 0\n  channel_allocation: { overflow_policy: shared }\n",
        "smf:\n  ppq: 960\n",
    ]);
    assert_eq!(config.smf_ppq, Some(960));
    assert_eq!(config.smf_type, 0);
    assert_eq!(config.channel_overflow, Some(ChannelOverflowPolicy::Shared));
}

#[test]
fn sections_are_read() {
    let config = merged(&["
manual_smf:
  enabled: false
psg_envelope_map:
  enabled: false
  expression_cc: 7
psg_noise_map:
  enabled: true
  drum_map:
    enabled: true
    channel: 9
envelope_map:
  enabled: true
  default_mode: cc7
opll_register_map:
  default_policy: apply_rules
pitch_glide:
  enabled: true
  range_policy: error_if_exceeded
"]);
    assert!(!config.manual_smf_enabled);
    assert!(!config.psg_envelope_map_enabled);
    assert!(config.psg_noise_enabled);
    assert!(config.psg_noise_drum_map_enabled);
    assert_eq!(config.envelope_mode, Some(EnvelopeMode::Cc7));
    assert_eq!(config.register_map_policy, RegisterMapPolicy::ApplyRules);
    assert!(config.pitch_glide.enabled);
    assert_eq!(config.pitch_glide.range_policy, PitchGlideRangePolicy::ErrorIfExceeded);
}

#[test]
fn tones_are_looked_up_by_family() {
    let config = merged(&["
smf:
  program_numbering: one
tone_map:
  scc:
    tones:
      \"8\":
        events:
          - pc: { program: 81 }
          - cc: { controller: 74, value: 96 }
"]);
    let events = config.tone_events(SourceFamily::Scc, 8).unwrap();
    assert_eq!(events.len(), 2);
    assert_eq!(events[0], SmfRequest::Pc { program: 80 });
    assert_eq!(events[1], SmfRequest::Cc { controller: 74, value: 96 });
    assert!(config.tone_events(SourceFamily::Scc, 9).is_none());
    assert!(config.tone_events(SourceFamily::Psg, 8).is_none());
    assert!(config.tone_events(SourceFamily::Rhythm, 8).is_none());
}

#[test]
fn tracks_have_families_channels_and_ports() {
    let config = merged(&["
tracks:
  \"1\":
    family: scc
    midi_channel: 4
    midi_port: 2
"]);
    assert_eq!(config.family_for_track("1", 0, TrackKind::Melodic), SourceFamily::Scc);
    assert_eq!(config.family_for_track("2", 0, TrackKind::Melodic), SourceFamily::Psg);
    assert_eq!(config.family_for_track("4", 0, TrackKind::Melodic), SourceFamily::Scc);
    assert_eq!(config.family_for_track("9", 0, TrackKind::Melodic), SourceFamily::Opll);
    assert_eq!(config.midi_channel_for_track("1"), Some(4));
    assert_eq!(config.midi_channel_for_track("2"), None);
    assert_eq!(config.midi_port_for_track("1"), Some(2));
    assert_eq!(config.midi_port_for_track("2"), None);
}

#[test]
fn noise_envelopes_become_drums() {
    let config = merged(&["
psg_noise_map:
  enabled: true
  default_action: drum_map
  drum_map:
    enabled: true
    envelopes:
      \"3\": { note: 42, velocity: 90 }
"]);
    let drum = config.psg_noise_drum_for_envelope(Some(EnvelopeRef::E(3)));
    assert_eq!(drum.map(|d| d.note), Some(42));
    assert!(config.psg_noise_drum_for_envelope(Some(EnvelopeRef::E(4))).is_none());
    assert!(config.psg_noise_drum_for_envelope(None).is_none());
}

#[test]
fn drum_maps_belong_to_drum_tracks() {
    let config = merged(&["
tracks:
  \"9\": { family: opll, render_role: drum, drum_map: kit }
opll_pseudo_drum_map:
  enabled: true
  maps:
    kit:
      output: { mode: add, midi_channel: 9 }
      rules:
        - match: { macro_symbol: b }
          drum: { note: 36 }
"]);
    let map = config.opll_pseudo_drum_map_for_track("9", TrackKind::Melodic).unwrap();
    assert_eq!(map.output.mode, DrumOutputMode::Add);
    assert_eq!(map.rules.len(), 1);
    assert!(config.opll_pseudo_drum_map_for_track("a", TrackKind::Melodic).is_none());
}
