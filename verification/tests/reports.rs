use mgs2smf::diagnostics::Diagnostics;
use mgs2smf::ir::{ConversionOptions, Rational, TempoEvent};
use mgs2smf::parser::parse_source;
use mgs2smf::smfmap::emit_config_skeleton;

#[test]
fn an_empty_report_lists_every_section() {
    let report = Diagnostics::default().to_json(&[]);
    let mut expected = "{\n  \"input\": null,\n  \"output\": null,\n  \"ppq\": 0,\n  \
                        \"encoding\": null,\n"
        .to_string();
    let sections = [
        "config_files",
        "tracks",
        "tempo_map",
        "unsupported_commands",
        "ignored_tone_definitions",
        "parse_warnings",
        "channel_allocation",
        "loop_markers",
        "manual_smf_events",
        "tone_usage",
        "psg_envelope_usage",
        "register_write_usage",
        "unmapped_tones",
        "envelope_event_counts",
    ];
    for name in sections {
        let comma = if name == "envelope_event_counts" { "" } else { "," };
        expected.push_str(&format!("  \"{name}\": [\n\n  ]{comma}\n"));
    }
    expected.push_str("}\n");
    assert_eq!(report, expected);
}

#[test]
fn texts_are_escaped() {
    let mut d = Diagnostics::default();
    d.input_file = Some("a\"b\\c\nd\te\rf\u{1}é".to_string());
    d.add_unsupported(Some(3), Some("1".to_string()), "p1", "ignored");
    let report = d.to_json(&[]);
    assert!(report.contains("\"input\": \"a\\\"b\\\\c\\nd\\te\\rf\\u0001é\",\n"));
    assert!(report.contains("\"line\": 3,"));
    assert!(report.contains("\"command\": \"p1\""));
    assert!(d.has_warnings());
    assert!(!Diagnostics::default().has_warnings());
}

#[test]
fn tempos_are_reported() {
    let tempo = TempoEvent {
        at_steps: Rational { num: 3, den: 2 },
        bpm: 150,
        source: "t:1".to_string(),
        line: Some(7),
    };
    let report = Diagnostics::default().to_json(&[tempo]);
    assert!(report.contains("\"bpm\": 150"));
    assert!(report.contains("\"3/2\""));
}

#[test]
fn a_skeleton_lists_what_is_used_and_nothing_else() {
    let options = ConversionOptions::default();
    let song = parse_source(
        "@e3 = {0,f:1,@5,8}\n1 @2 c\n4 @8 c @e3 d\n9 y16,32 @r1 c y14,1\n",
        &options,
    )
    .unwrap();
    let text = emit_config_skeleton(&song);
    assert!(text.contains("name: \"PSG envelope @2\""));
    assert!(!text.contains("name: \"PSG envelope @3\""));
    assert!(text.contains("\"8\""));
    assert!(text.contains("- { family: scc, spelling: \"@e\", envelope: 3, kind: E }"));
    assert!(text.contains("- { family: opll, spelling: \"@r\", envelope: 1, kind: R }"));
    let first = text.find("observed_y14_1").unwrap();
    let second = text.find("observed_y16_32").unwrap();
    assert!(first < second);

    let empty = emit_config_skeleton(&parse_source("1 c\n", &options).unwrap());
    assert_eq!(
        empty,
        "version: 0.4.1\nprofile_name: observed-skeleton\n\npsg_envelope_map:\n  enabled: true\n  \
         envelopes:\n    {}\n\ntone_map:\n  scc:\n    enabled: true\n    tones:\n      {}\n  opll:\n    \
         enabled: true\n    tones:\n      {}\n\nenvelope_map:\n  enabled: true\n  families:\n    \
         scc: { enabled: true }\n    opll: { enabled: true }\n\nopll_register_map:\n  enabled: true\n  \
         default_policy: ignore_and_report\n  rules: []\n\npitch_glide:\n  enabled: false\n"
    );
}
