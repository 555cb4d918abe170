use std::collections::BTreeMap;

use mgs2smf::diagnostics::Diagnostics;
use mgs2smf::ir::{
    ConversionOptions, IrEvent, RegisterContext, SmfRequest, SourceFamily, TrackKind,
};
use mgs2smf::parser::definitions::MacroOffsets;
use mgs2smf::parser::loader::strip_comments;
use mgs2smf::parser::mml::{parse_mml, Machine, MmlEnv};
use mgs2smf::parser::parse_source;
use mgs2smf::render::{collect_midi_events, RenderedEvent, RenderedEventKind};
use mgs2smf::smfmap::formula::{evaluate_formula, FormulaVars};
use mgs2smf::smfmap::{emit_config_skeleton, Numbering, SmfMapConfig, U8Matcher};

fn options(yaml: &str) -> ConversionOptions {
    let mut options = ConversionOptions::default();
    options.smfmap.merge_yaml_str(yaml).unwrap();
    options
}

fn play(text: &str, options: &ConversionOptions) -> Vec<RenderedEvent> {
    let mut song = parse_source(text, options).unwrap();
    collect_midi_events(&mut song, options).unwrap()
}

fn controls(events: &[RenderedEvent]) -> Vec<(u8, u8)> {
    events
        .iter()
        .filter_map(|e| match e.kind {
            RenderedEventKind::ControlChange { controller, value, .. } => {
                Some((controller, value))
            }
            _ => None,
        })
        .collect()
}

fn song(text: &str) -> String {
    format!("{:?}", parse_source(text, &ConversionOptions::default()).unwrap())
}

fn tracks(text: &str) -> Vec<String> {
    let song = parse_source(text, &ConversionOptions::default()).unwrap();
    song.tracks.iter().map(|t| t.source_id.clone()).collect()
}

fn rules(matched: &str, value: &str) -> String {
    format!(
        "opll_register_map:\n  default_policy: apply_rules\n  rules:\n    - name: r\n      \
         enabled: true\n      match: {matched}\n      emit:\n        \
         - cc: {{ controller: 11, value: {value} }}\n"
    )
}

#[test]
fn a_range_fires_on_its_bytes_only() {
    let o = options(&rules("{ data: { min: 10, max: 20 } }", "5"));
    for (data, fires) in [(9, false), (10, true), (15, true), (20, true), (21, false)] {
        let events = play(&format!("9 y2,{data} c4\n"), &o);
        assert_eq!(controls(&events).contains(&(11, 5)), fires);
    }
}

#[test]
fn a_range_can_have_one_end() {
    let config = options(&rules("{ data: { min: 10 }, register: { max: 3 } }", "5")).smfmap;
    let matcher = &config.register_rules[0].matcher;
    assert!(matches!(matcher.data, U8Matcher::Range { min: 10, max: 255 }));
    assert!(matches!(matcher.register, U8Matcher::Range { min: 0, max: 3 }));
}

#[test]
fn a_formula_gives_the_value() {
    let formula = "\"expr: clamp(127 - round(data * 127 / 63), 0, 127)\"";
    let o = options(&rules("{ family: opll, register: 2, data: \"*\", context: \"*\" }", formula));
    for (data, value) in [(0, 127), (1, 125), (32, 62), (63, 0), (200, 0)] {
        let events = play(&format!("9 y2,{data} c4\n"), &o);
        let before: Vec<RenderedEvent> = events
            .into_iter()
            .take_while(|e| !matches!(e.kind, RenderedEventKind::NoteOn { .. }))
            .collect();
        assert!(controls(&before).contains(&(11, value)));
    }
}

#[test]
fn formulas_compute_exactly() {
    let vars = FormulaVars::of_write(7, 10);
    for (text, value) in [
        (" data + register * 2 ", Some(24)),
        ("(data + register) * 2", Some(34)),
        ("data / 4", Some(3)),
        ("-data / 4", Some(-3)),
        ("floor(-5 / 2)", Some(-3)),
        ("ceil(-5 / 2)", Some(-2)),
        ("floor(5 / 2) + ceil(5 / 2)", Some(5)),
        ("round(0.5)", Some(1)),
        ("min(data, 3) - max(data, 30)", Some(-27)),
        ("clamp(300, 0, 127)", Some(127)),
        ("1 / 3 * 3", Some(1)),
        ("data / 0", None),
        ("data +", None),
        ("(data", None),
        ("tempo", None),
        ("min(1)", None),
        ("1000000000000 * 10", None),
        ("", None),
    ] {
        assert_eq!(evaluate_formula(text, vars), value, "{text}");
    }
}

#[test]
fn a_formula_without_a_value_emits_nothing() {
    let o = options(&rules("{ register: 2 }", "\"expr: 1 / data\""));
    assert!(!controls(&play("9 y2,0 c4\n", &o)).iter().any(|c| c.0 == 11));
    assert!(controls(&play("9 y2,1 c4\n", &o)).contains(&(11, 1)));
}

#[test]
fn formulas_stay_in_the_range_of_midi() {
    let mut config = SmfMapConfig::default();
    config
        .merge_yaml_str(
            "opll_register_map:\n  rules:\n    - enabled: true\n      emit:\n        \
             - pb: { value: \"expr: data * 1000\" }\n        \
             - rpn: { msb: 0, lsb: 1, value: \"expr: 0 - data\" }\n        \
             - nrpn: { msb: 2, lsb: 3, value: \"expr: register\" }\n        \
             - text: { value: done }\n",
        )
        .unwrap();
    let found = config.register_rule_events(
        SourceFamily::Opll,
        "9",
        40,
        200,
        RegisterContext::NormalMml,
    );
    assert_eq!(found.len(), 1);
    let events = &found[0].events;
    assert_eq!(events.len(), 4);
    assert!(matches!(events[0], SmfRequest::PitchBend { value: 16383 }));
    assert!(matches!(events[1], SmfRequest::Rpn { msb: 0, lsb: 1, value: 0 }));
    assert!(matches!(events[2], SmfRequest::Nrpn { msb: 2, lsb: 3, value: 40 }));
    assert!(matches!(&events[3], SmfRequest::Text { text } if text == "done"));
}

#[test]
fn lists_are_replaced_unless_they_append() {
    let one = "opll_register_map:\n  rules:\n    - name: one\n";
    let two = "opll_register_map:\n  rules:\n    - name: two\n";
    let more = "opll_register_map:\n  merge_mode: append\n  rules:\n    - name: two\n";
    let names = |texts: &[&str]| -> Vec<String> {
        let mut config = SmfMapConfig::default();
        for text in texts {
            config.merge_yaml_str(text).unwrap();
        }
        config.register_rules.iter().map(|r| r.name.clone()).collect()
    };
    assert_eq!(names(&[one, two]), ["two"]);
    assert_eq!(names(&[one, more]), ["one", "two"]);
    assert_eq!(names(&[more]), ["two"]);
}

#[test]
fn macros_and_tones_can_append() {
    let mut config = SmfMapConfig::default();
    for text in [
        "smf_macros:\n  m:\n    events:\n      - pc: 1\ntracks:\n  \"9\":\n    events:\n      - pc: 1\n",
        "smf_macros:\n  m:\n    merge_mode: append\n    events:\n      - pc: 2\n\
         tracks:\n  \"9\":\n    merge_mode: append\n    events:\n      - pc: 2\n",
    ] {
        config.merge_yaml_str(text).unwrap();
    }
    assert_eq!(config.macros.get("m").unwrap().events.len(), 2);
    assert_eq!(config.tracks.get("9").unwrap().events.len(), 2);
}

#[test]
fn an_unknown_request_is_an_error() {
    let o = ConversionOptions::default();
    assert_eq!(
        parse_source("9 c ;@smf blink 3\n", &o).unwrap_err(),
        "unknown ;@smf command: blink at line 1"
    );
    assert_eq!(
        parse_source("9 c\n;@smf track=9 blink\n", &o).unwrap_err(),
        "unknown ;@smf command: blink at line 2"
    );
}

#[test]
fn an_unknown_request_can_be_a_warning() {
    for yaml in
        ["manual_smf:\n  unknown_command_policy: warn\n", "manual_smf:\n  enabled: false\n"]
    {
        let song = parse_source("9 c ;@smf blink 3\n", &options(yaml)).unwrap();
        assert_eq!(song.diagnostics.parse_warnings.len(), 1);
        assert_eq!(
            song.diagnostics.parse_warnings[0].message,
            "unknown ;@smf command: blink"
        );
    }
    let o = options("manual_smf:\n  unknown_command_policy: error\n");
    assert!(parse_source("9 c ;@smf pc\n", &o).is_ok());
}

#[test]
fn a_given_loop_count_overrides_the_header() {
    let mut o = ConversionOptions::default();
    o.loop_count = Some(3);
    let rest = "@e1 = {0,f}\n1 [0 c4 d4] e\n";
    let with = parse_source(&format!(";[gain=2 loop=5]\n{rest}"), &o).unwrap();
    let without = parse_source(&format!(";\n{rest}"), &o).unwrap();
    assert_eq!(format!("{with:?}"), format!("{without:?}"));
}

#[test]
fn nothing_counts_after_the_end() {
    let text = "#tempo 100\n@e1 = {0,f,\n8}\n1 c d\n";
    for end in ["#end\n", "#END ; over\r\n"] {
        for more in ["", "2 e f\n", "1 [ *999\n{{{\n"] {
            assert_eq!(song(&format!("{text}{end}{more}")), song(text));
        }
    }
}

#[test]
fn tracks_come_in_the_order_of_their_first_lines() {
    assert_eq!(tracks("4 c\n1 d\n4 e\n23 f\n;@smf track=9 pc 1\n1 g\n"), ["4", "1", "2", "3", "9"]);
    assert_eq!(tracks("#play_track {1,9}\n4 c\n9 d\n1 e\n9 f\n"), tracks("9 d\n1 e\n"));
}

#[test]
fn a_skeleton_rests_on_the_events_alone() {
    let o = ConversionOptions::default();
    let a = parse_source("@e1 = {0,f}\n1 @1 c\n9 y14,32 @3 c y2,1\n", &o).unwrap();
    let mut b = parse_source("@e1 = {0,f}\n1 @1 c\n9 y14,32 @3 c y2,1\n", &o).unwrap();
    for t in b.tracks.iter_mut() {
        t.events.reverse();
    }
    b.tracks.reverse();
    assert_eq!(emit_config_skeleton(&a), emit_config_skeleton(&b));
}

#[test]
fn comments_go_at_once() {
    for text in ["1 c ;x\r\n2 d \";\" e ; f\n;@smf pc 1\n", "", "a\n\nb;c"] {
        let once = strip_comments(text);
        assert_eq!(strip_comments(&once), once);
    }
    let twice = strip_comments(&strip_comments("c\r;x\n"));
    assert_eq!(strip_comments("c\r;x\n"), "c\r\n");
    assert_eq!(twice, "c\n");
}

#[test]
fn a_report_reads_back() {
    let o = ConversionOptions::default();
    let mut song =
        parse_source("#tempo 99\n1 c6 [0 d] \"\t\\ ;@smf text \"q\\\"\\n\" \n9 y1,2 @7 e\n", &o)
            .unwrap();
    collect_midi_events(&mut song, &o).unwrap();
    song.diagnostics.input_file = Some("a \"b\"\\\u{1}\n.mus".to_string());
    let report = song.diagnostics.to_json(&song.tempo_events);
    let value: serde_yaml::Value = serde_yaml::from_str(&report).unwrap();
    assert_eq!(value.get("input").unwrap().as_str(), Some("a \"b\"\\\u{1}\n.mus"));
    assert!(value.get("output").unwrap().is_null());
    assert_eq!(
        value.get("tracks").unwrap().as_sequence().unwrap().len(),
        song.diagnostics.track_summaries.len()
    );
    assert_eq!(
        value.get("register_write_usage").unwrap()[0].get("data").unwrap().as_u64(),
        Some(2)
    );
    assert_eq!(value.get("tempo_map").unwrap()[0].get("bpm").unwrap().as_u64(), Some(99));
    let empty = Diagnostics::default().to_json(&[]);
    let value: BTreeMap<String, serde_yaml::Value> = serde_yaml::from_str(&empty).unwrap();
    assert_eq!(value.len(), 18);
}

fn read(m: &mut Machine, text: &str, depth: usize) -> Result<(), String> {
    let macros: BTreeMap<u32, String> = BTreeMap::new();
    let offsets = MacroOffsets { numeric: 0, named: BTreeMap::new() };
    let env = MmlEnv {
        macros: &macros,
        offsets: &offsets,
        kind: TrackKind::Melodic,
        family: SourceFamily::Psg,
        loop_count: None,
        track: "1",
        line: 4,
        programs: Numbering::ZeroBased,
        channels: Numbering::ZeroBased,
        glide_enabled: false,
        unknown_fails: true,
    };
    let chars: Vec<char> = text.chars().collect();
    parse_mml(&env, &chars, m, depth)
}

fn machine() -> Machine {
    Machine::start(0, Vec::new(), Vec::new(), Diagnostics::default())
}

#[test]
fn what_was_read_before_an_error_stays() {
    for (text, message) in [
        ("v9 c d [e", "unterminated loop at line 4"),
        ("v9 c d *5", "undefined macro *5 (effective *5) at line 4"),
        ("v9 c d ;@smf blink", "unknown ;@smf command: blink at line 4"),
    ] {
        let mut whole = machine();
        read(&mut whole, "v9 c d ", 0).unwrap();
        let mut m = machine();
        assert_eq!(read(&mut m, text, 0).unwrap_err(), message);
        assert_eq!(format!("{:?}", m.events), format!("{:?}", whole.events));
        assert_eq!(m.cursor, whole.cursor);
        assert_eq!(m.volume, 9);
        assert!(m.macro_stack.is_empty());
    }
}

#[test]
fn a_command_that_does_not_fit_plays_nothing() {
    let mut m = machine();
    read(&mut m, "c", 0).unwrap();
    let before = format!("{:?} {:?}", m.events, m.cursor);
    let dots = format!("d64{}", ".".repeat(70));
    assert_eq!(read(&mut m, &dots, 0).unwrap_err(), "source steps out of range at line 4");
    assert_eq!(format!("{:?} {:?}", m.events, m.cursor), before);
    assert_eq!(m.events.iter().filter(|e| matches!(e, IrEvent::Note { .. })).count(), 1);
}

#[test]
fn a_piece_can_be_too_deep() {
    for depth in [9, 10, usize::MAX] {
        let mut m = machine();
        assert_eq!(
            read(&mut m, "c", depth).unwrap_err(),
            "macro/loop expansion exceeded depth at line 4"
        );
        assert!(m.events.is_empty());
    }
    assert!(read(&mut machine(), "c", 8).is_ok());
}

#[test]
fn an_undefined_envelope_can_be_an_error() {
    let o = options("psg_envelope_map:\n  undefined_policy: error\n");
    let mut song = parse_source("@e1 = {0,f}\n1 @1 c @2 d\n", &o).unwrap();
    assert_eq!(
        collect_midi_events(&mut song, &o).unwrap_err(),
        "undefined envelope @e2 on track 1"
    );
    let mut song = parse_source("@e1 = {0,f}\n1 @1 c\n", &o).unwrap();
    assert!(collect_midi_events(&mut song, &o).is_ok());
    let o = options("psg_envelope_map:\n  undefined_policy: warn_and_no_envelope\n");
    let mut song = parse_source("1 @2 d\n", &o).unwrap();
    assert!(collect_midi_events(&mut song, &o).is_ok());
}
