use mgs2smf::ir::{ConversionOptions, TonePolicy};
use mgs2smf::parser::parse_source;
use mgs2smf::render::{collect_midi_events, render_smf, RenderedEvent, RenderedEventKind};
use mgs2smf::smfmap::details::{EnvelopeOverride, Loudness, UndefinedPolicy, VolumeScale};
use mgs2smf::smfmap::formula::{evaluate_formula, FormulaVars, Quotient};
use mgs2smf::smfmap::SmfMapConfig;

fn options(yaml: &str) -> ConversionOptions {
    let mut options = ConversionOptions::default();
    options.smfmap.merge_yaml_str(yaml).unwrap();
    options
}

fn play(text: &str, options: &ConversionOptions) -> Vec<RenderedEvent> {
    let mut song = parse_source(text, options).unwrap();
    collect_midi_events(&mut song, options).unwrap()
}

fn values(events: &[RenderedEvent], wanted: u8) -> Vec<u8> {
    events
        .iter()
        .filter_map(|e| match e.kind {
            RenderedEventKind::ControlChange { controller, value, .. } if controller == wanted => {
                Some(value)
            }
            _ => None,
        })
        .collect()
}

fn note_ons(events: &[RenderedEvent]) -> Vec<(u64, u8)> {
    events
        .iter()
        .filter_map(|e| match e.kind {
            RenderedEventKind::NoteOn { velocity, .. } => Some((e.abs_tick, velocity)),
            _ => None,
        })
        .collect()
}

fn texts(events: &[RenderedEvent], wanted: &str) -> usize {
    events
        .iter()
        .filter(|e| matches!(&e.kind, RenderedEventKind::Text(text) if text == wanted))
        .count()
}

fn note_comes_first(events: &[RenderedEvent]) -> bool {
    let note = events.iter().position(|e| matches!(e.kind, RenderedEventKind::NoteOn { .. }));
    let control = events
        .iter()
        .position(|e| matches!(e.kind, RenderedEventKind::ControlChange { controller: 11, .. }));
    note.unwrap() < control.unwrap()
}

fn warnings(text: &str, options: &ConversionOptions) -> Vec<String> {
    let mut song = parse_source(text, options).unwrap();
    collect_midi_events(&mut song, options).unwrap();
    song.diagnostics.parse_warnings.iter().map(|w| w.message.clone()).collect()
}

#[test]
fn psg_envelopes_can_be_without_controllers() {
    let text = "@e1 = {1,0,f:1,8:1}\n1 @1 c4\n4 @e1 c4\n";
    let with = play(text, &ConversionOptions::default());
    assert_eq!(values(&with, 11), [127, 127, 68, 68]);
    let o = options("psg_envelope_map:\n  default:\n    emit_expression_cc: false\n");
    let without = play(text, &o);
    assert_eq!(values(&without, 11), [127, 68]);
    assert_eq!(note_ons(&without), note_ons(&with));
    let o = options("psg_envelope_map:\n  default:\n    emit_expression_cc: true\n");
    assert_eq!(values(&play(text, &o), 11), [127, 127, 68, 68]);
}

#[test]
fn the_scale_of_psg_envelopes_can_be_set() {
    let text = "@e1 = {1,0,f:1,8:1,0:1}\n1 @1 c4\n";
    assert_eq!(values(&play(text, &ConversionOptions::default()), 11), [127, 68, 0]);
    let scale = |settings: &str| {
        options(&format!("psg_envelope_map:\n  default:\n    volume_scale: {settings}\n"))
    };
    let o = scale("{ mgsc_min: 0, mgsc_max: 15, midi_min: 10, midi_max: 100, curve: linear }");
    assert_eq!(values(&play(text, &o), 11), [100, 58, 10]);
    let o = scale("{ mgsc_min: 5, mgsc_max: 10 }");
    assert_eq!(values(&play(text, &o), 11), [127, 76, 0]);
    let o = scale("{ midi_min: 127, midi_max: 0 }");
    assert_eq!(values(&play(text, &o), 11), [0, 59, 127]);
    let o = scale("{ midi_max: 100 }");
    assert_eq!(values(&play("@e1 = {1,0,f:1,8:1,0:1}\n4 @e1 c4\n", &o), 11), [127, 68, 0]);
}

#[test]
fn scales_are_straight() {
    let scale = VolumeScale::standard();
    for level in 0..16 {
        assert_eq!(scale.find_value(level, 1) as i64, (level * 127 * 2 + 15) / 30);
        assert_eq!(scale.find_value(level * 15, 15), scale.find_value(level, 1));
    }
    assert_eq!(scale.find_value(-3, 1), 0);
    assert_eq!(scale.find_value(90, 1), 127);
    let flat = VolumeScale { mgsc_min: 4, mgsc_max: 4, midi_min: 1, midi_max: 99 };
    assert_eq!(flat.find_value(2, 1), 99);
    assert_eq!(Loudness::standard().find_value(8, 1), 68);
}

#[test]
fn single_envelopes_can_be_corrected() {
    let text = "@e1 = {1,0,f:1,8:1,0:1}\n@e2 = {1,0,f}\n1 v15 @1 c4\n2 v15 @2 c4\n4 v15 @e1 c4\n";
    let plain = note_ons(&play(text, &ConversionOptions::default()));
    assert_eq!(plain, [(0, 127), (0, 127), (0, 127)]);
    let o = options(
        "psg_envelope_map:\n  envelopes:\n    \"1\":\n      name: soft\n      override:\n        \
         expression_multiplier: 0.5\n        velocity_bias: -8\n        min_cc: 20\n        \
         max_cc: 60\n",
    );
    let events = play(text, &o);
    let first: Vec<RenderedEvent> =
        play("@e1 = {1,0,f:1,8:1,0:1}\n1 v15 @1 c4\n", &o).into_iter().collect();
    assert_eq!(values(&first, 11), [60, 34, 20]);
    assert_eq!(note_ons(&first), [(0, 119)]);
    assert_eq!(note_ons(&events), [(0, 119), (0, 127), (0, 127)]);
    let louder = options(
        "psg_envelope_map:\n  envelopes:\n    \"1\":\n      override: { velocity_bias: 500 }\n",
    );
    assert_eq!(note_ons(&play("@e1 = {1,0,f}\n1 v1 @1 c4\n", &louder)), [(0, 127)]);
}

#[test]
fn corrections_add_to_earlier_ones() {
    let mut config = SmfMapConfig::default();
    for text in [
        "psg_envelope_map:\n  envelopes:\n    \"3\":\n      override: { min_cc: 7, max_cc: 99 }\n",
        "psg_envelope_map:\n  envelopes:\n    \"3\":\n      override: { expression_multiplier: 0.85 }\n",
    ] {
        config.merge_yaml_str(text).unwrap();
    }
    let change = config.details.overrides.get(&3).unwrap();
    assert_eq!(
        *change,
        EnvelopeOverride {
            multiplier: Quotient { num: 85, den: 100 },
            velocity_bias: 0,
            min_cc: 7,
            max_cc: 99,
        }
    );
    assert_eq!(change.find_value(100), 85);
    assert_eq!(change.find_value(0), 7);
    assert_eq!(EnvelopeOverride::none().find_value(100), 100);
}

#[test]
fn an_undefined_envelope_can_leave_the_one_before() {
    let text = "@e1 = {1,0,8}\n1 @1 c4 @2 d4\n";
    let o = options("psg_envelope_map:\n  undefined_policy: warn_and_keep_previous\n");
    assert_eq!(o.smfmap.details.undefined_policy, UndefinedPolicy::WarnAndKeepPrevious);
    assert_eq!(values(&play(text, &o), 11), [68, 68]);
    assert_eq!(values(&play(text, &ConversionOptions::default()), 11), [68]);
    assert_eq!(warnings(text, &o), ["undefined envelope @e2"]);
    assert_eq!(warnings(text, &ConversionOptions::default()), ["undefined envelope @e2"]);
    assert!(values(&play("1 @2 c4\n", &o), 11).is_empty());
}

#[test]
fn tones_can_be_named() {
    let text = "9 @3 c4\n";
    assert_eq!(texts(&play(text, &ConversionOptions::default()), "tone @3"), 0);
    let mut o = options("tone_map:\n  defaults:\n    emit_text_meta: true\n");
    assert_eq!(texts(&play(text, &o), "tone @3"), 1);
    o.tone_policy = TonePolicy::TextMeta;
    assert_eq!(texts(&play(text, &o), "tone @3"), 1);
}

#[test]
fn the_first_value_can_follow_its_note() {
    let text = "@e1 = {1,0,8}\n4 @e1 c4\n";
    assert!(!note_comes_first(&play(text, &ConversionOptions::default())));
    let o = options("envelope_map:\n  emit_initial_cc_before_note_on: false\n");
    assert!(note_comes_first(&play(text, &o)));
    assert!(!note_comes_first(&play("@e1 = {1,0,8}\n1 @1 c4\n", &o)));
}

#[test]
fn notes_can_be_cut_in_place_of_a_controller() {
    let text = "@e1 = {1,0,f:1,8:1,4:1}\n4 v15 @e1 c4\n";
    for (least, pieces) in
        [(1, vec![(0, 127), (120, 68), (240, 34)]), (150, vec![(0, 127), (240, 34)])]
    {
        let o = options(&format!(
            "envelope_map:\n  fallback_modes:\n    split_velocity:\n      enabled: true\n      \
             min_segment_ticks: {least}\n"
        ));
        let events = play(text, &o);
        assert_eq!(note_ons(&events), pieces);
        assert!(values(&events, 11).is_empty());
    }
}

#[test]
fn the_order_at_a_tick_can_be_set() {
    let text = "@e1 = {1,0,8}\n1 @1 c4 d4\n";
    assert!(!note_comes_first(&play(text, &ConversionOptions::default())));
    let o = options("smf:\n  event_order: [note_off, note_on, initial_expression, sparks]\n");
    let events = play(text, &o);
    assert!(note_comes_first(&events));
    let at: Vec<bool> = events
        .iter()
        .filter(|e| e.abs_tick == 3600)
        .filter_map(|e| match e.kind {
            RenderedEventKind::NoteOff { .. } => Some(false),
            RenderedEventKind::NoteOn { .. } => Some(true),
            _ => None,
        })
        .collect();
    assert_eq!(at, [false, true]);
    let usual = options(
        "smf:\n  event_order: [note_off, bank_select, program_change, rpn_nrpn, cc, pitch_bend, \
         initial_expression, meta, note_on, envelope_curve]\n",
    );
    assert_eq!(
        format!("{:?}", play(text, &usual)),
        format!("{:?}", play(text, &ConversionOptions::default()))
    );
}

#[test]
fn settings_that_do_not_count_are_reported() {
    for (yaml, name) in [
        ("tone_map:\n  defaults:\n    on_unmapped: error\n", "tone_map.defaults.on_unmapped"),
        (
            "tone_map:\n  defaults:\n    emit_before_next_note: false\n",
            "tone_map.defaults.emit_before_next_note",
        ),
        (
            "psg_envelope_map:\n  default:\n    volume_scale:\n      curve: cubic\n",
            "psg_envelope_map.default.volume_scale.curve",
        ),
        (
            "psg_envelope_map:\n  default:\n    trigger:\n      on_at_command: restart\n",
            "psg_envelope_map.default.trigger.on_at_command",
        ),
        (
            "envelope_map:\n  trigger:\n    on_note_on: go_on\n",
            "envelope_map.trigger.on_note_on",
        ),
        ("at_command_dispatch:\n  psg: tone_map\n", "at_command_dispatch"),
        ("diagnostics:\n  sections: [warnings]\n", "diagnostics"),
        ("family_defaults:\n  psg: [\"1\"]\n", "family_defaults"),
        (
            "tracks:\n  \"1\":\n    source_family: psg\n    at_command_policy: tone_map\n",
            "tracks.at_command_policy",
        ),
        (
            "envelope_side_effects:\n  tone_change_inside_envelope:\n    allow_cc: false\n",
            "envelope_side_effects.tone_change_inside_envelope",
        ),
        (
            "psg_envelope_map:\n  default:\n    mode_noise_policy:\n      noise_only: report\n",
            "psg_envelope_map.default.mode_noise_policy",
        ),
        ("psg_noise_map:\n  report_mode_noise: false\n", "psg_noise_map.report_mode_noise"),
        (
            "opll_register_map:\n  report:\n    collect_usage: false\n",
            "opll_register_map.report.collect_usage",
        ),
        ("pitch_glide:\n  curve:\n    shape: cubic\n", "pitch_glide.curve.shape"),
    ] {
        let found = warnings("1 c\n", &options(yaml));
        assert_eq!(found, [format!("configuration setting passed over: {name}")]);
    }
    let o = options(
        "tone_map:\n  defaults:\n    on_unmapped: keep_previous_and_warn\n    \
         emit_before_next_note: true\ndiagnostics: {}\nat_command_dispatch: {}\ntracks:\n  \"1\":\n    \
         source_family: psg\n    at_command_policy: psg_envelope\npsg_envelope_map:\n  default:\n    source: mus_definition\n    \
         trigger:\n      on_at_command: select_only\n      on_note_on: restart_envelope\n",
    );
    assert!(warnings("1 c\n", &o).is_empty());
}

#[test]
fn formulas_know_where_they_are() {
    let vars = FormulaVars {
        register: 7,
        data: 10,
        source_step: Some(Quotient { num: 5, den: 2 }),
        midi_tick: Some(480),
        track: Some(9),
        family: Some(3),
        tone: Some(12),
        envelope: Some(4),
    };
    for (text, value) in [
        ("source_step * 4", 10),
        ("midi_tick + 1", 481),
        ("track", 9),
        ("family", 3),
        ("tone", 12),
        ("envelope", 4),
        ("data * register", 70),
    ] {
        assert_eq!(evaluate_formula(text, vars), Some(value), "{text}");
        let known = text.starts_with("data");
        assert_eq!(
            evaluate_formula(text, FormulaVars::of_write(7, 10)).is_some(),
            known,
            "{text}"
        );
    }
}

fn ruled(formula: &str) -> ConversionOptions {
    options(&format!(
        "opll_register_map:\n  default_policy: apply_rules\n  rules:\n    - name: r\n      \
         enabled: true\n      emit:\n        - cc: {{ controller: 74, value: \"expr: {formula}\" }}\n"
    ))
}

#[test]
fn register_rules_know_where_they_are() {
    for (formula, text, value) in [
        ("source_step", "9 c4 y2,5 d4\n", 48),
        ("midi_tick / 100", "9 c4 y2,5 d4\n", 36),
        ("track", "9 y2,5 c4\n", 9),
        ("track", "a y2,5 c4\n", 10),
        ("family", "9 y2,5 c4\n", 3),
        ("tone", "9 @3 y2,5 c4\n", 3),
        ("envelope", "@e7 = {1,0,f}\n9 @e7 y2,5 c4\n", 7),
        ("envelope", "@e7 = {1,0,y2,5,f}\n9 @e7 c4\n", 7),
        ("tone", "@e7 = {1,0,y2,5,f}\n9 @3 @e7 c4\n", 3),
        ("source_step", "@e7 = {1,0,y2,5,f}\n9 @e7 r4 c4\n", 48),
    ] {
        assert_eq!(values(&play(text, &ruled(formula)), 74), [value], "{formula} in {text}");
    }
    for formula in ["tone", "envelope", "volume"] {
        assert!(values(&play("9 y2,5 c4\n", &ruled(formula)), 74).is_empty());
    }
}

#[test]
fn what_was_reported_before_a_failure_stays() {
    let o = options("opll_register_map:\n  default_policy: error\n");
    let text = "@e1 = {1,0,f}\n1 @1 c4 @2 d4\n9 @3 c4 y2,1 d4 y3,1\n";
    let mut song = parse_source(text, &o).unwrap();
    let before = song.diagnostics.parse_warnings.len();
    assert_eq!(
        collect_midi_events(&mut song, &o).unwrap_err(),
        "register write y2,1 rejected on track 9"
    );
    let d = &song.diagnostics;
    assert_eq!(d.parse_warnings.len(), before + 1);
    assert_eq!(d.parse_warnings[before].message, "undefined envelope @e2");
    assert_eq!(d.track_summaries.len(), 1);
    assert_eq!(d.register_write_usage.len(), 1);
    assert_eq!(song.tracks.len(), 2);
    let mut wide = ConversionOptions::default();
    wide.ppq = 40000;
    let mut song = parse_source("1 c4\n", &wide).unwrap();
    assert!(render_smf(&mut song, &wide).is_err());
    assert_eq!(song.diagnostics.track_summaries.len(), 1);
}
