use mgs2smf::ir::{
    ChannelOverflowPolicy, ConversionOptions, IrEvent, LoopMarkerKind, Rational, SmfRequest,
    TrackIr, TrackKind,
};
use mgs2smf::parser::loops::extend_infinite_loops_to_common_horizon;
use mgs2smf::parser::parse_source;
use mgs2smf::render::{collect_midi_events, RenderedEvent, RenderedEventKind};

fn options(yaml: &str) -> ConversionOptions {
    let mut options = ConversionOptions::default();
    options.smfmap.merge_yaml_str(yaml).unwrap();
    options
}

fn play(text: &str, options: &ConversionOptions) -> Vec<RenderedEvent> {
    let mut song = parse_source(text, options).unwrap();
    collect_midi_events(&mut song, options).unwrap()
}

fn refused(text: &str, options: &ConversionOptions) -> String {
    let mut song = parse_source(text, options).unwrap();
    collect_midi_events(&mut song, options).unwrap_err()
}

fn unread(text: &str) -> String {
    parse_source(text, &ConversionOptions::default()).unwrap_err()
}

fn notes(text: &str) -> Vec<(u8, u8)> {
    play(text, &ConversionOptions::default())
        .iter()
        .filter_map(|e| match e.kind {
            RenderedEventKind::NoteOn { note, velocity, .. } => Some((note, velocity)),
            _ => None,
        })
        .collect()
}

#[test]
fn every_note_that_begins_ends() {
    let text = "@e1 = {0,f:2,8,4}\n1 [0 @1 c v9 e&e f16.r8]\n4 @e1 g_>c4 a\n9 [3 c | d]\n";
    let mut with_glides = options("pitch_glide:\n  enabled: true\n");
    with_glides.envelope_mode = mgs2smf::ir::EnvelopeMode::SplitVelocity;
    for o in [ConversionOptions::default(), with_glides] {
        let events = play(text, &o);
        let mut sounding: Vec<(usize, u8, u8)> = Vec::new();
        for e in &events {
            match e.kind {
                RenderedEventKind::NoteOn { channel, note, .. } => {
                    sounding.push((e.track_index, channel, note))
                }
                RenderedEventKind::NoteOff { channel, note, .. } => {
                    let key = (e.track_index, channel, note);
                    let k = sounding.iter().position(|v| *v == key).unwrap();
                    sounding.remove(k);
                }
                _ => {}
            }
        }
        assert!(sounding.is_empty());
        assert!(events.windows(2).all(|w| w[0].abs_tick <= w[1].abs_tick));
    }
}

#[test]
fn events_of_one_tick_stand_in_order() {
    let o = ConversionOptions::default();
    let events = play(
        "1 c ;@smf text x\n1 ;@smf pb 100\n1 ;@smf rpn 0 0 256\n1 ;@smf cc 7 9\n1 ;@smf pc 3\n\
         1 ;@smf bank 1 2\n1 d\n",
        &o,
    );
    let kinds: Vec<u8> = events
        .iter()
        .filter(|e| e.track_index == 1 && e.abs_tick == 3600)
        .map(|e| match e.kind {
            RenderedEventKind::NoteOff { .. } => 0,
            RenderedEventKind::ControlChange { controller: 0 | 32, .. } => 1,
            RenderedEventKind::ProgramChange { .. } => 2,
            RenderedEventKind::ControlChange { controller: 7, .. } => 4,
            RenderedEventKind::ControlChange { .. } => 3,
            RenderedEventKind::PitchBend { .. } => 5,
            RenderedEventKind::Text(_) => 6,
            RenderedEventKind::NoteOn { .. } => 7,
            _ => 99,
        })
        .collect();
    assert_eq!(kinds, vec![0, 1, 1, 2, 3, 3, 3, 3, 4, 5, 6, 7]);
}

#[test]
fn notes_out_of_range_are_skipped() {
    let mut song = parse_source("1 o20 c o4 c v15 d\n", &ConversionOptions::default()).unwrap();
    let played: Vec<u8> = song.tracks[0]
        .events
        .iter()
        .filter_map(|e| match e {
            IrEvent::Note { note, .. } => Some(*note),
            _ => None,
        })
        .collect();
    assert_eq!(played, vec![60, 62]);
    assert_eq!(
        song.diagnostics.parse_warnings[0].message,
        "MIDI note out of range and skipped: 252"
    );
    assert_eq!(song.tracks[0].length_steps, Rational { num: 144, den: 1 });
    collect_midi_events(&mut song, &ConversionOptions::default()).unwrap();
    assert_eq!(notes("1 v15 c v8 d v0 e\n"), vec![(60, 127), (62, 68), (64, 1)]);
}

#[test]
fn sources_that_cannot_be_read_are_refused() {
    assert_eq!(unread("1 [2 c\n"), "unterminated loop at line 1");
    assert_eq!(
        unread("*1 = {*1}\n1 *1\n"),
        "macro/loop expansion exceeded depth at line 2"
    );
    assert_eq!(unread("1 *3\n"), "undefined macro *3 (effective *3) at line 1");
    assert_eq!(
        unread("#macro_offset -5\n1 *3\n"),
        "macro id out of range after #macro_offset: *3 + -5 at line 2"
    );
}

#[test]
fn songs_that_cannot_be_played_are_refused() {
    assert_eq!(
        refused("1 y7,56 c\n", &options("opll_register_map:\n  default_policy: error\n")),
        "register write y7,56 rejected on track 1"
    );
    assert_eq!(
        refused(
            "1 c ;@smf macro a\n",
            &options("smf_macros:\n  a:\n    events:\n      - macro: { name: a }\n"),
        ),
        "SMF macros are nested too deeply: a"
    );
    let narrow = options(
        "pitch_glide:\n  enabled: true\n  pitch_bend_range_semitones: 2\n  \
         range_policy: error_if_exceeded\n",
    );
    assert_eq!(
        refused("1 o4 c_>c4\n", &narrow),
        "pitch_glide range exceeded on track 1: _>c4 requires 1200 cents, configured range is 200 \
         cents"
    );
}

#[test]
fn loops_end_with_the_longest_track() {
    let o = ConversionOptions::default();
    let song = parse_source("1 [0 c4]\n2 [0 c4d4]\n3 c1c1\n", &o).unwrap();
    for track in &song.tracks {
        assert_eq!(track.length_steps, Rational { num: 384, den: 1 });
    }
    let starts = |i: usize| -> Vec<i64> {
        song.tracks[i]
            .events
            .iter()
            .filter_map(|e| match e {
                IrEvent::Note { start_steps, .. } => Some(start_steps.num),
                _ => None,
            })
            .collect()
    };
    assert_eq!(starts(0), vec![0, 48, 96, 144, 192, 240, 288, 336]);
    assert_eq!(starts(2), vec![0, 192]);
}

#[test]
fn only_loops_are_played_on() {
    let marker = |at: i64, kind: LoopMarkerKind| IrEvent::LoopMarker {
        at_steps: Rational { num: at, den: 1 },
        kind,
    };
    let mut looped = TrackIr::new_with_kind("1".to_string(), TrackKind::Melodic);
    looped.events = vec![
        marker(0, LoopMarkerKind::Start),
        IrEvent::Rest {
            start_steps: Rational { num: 0, den: 1 },
            duration_steps: Rational { num: 10, den: 1 },
        },
        marker(10, LoopMarkerKind::End),
    ];
    looped.length_steps = Rational { num: 10, den: 1 };
    let mut plain = TrackIr::new_with_kind("2".to_string(), TrackKind::Melodic);
    plain.length_steps = Rational { num: 25, den: 1 };
    let tracks = extend_infinite_loops_to_common_horizon(vec![looped, plain], None).unwrap();
    assert_eq!(tracks[0].length_steps, Rational { num: 25, den: 1 });
    assert_eq!(tracks[0].events.len(), 5);
    assert_eq!(
        tracks[0].events[4],
        IrEvent::Rest {
            start_steps: Rational { num: 20, den: 1 },
            duration_steps: Rational { num: 5, den: 1 },
        }
    );
    assert!(tracks[1].events.is_empty());
}

#[test]
fn channels_do_not_collide() {
    let o = options("tracks:\n  \"2\": { midi_channel: 0 }\n");
    let mut song = parse_source("1 c\n2 c\n3 c\n", &o).unwrap();
    collect_midi_events(&mut song, &o).unwrap();
    let given: Vec<u8> =
        song.diagnostics.channel_allocations.iter().map(|a| a.midi_channel).collect();
    assert_eq!(given, vec![1, 0, 2]);

    let many = "123456789abcdefgh c\n";
    let mut shared = ConversionOptions::default();
    assert_eq!(
        refused(many, &shared),
        "MIDI channel overflow: no channel is left for track h"
    );
    shared.channel_overflow = ChannelOverflowPolicy::Shared;
    assert!(!play(many, &shared).is_empty());
}

#[test]
fn psg_numbers_change_no_program() {
    let mut o = ConversionOptions::default();
    o.tone_policy = mgs2smf::ir::TonePolicy::GmProgram;
    let events = play("1 @3 c\n4 @3 c\n", &o);
    let programs: Vec<(usize, u8)> = events
        .iter()
        .filter_map(|e| match e.kind {
            RenderedEventKind::ProgramChange { program, .. } => Some((e.track_index, program)),
            _ => None,
        })
        .collect();
    assert_eq!(programs, vec![(2, 73)]);
}

#[test]
fn ignored_register_writes_play_nothing() {
    for policy in ["ignore_silently", "ignore_and_report"] {
        let o = options(&format!("opll_register_map:\n  default_policy: {policy}\n"));
        let with = play("9 y14,32 c\n", &o);
        let without = play("9 c\n", &o);
        assert_eq!(with, without);
    }
}

#[test]
fn requests_are_read() {
    let song = parse_source(
        "1 ;@smf pc 5\n1 ;@smf bank 1 2\n1 ;@smf cc 7 100\n1 ;@smf pb -100\n\
         1 ;@smf nrpn 1 8 300\n1 ;@smf marker \"a b\"\n1 ;@smf text x\n1 ;@smf macro m\n1 ;@smf reset\n",
        &ConversionOptions::default(),
    )
    .unwrap();
    let requests: Vec<SmfRequest> = song.tracks[0]
        .events
        .iter()
        .filter_map(|e| match e {
            IrEvent::ManualSmf { request, .. } => Some(request.clone()),
            _ => None,
        })
        .collect();
    assert_eq!(
        requests,
        vec![
            SmfRequest::Pc { program: 5 },
            SmfRequest::Bank { msb: 1, lsb: 2 },
            SmfRequest::Cc { controller: 7, value: 100 },
            SmfRequest::PitchBend { value: -100 },
            SmfRequest::Nrpn { msb: 1, lsb: 8, value: 300 },
            SmfRequest::Marker { text: "a b".to_string() },
            SmfRequest::Text { text: "x".to_string() },
            SmfRequest::Macro { name: "m".to_string() },
            SmfRequest::Reset { name: None },
        ]
    );
}

#[test]
fn bends_reach_their_targets() {
    let o = options(
        "pitch_glide:\n  enabled: true\n  pitch_bend_range_semitones: 12\n  \
         curve: { event_rate_hz: 4 }\n",
    );
    let bends: Vec<u16> = play("1 t120 o4 c_>c%48\n", &o)
        .iter()
        .filter_map(|e| match e.kind {
            RenderedEventKind::PitchBend { value, .. } => Some(value),
            _ => None,
        })
        .collect();
    assert!(bends.contains(&8192));
    assert!(bends.contains(&12288));
    assert!(bends.contains(&16383));
    let rising: Vec<u16> = bends.iter().copied().skip_while(|v| *v == 8192).collect();
    let top = rising.iter().position(|v| *v == 16383).unwrap();
    assert!(rising[..=top].windows(2).all(|w| w[0] <= w[1]));
}
