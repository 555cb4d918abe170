use mgs2smf::ir::{ConversionOptions, SongIr};
use mgs2smf::parser::parse_source;
use mgs2smf::render::file::write_file;
use mgs2smf::render::{render_smf, RenderedEvent, RenderedEventKind};

fn event(track_index: usize, abs_tick: u64, kind: RenderedEventKind) -> RenderedEvent {
    RenderedEvent { track_index, abs_tick, priority: 0, kind }
}

fn song(text: &str, options: &ConversionOptions) -> SongIr {
    parse_source(text, options).unwrap()
}

#[test]
fn events_are_written_with_the_times_between_them() {
    let events = vec![
        event(0, 0, RenderedEventKind::Tempo { bpm: 120 }),
        event(1, 0, RenderedEventKind::NoteOn { channel: 2, note: 60, velocity: 100 }),
        event(1, 200, RenderedEventKind::NoteOff { channel: 2, note: 60, velocity: 0 }),
        event(0, 300, RenderedEventKind::Text("hé".to_string())),
        event(1, 16584, RenderedEventKind::PitchBend { channel: 2, value: 300 }),
    ];
    let bytes = write_file(&events, 1, 2, 480).unwrap();
    let mut expected = b"MThd\x00\x00\x00\x06\x00\x01\x00\x02\x01\xe0".to_vec();
    expected.extend(b"MTrk\x00\x00\x00\x13");
    expected.extend(b"\x00\xff\x51\x03\x07\xa1\x20");
    expected.extend(b"\x82\x2c\xff\x01\x03h\xc3\xa9");
    expected.extend(b"\x00\xff\x2f\x00");
    expected.extend(b"MTrk\x00\x00\x00\x13");
    expected.extend(b"\x00\x92\x3c\x64");
    expected.extend(b"\x81\x48\x82\x3c\x00");
    expected.extend(b"\x81\x80\x00\xe2\x2c\x02");
    expected.extend(b"\x00\xff\x2f\x00");
    assert_eq!(bytes, expected);
}

#[test]
fn every_kind_of_event_has_its_bytes() {
    let events = vec![
        event(0, 0, RenderedEventKind::TrackName("a".to_string())),
        event(
            0,
            0,
            RenderedEventKind::TimeSignature {
                numerator: 4,
                denominator_power: 2,
                clocks_per_metronome: 24,
                thirty_seconds_per_quarter: 8,
            },
        ),
        event(0, 0, RenderedEventKind::KeySignature { sharps_flats: -1, minor: true }),
        event(0, 0, RenderedEventKind::MidiPort { port: 1 }),
        event(0, 0, RenderedEventKind::Marker { text: "m".to_string() }),
        event(0, 0, RenderedEventKind::ProgramChange { channel: 9, program: 40 }),
        event(0, 0, RenderedEventKind::ControlChange { channel: 0, controller: 7, value: 99 }),
    ];
    let bytes = write_file(&events, 0, 1, 96).unwrap();
    let mut expected = b"MThd\x00\x00\x00\x06\x00\x00\x00\x01\x00\x60MTrk\x00\x00\x00".to_vec();
    let mut data = b"\x00\xff\x03\x01a".to_vec();
    data.extend(b"\x00\xff\x58\x04\x04\x02\x18\x08");
    data.extend(b"\x00\xff\x59\x02\xff\x01");
    data.extend(b"\x00\xff\x21\x01\x01");
    data.extend(b"\x00\xff\x06\x01m");
    data.extend(b"\x00\xc9\x28");
    data.extend(b"\x00\xb0\x07\x63");
    data.extend(b"\x00\xff\x2f\x00");
    expected.push(data.len() as u8);
    expected.extend(data);
    assert_eq!(bytes, expected);
}

#[test]
fn times_too_far_apart_cannot_be_written() {
    let far = vec![event(0, 0x1000_0000, RenderedEventKind::MidiPort { port: 0 })];
    assert!(write_file(&far, 0, 1, 480).is_none());
    let near = vec![event(0, 0xfff_ffff, RenderedEventKind::MidiPort { port: 0 })];
    let bytes = write_file(&near, 0, 1, 480).unwrap();
    assert_eq!(bytes[22..26].to_vec(), b"\xff\xff\xff\x7f".to_vec());
}

#[test]
fn a_song_becomes_one_track_for_each_of_its_own() {
    let options = ConversionOptions::default();
    let mut one = song("1 c\n2 e\n", &options);
    let bytes = render_smf(&mut one, &options).unwrap();
    assert_eq!(bytes[0..14].to_vec(), b"MThd\x00\x00\x00\x06\x00\x01\x00\x03\x0e\x10".to_vec());
    assert_eq!(bytes.windows(4).filter(|w| *w == b"MTrk").count(), 3);
}

#[test]
fn resolutions_out_of_range_are_refused() {
    let mut options = ConversionOptions::default();
    let mut first = song("1 c\n", &options);
    options.ppq = 0;
    assert_eq!(
        render_smf(&mut first, &options),
        Err("PPQ must be positive".to_string())
    );
    options.ppq = 40000;
    let mut second = song("1 c\n", &options);
    assert_eq!(
        render_smf(&mut second, &options),
        Err("PPQ must be at most 32767 in a MIDI file".to_string())
    );
}
