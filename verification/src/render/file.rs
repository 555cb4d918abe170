//! Standard MIDI files.

use vstd::prelude::*;
use vstd::utf8::encode_utf8;

use crate::render::events::{KindView, RenderedEvent, RenderedEventKind, RenderedEventView};
use crate::render::requests;
use crate::render::requests::{split_sevens, to_data_byte};
use crate::text;
use crate::views;

verus! {

// ---------------------------------------------------------------------------
// Numbers
// ---------------------------------------------------------------------------
/// The leading bytes of a number in groups of seven bits.
pub open spec fn leading_groups(n: nat) -> Seq<u8>
    decreases n,
{
    if n == 0 {
        Seq::empty()
    } else {
        leading_groups(n / 128).push((n % 128 + 128) as u8)
    }
}

/// A number of variable length: groups of seven bits, all but the last marked.
pub open spec fn variable_length(n: nat) -> Seq<u8> {
    leading_groups(n / 128).push((n % 128) as u8)
}

/// The number that groups of seven bits stand for.
pub open spec fn groups_value(bytes: Seq<u8>) -> nat
    decreases bytes.len(),
{
    if bytes.len() == 0 {
        0
    } else {
        groups_value(bytes.drop_last()) * 128 + bytes.last() as nat % 128
    }
}

proof fn leading_groups_read_back(n: nat)
    ensures
        groups_value(leading_groups(n)) == n,
        forall|i: int| 0 <= i < leading_groups(n).len() ==> leading_groups(n)[i] >= 128,
    decreases n,
{
    if n > 0 {
        leading_groups_read_back(n / 128);
        let s = leading_groups(n / 128);
        let b = (n % 128 + 128) as u8;
        assert(s.push(b).drop_last() =~= s);
    }
}

/// A number of variable length reads back as the number, and its last byte alone
/// is unmarked.
pub proof fn variable_length_reads_back(n: nat)
    ensures
        groups_value(variable_length(n)) == n,
        variable_length(n).last() < 128,
        forall|i: int|
            0 <= i < variable_length(n).len() - 1 ==> variable_length(n)[i] >= 128,
{
    leading_groups_read_back(n / 128);
    let s = leading_groups(n / 128);
    let b = (n % 128) as u8;
    assert(s.push(b).drop_last() =~= s);
}

/// The lowest `count` bytes of a number, the highest first.
pub open spec fn big_endian(n: nat, count: nat) -> Seq<u8>
    decreases count,
{
    if count == 0 {
        Seq::empty()
    } else {
        big_endian(n / 256, (count - 1) as nat).push((n % 256) as u8)
    }
}

fn push_leading(out: &mut Vec<u8>, n: u64)
    ensures
        final(out)@ == old(out)@ + leading_groups(n as nat),
    decreases n,
{
    if n > 0 {
        push_leading(out, n / 128);
        out.push((n % 128 + 128) as u8);
    }
    assert(out@ =~= old(out)@ + leading_groups(n as nat));
}

fn push_variable(out: &mut Vec<u8>, n: u64)
    ensures
        final(out)@ == old(out)@ + variable_length(n as nat),
{
    push_leading(out, n / 128);
    out.push((n % 128) as u8);
    assert(out@ =~= old(out)@ + variable_length(n as nat));
}

fn push_big_endian(out: &mut Vec<u8>, n: u64, count: u8)
    ensures
        final(out)@ == old(out)@ + big_endian(n as nat, count as nat),
    decreases count,
{
    if count > 0 {
        push_big_endian(out, n / 256, count - 1);
        out.push((n % 256) as u8);
    }
    assert(out@ =~= old(out)@ + big_endian(n as nat, count as nat));
}

fn push_bytes(out: &mut Vec<u8>, bytes: &[u8])
    ensures
        final(out)@ == old(out)@ + bytes@,
{
    let mut i: usize = 0;
    assert(bytes@.take(0) =~= Seq::empty());
    assert(out@ + Seq::<u8>::empty() =~= out@);
    while i < bytes.len()
        invariant
            i <= bytes@.len(),
            out@ == old(out)@ + bytes@.take(i as int),
        decreases bytes@.len() - i,
    {
        out.push(bytes[i]);
        assert(old(out)@ + bytes@.take(i + 1) =~= (old(out)@ + bytes@.take(i as int)).push(
            bytes@[i as int],
        ));
        i += 1;
    }
    assert(bytes@.take(i as int) =~= bytes@);
}

// ---------------------------------------------------------------------------
// Events
// ---------------------------------------------------------------------------
/// A channel message with two data bytes.
pub open spec fn channel_message(status: int, channel: u8, a: u8, b: u8) -> Seq<u8> {
    seq![(status + text::min_int(channel as int, 15)) as u8, requests::data_byte(a), requests::data_byte(b)]
}

/// A meta event.
pub open spec fn meta(kind: u8, data: Seq<u8>) -> Seq<u8> {
    seq![0xffu8, kind] + variable_length(data.len()) + data
}

/// The microseconds of a quarter note, in three bytes.
pub open spec fn quarter_length(bpm: u32) -> int {
    text::min_int(
        60_000_000int / if bpm == 0 {
            1int
        } else {
            bpm as int
        },
        0xff_ffff,
    )
}

/// The bytes of an event.
pub open spec fn event_bytes(kind: KindView) -> Seq<u8> {
    match kind {
        KindView::NoteOff { channel, note, velocity } => channel_message(
            0x80,
            channel,
            note,
            velocity,
        ),
        KindView::NoteOn { channel, note, velocity } => channel_message(
            0x90,
            channel,
            note,
            velocity,
        ),
        KindView::ControlChange { channel, controller, value } => channel_message(
            0xb0,
            channel,
            controller,
            value,
        ),
        KindView::ProgramChange { channel, program } => seq![
            (0xc0 + text::min_int(channel as int, 15)) as u8,
            requests::data_byte(program),
        ],
        KindView::PitchBend { channel, value } => channel_message(
            0xe0,
            channel,
            requests::lower_seven(value),
            requests::upper_seven(value),
        ),
        KindView::Tempo { bpm } => meta(0x51, big_endian(quarter_length(bpm) as nat, 3)),
        KindView::TimeSignature {
            numerator,
            denominator_power,
            clocks_per_metronome,
            thirty_seconds_per_quarter,
        } => meta(
            0x58,
            seq![
                numerator,
                denominator_power,
                clocks_per_metronome,
                thirty_seconds_per_quarter,
            ],
        ),
        KindView::KeySignature { sharps_flats, minor } => meta(
            0x59,
            seq![
                if sharps_flats < 0 {
                    (sharps_flats + 256) as u8
                } else {
                    sharps_flats as u8
                },
                if minor {
                    1u8
                } else {
                    0u8
                },
            ],
        ),
        KindView::MidiPort { port } => meta(0x21, seq![requests::data_byte(port)]),
        KindView::TrackName(text) => meta(0x03, encode_utf8(text)),
        KindView::Text(text) => meta(0x01, encode_utf8(text)),
        KindView::Marker { text } => meta(0x06, encode_utf8(text)),
    }
}

fn low_channel(channel: u8) -> (r: u8)
    ensures
        r == text::min_int(channel as int, 15),
        r <= 15,
{
    if channel <= 15 {
        channel
    } else {
        15
    }
}

fn push_message(out: &mut Vec<u8>, status: u8, channel: u8, a: u8, b: u8)
    requires
        0x80 <= status <= 0xf0,
    ensures
        final(out)@ == old(out)@ + channel_message(status as int, channel, a, b),
{
    out.push(status + low_channel(channel));
    out.push(to_data_byte(a));
    out.push(to_data_byte(b));
    assert(out@ =~= old(out)@ + channel_message(status as int, channel, a, b));
}

fn push_meta(out: &mut Vec<u8>, kind: u8, data: &[u8])
    ensures
        final(out)@ == old(out)@ + meta(kind, data@),
{
    out.push(0xff);
    out.push(kind);
    push_variable(out, data.len() as u64);
    push_bytes(out, data);
    assert(out@ =~= old(out)@ + meta(kind, data@));
}

fn push_text(out: &mut Vec<u8>, kind: u8, text: &str)
    ensures
        final(out)@ == old(out)@ + meta(kind, encode_utf8(text@)),
{
    push_meta(out, kind, text.as_bytes());
}

fn push_tempo(out: &mut Vec<u8>, bpm: u32)
    ensures
        final(out)@ == old(out)@ + event_bytes(KindView::Tempo { bpm }),
{
    let divisor: u32 = if bpm == 0 {
        1
    } else {
        bpm
    };
    let length: u32 = 60_000_000 / divisor;
    let length: u64 = if length > 0xff_ffff {
        0xff_ffff
    } else {
        length as u64
    };
    let mut data: Vec<u8> = Vec::new();
    push_big_endian(&mut data, length, 3);
    assert(data@ =~= big_endian(quarter_length(bpm) as nat, 3));
    push_meta(out, 0x51, data.as_slice());
}

fn push_key(out: &mut Vec<u8>, sharps_flats: i8, minor: bool)
    ensures
        final(out)@ == old(out)@ + event_bytes(KindView::KeySignature { sharps_flats, minor }),
{
    let key: i16 = sharps_flats as i16;
    let mut data: Vec<u8> = Vec::new();
    data.push(
        if key < 0 {
            (key + 256) as u8
        } else {
            key as u8
        },
    );
    data.push(
        if minor {
            1
        } else {
            0
        },
    );
    assert(data@ =~= seq![
        if sharps_flats < 0 {
            (sharps_flats + 256) as u8
        } else {
            sharps_flats as u8
        },
        if minor {
            1u8
        } else {
            0u8
        },
    ]);
    push_meta(out, 0x59, data.as_slice());
}

fn push_kind(out: &mut Vec<u8>, kind: &RenderedEventKind)
    ensures
        final(out)@ == old(out)@ + event_bytes(kind.deep_view()),
{
    match kind {
        RenderedEventKind::NoteOff { channel, note, velocity } => {
            push_message(out, 0x80, *channel, *note, *velocity);
        },
        RenderedEventKind::NoteOn { channel, note, velocity } => {
            push_message(out, 0x90, *channel, *note, *velocity);
        },
        RenderedEventKind::ControlChange { channel, controller, value } => {
            push_message(out, 0xb0, *channel, *controller, *value);
        },
        RenderedEventKind::ProgramChange { channel, program } => {
            out.push(0xc0 + low_channel(*channel));
            out.push(to_data_byte(*program));
            assert(out@ =~= old(out)@ + event_bytes(kind.deep_view()));
        },
        RenderedEventKind::PitchBend { channel, value } => {
            let (upper, lower) = split_sevens(*value);
            push_message(out, 0xe0, *channel, lower, upper);
        },
        RenderedEventKind::Tempo { bpm } => {
            push_tempo(out, *bpm);
        },
        RenderedEventKind::TimeSignature {
            numerator,
            denominator_power,
            clocks_per_metronome,
            thirty_seconds_per_quarter,
        } => {
            let mut data: Vec<u8> = Vec::new();
            data.push(*numerator);
            data.push(*denominator_power);
            data.push(*clocks_per_metronome);
            data.push(*thirty_seconds_per_quarter);
            assert(data@ =~= seq![
                *numerator,
                *denominator_power,
                *clocks_per_metronome,
                *thirty_seconds_per_quarter,
            ]);
            push_meta(out, 0x58, data.as_slice());
        },
        RenderedEventKind::KeySignature { sharps_flats, minor } => {
            push_key(out, *sharps_flats, *minor);
        },
        RenderedEventKind::MidiPort { port } => {
            let mut data: Vec<u8> = Vec::new();
            data.push(to_data_byte(*port));
            assert(data@ =~= seq![requests::data_byte(*port)]);
            push_meta(out, 0x21, data.as_slice());
        },
        RenderedEventKind::TrackName(text) => {
            push_text(out, 0x03, text.as_str());
        },
        RenderedEventKind::Text(text) => {
            push_text(out, 0x01, text.as_str());
        },
        RenderedEventKind::Marker { text } => {
            push_text(out, 0x06, text.as_str());
        },
    }
}

// ---------------------------------------------------------------------------
// Tracks
// ---------------------------------------------------------------------------
/// A track as it is written: its bytes so far and the tick that they lead to.
#[verifier::ext_equal]
pub struct Written {
    pub bytes: Seq<u8>,
    pub tick: u64,
}

/// The events of a track among the first `n`; all events where no track is named.
/// A time that four bytes cannot hold cannot be written.
pub open spec fn written(events: Seq<RenderedEventView>, n: int, track: Option<usize>) -> Option<
    Written,
>
    decreases n,
{
    if n <= 0 || n > events.len() {
        Some(Written { bytes: Seq::empty(), tick: 0 })
    } else {
        match written(events, n - 1, track) {
            None => None,
            Some(w) => {
                let e = events[n - 1];
                if track is Some && track != Some(e.track_index) {
                    Some(w)
                } else {
                    let time = if e.abs_tick > w.tick {
                        e.abs_tick - w.tick
                    } else {
                        0
                    };
                    if time > 0xfff_ffff {
                        None
                    } else {
                        Some(
                            Written {
                                bytes: w.bytes + variable_length(time as nat) + event_bytes(e.kind),
                                tick: (w.tick + time) as u64,
                            },
                        )
                    }
                }
            },
        }
    }
}

proof fn unwritten_stays(events: Seq<RenderedEventView>, n: int, m: int, track: Option<usize>)
    requires
        0 <= n <= m <= events.len(),
        written(events, n, track) is None,
    ensures
        written(events, m, track) is None,
    decreases m,
{
    if n < m {
        unwritten_stays(events, n, m - 1, track);
    }
}

/// The chunk of a track, with the event that ends it.
pub open spec fn track_chunk(events: Seq<RenderedEventView>, track: Option<usize>) -> Option<Seq<u8>> {
    match written(events, events.len() as int, track) {
        None => None,
        Some(w) => {
            let data = w.bytes + seq![0u8, 0xff, 0x2f, 0];
            if data.len() > u32::MAX {
                None
            } else {
                Some(seq![0x4du8, 0x54, 0x72, 0x6b] + big_endian(data.len(), 4) + data)
            }
        },
    }
}

/// The chunks of the first `n` tracks.
pub open spec fn track_chunks(events: Seq<RenderedEventView>, n: int) -> Option<Seq<u8>>
    decreases n,
{
    if n <= 0 {
        Some(Seq::empty())
    } else {
        match track_chunks(events, n - 1) {
            None => None,
            Some(before) => match track_chunk(events, Some((n - 1) as usize)) {
                None => None,
                Some(chunk) => Some(before + chunk),
            },
        }
    }
}

/// The header of a file.
pub open spec fn header(smf_type: u16, tracks: int, ppq: u16) -> Seq<u8> {
    seq![0x4du8, 0x54, 0x68, 0x64] + big_endian(6, 4) + big_endian(smf_type as nat, 2)
        + big_endian(tracks as nat, 2) + big_endian(ppq as nat, 2)
}

/// A file with events in play order: type 0 has one track, type 1 as many as are
/// asked for.
pub open spec fn file_bytes(
    events: Seq<RenderedEventView>,
    smf_type: u16,
    tracks: int,
    ppq: u16,
) -> Option<Seq<u8>> {
    if smf_type == 0 {
        match track_chunk(events, None) {
            Some(chunk) => Some(header(0, 1, ppq) + chunk),
            None => None,
        }
    } else {
        match track_chunks(events, tracks) {
            Some(chunks) => Some(header(1, tracks, ppq) + chunks),
            None => None,
        }
    }
}

fn write_track(events: &[RenderedEvent], track: Option<usize>) -> (r: Option<Vec<u8>>)
    ensures
        match written(views::all_views(events@), events@.len() as int, track) {
            Some(w) => r matches Some(v) && v@ == w.bytes,
            None => r is None,
        },
{
    let ghost all = views::all_views(events@);
    let mut out: Vec<u8> = Vec::new();
    let mut tick: u64 = 0;
    let mut i: usize = 0;
    while i < events.len()
        invariant
            i <= events@.len(),
            all == views::all_views(events@),
            written(all, i as int, track) == Some(Written { bytes: out@, tick }),
        decreases events@.len() - i,
    {
        let e = &events[i];
        assert(all[i as int] == e.deep_view());
        let wanted = match track {
            Some(t) => t == e.track_index,
            None => true,
        };
        if wanted {
            let time: u64 = if e.abs_tick > tick {
                e.abs_tick - tick
            } else {
                0
            };
            if time > 0xfff_ffff {
                proof {
                    unwritten_stays(all, i + 1, all.len() as int, track);
                }
                return None;
            }
            push_variable(&mut out, time);
            push_kind(&mut out, &e.kind);
            tick = tick + time;
        }
        i += 1;
    }
    Some(out)
}

fn push_track_chunk(out: &mut Vec<u8>, events: &[RenderedEvent], track: Option<usize>) -> (r: bool)
    ensures
        match track_chunk(views::all_views(events@), track) {
            Some(chunk) => r && final(out)@ == old(out)@ + chunk,
            None => !r,
        },
{
    let mut data = match write_track(events, track) {
        Some(data) => data,
        None => {
            return false;
        },
    };
    let ghost bytes = data@;
    data.push(0);
    data.push(0xff);
    data.push(0x2f);
    data.push(0);
    assert(data@ =~= bytes + seq![0u8, 0xff, 0x2f, 0]);
    if data.len() as u64 > 0xffff_ffff {
        return false;
    }
    out.push(0x4d);
    out.push(0x54);
    out.push(0x72);
    out.push(0x6b);
    push_big_endian(out, data.len() as u64, 4);
    push_bytes(out, data.as_slice());
    assert(out@ =~= old(out)@ + (seq![0x4du8, 0x54, 0x72, 0x6b] + big_endian(data@.len(), 4)
        + data@));
    true
}

fn push_header(out: &mut Vec<u8>, smf_type: u16, tracks: u16, ppq: u16)
    ensures
        final(out)@ == old(out)@ + header(smf_type, tracks as int, ppq),
{
    out.push(0x4d);
    out.push(0x54);
    out.push(0x68);
    out.push(0x64);
    push_big_endian(out, 6, 4);
    push_big_endian(out, smf_type as u64, 2);
    push_big_endian(out, tracks as u64, 2);
    push_big_endian(out, ppq as u64, 2);
    assert(out@ =~= old(out)@ + header(smf_type, tracks as int, ppq));
}

proof fn missing_chunk_stays(events: Seq<RenderedEventView>, n: int, m: int)
    requires
        0 <= n <= m,
        track_chunks(events, n) is None,
    ensures
        track_chunks(events, m) is None,
    decreases m,
{
    if n < m {
        missing_chunk_stays(events, n, m - 1);
    }
}

/// Writes a file with events in play order; `None` where a time or a track is too
/// long for one.
pub fn write_file(events: &[RenderedEvent], smf_type: u16, tracks: u16, ppq: u16) -> (r: Option<
    Vec<u8>,
>)
    ensures
        match file_bytes(views::all_views(events@), smf_type, tracks as int, ppq) {
            Some(bytes) => r matches Some(v) && v@ == bytes,
            None => r is None,
        },
{
    let ghost all = views::all_views(events@);
    let mut out: Vec<u8> = Vec::new();
    if smf_type == 0 {
        push_header(&mut out, 0, 1, ppq);
        assert(Seq::<u8>::empty() + header(0, 1, ppq) =~= header(0, 1, ppq));
        return if push_track_chunk(&mut out, events, None) {
            Some(out)
        } else {
            None
        };
    }
    push_header(&mut out, 1, tracks, ppq);
    let ghost head = header(1, tracks as int, ppq);
    assert(out@ =~= head + Seq::<u8>::empty());
    let mut i: u16 = 0;
    while i < tracks
        invariant
            i <= tracks,
            smf_type != 0,
            all == views::all_views(events@),
            track_chunks(all, i as int) matches Some(before) && out@ == head + before,
        decreases tracks - i,
    {
        let ghost before = track_chunks(all, i as int)->0;
        if !push_track_chunk(&mut out, events, Some(i as usize)) {
            proof {
                missing_chunk_stays(all, i + 1, tracks as int);
            }
            return None;
        }
        proof {
            let chunk = track_chunk(all, Some(i as usize))->0;
            assert(head + before + chunk =~= head + (before + chunk));
        }
        i += 1;
    }
    Some(out)
}

/// A channel message begins with a status byte and goes on with data bytes alone.
pub proof fn channel_messages_are_framed(status: int, channel: u8, a: u8, b: u8)
    requires
        0x80 <= status <= 0xf0,
    ensures
        ({
            let m = channel_message(status, channel, a, b);
            m.len() == 3 && m[0] >= 0x80 && m[1] < 0x80 && m[2] < 0x80
        }),
{
}

proof fn big_endian_length(n: nat, count: nat)
    ensures
        big_endian(n, count).len() == count,
    decreases count,
{
    if count > 0 {
        big_endian_length(n / 256, (count - 1) as nat);
    }
}

/// The header of a file has fourteen bytes.
pub proof fn header_has_its_length(smf_type: u16, tracks: int, ppq: u16)
    ensures
        header(smf_type, tracks, ppq).len() == 14,
{
    big_endian_length(6, 4);
    big_endian_length(smf_type as nat, 2);
    big_endian_length(tracks as nat, 2);
    big_endian_length(ppq as nat, 2);
}

/// The number that bytes stand for, the highest first.
pub open spec fn bytes_value(bytes: Seq<u8>) -> nat
    decreases bytes.len(),
{
    if bytes.len() == 0 {
        0
    } else {
        bytes_value(bytes.drop_last()) * 256 + bytes.last() as nat
    }
}

/// How many numbers fit into so many bytes.
pub open spec fn byte_range(count: nat) -> nat
    decreases count,
{
    if count == 0 {
        1
    } else {
        256 * byte_range((count - 1) as nat)
    }
}

/// A number that fits into its bytes reads back from them.
pub proof fn big_endian_reads_back(n: nat, count: nat)
    requires
        n < byte_range(count),
    ensures
        bytes_value(big_endian(n, count)) == n,
    decreases count,
{
    if count > 0 {
        let less = (count - 1) as nat;
        big_endian_reads_back(n / 256, less);
        let s = big_endian(n / 256, less);
        assert(s.push((n % 256) as u8).drop_last() =~= s);
    }
}

/// The tick of the last event of a track among the first `n`.
pub open spec fn last_tick(events: Seq<RenderedEventView>, n: int, track: Option<usize>) -> u64
    decreases n,
{
    if n <= 0 || n > events.len() {
        0
    } else if track is Some && track != Some(events[n - 1].track_index) {
        last_tick(events, n - 1, track)
    } else {
        events[n - 1].abs_tick
    }
}

/// Events whose ticks do not run back.
pub open spec fn ticks_go_on(events: Seq<RenderedEventView>) -> bool {
    forall|i: int, j: int|
        0 <= i < j < events.len() ==> (#[trigger] events[i]).abs_tick <= (
        #[trigger] events[j]).abs_tick
}

proof fn last_tick_bound(events: Seq<RenderedEventView>, n: int, k: int, track: Option<usize>)
    requires
        ticks_go_on(events),
        n <= k < events.len(),
    ensures
        last_tick(events, n, track) <= events[k].abs_tick,
    decreases n,
{
    if 0 < n {
        last_tick_bound(events, n - 1, k, track);
        assert(events[n - 1].abs_tick <= events[k].abs_tick);
    }
}

/// The times between the events of a track add up to the tick of each event.
pub proof fn times_add_up(events: Seq<RenderedEventView>, n: int, track: Option<usize>)
    requires
        ticks_go_on(events),
        0 <= n <= events.len(),
        written(events, n, track) is Some,
    ensures
        written(events, n, track)->0.tick == last_tick(events, n, track),
    decreases n,
{
    if n > 0 {
        times_add_up(events, n - 1, track);
        last_tick_bound(events, n - 1, n - 1, track);
    }
}

} // verus!
