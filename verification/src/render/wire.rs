//! What the bytes of a MIDI file mean.

use vstd::prelude::*;
use vstd::utf8::*;

use crate::render::events::{KindView, RenderedEventView};
use crate::render::file;

verus! {

/// A message of two data bytes for a channel: the upper half of its first byte says
/// what it does, the lower half the channel.
pub open spec fn is_message(bytes: Seq<u8>, does: int, channel: u8, a: u8, b: u8) -> bool {
    bytes.len() == 3 && bytes[0] as int / 16 == does && bytes[0] as int % 16 == channel && bytes[1]
        == a && bytes[2] == b
}

/// Notes, controllers and programs are written as MIDI has them, on their channel
/// and with their numbers.
pub proof fn channel_messages_are_written(channel: u8, a: u8, b: u8)
    requires
        channel <= 15,
        a <= 127,
        b <= 127,
    ensures
        is_message(file::event_bytes(KindView::NoteOff { channel, note: a, velocity: b }), 8, channel, a, b),
        is_message(file::event_bytes(KindView::NoteOn { channel, note: a, velocity: b }), 9, channel, a, b),
        is_message(
            file::event_bytes(KindView::ControlChange { channel, controller: a, value: b }),
            11,
            channel,
            a,
            b,
        ),
        ({
            let p = file::event_bytes(KindView::ProgramChange { channel, program: a });
            p.len() == 2 && p[0] as int / 16 == 12 && p[0] as int % 16 == channel && p[1] == a
        }),
{
}

/// A bend is written with its lower seven bits first.
pub proof fn bends_are_written(channel: u8, value: u16)
    requires
        channel <= 15,
        value <= 16383,
    ensures
        ({
            let m = file::event_bytes(KindView::PitchBend { channel, value });
            m.len() == 3 && m[0] as int / 16 == 14 && m[0] as int % 16 == channel && m[1] <= 127
                && m[2] <= 127 && m[2] * 128 + m[1] == value
        }),
{
}

/// A tempo is written as the microseconds of a beat, without fractions.
pub proof fn tempos_are_written(bpm: u32)
    requires
        bpm >= 4,
    ensures
        ({
            let m = file::event_bytes(KindView::Tempo { bpm });
            let us = file::bytes_value(m.skip(3));
            &&& m.len() == 6
            &&& m[0] == 0xff && m[1] == 0x51 && m[2] == 3
            &&& us * bpm <= 60_000_000 < (us + 1) * bpm
        }),
{
    let us = 60_000_000int / bpm as int;
    assert(us * bpm <= 60_000_000 < (us + 1) * bpm && us <= 15_000_000) by (nonlinear_arith)
        requires
            us == 60_000_000int / bpm as int,
            bpm >= 4,
    ;
    reveal_with_fuel(file::byte_range, 4);
    assert(us >= 0) by (nonlinear_arith)
        requires
            us == 60_000_000int / bpm as int,
            bpm >= 4,
    ;
    file::big_endian_reads_back(us as nat, 3);
    let b = file::big_endian(us as nat, 3);
    reveal_with_fuel(file::big_endian, 4);
    assert(b.len() == 3);
    let m = file::event_bytes(KindView::Tempo { bpm });
    short_length(3);
    assert(m =~= seq![0xffu8, 0x51, 3] + b);
    assert(m.skip(3) =~= b);
}

proof fn short_length(n: nat)
    requires
        n < 128,
    ensures
        file::variable_length(n) == seq![n as u8],
{
    reveal_with_fuel(file::leading_groups, 2);
    assert(file::variable_length(n) =~= seq![n as u8]);
}

/// A meta event: its kind, the length of what follows, and that.
pub open spec fn is_meta(bytes: Seq<u8>, kind: u8, data: Seq<u8>) -> bool {
    &&& bytes.len() >= 3
    &&& bytes[0] == 0xff
    &&& bytes[1] == kind
    &&& exists|k: int|
        2 < k <= bytes.len() && bytes.skip(k) == data && #[trigger] file::groups_value(
            bytes.subrange(2, k),
        ) == data.len()
}

proof fn metas_are_framed(kind: u8, data: Seq<u8>)
    ensures
        is_meta(file::meta(kind, data), kind, data),
{
    let m = file::meta(kind, data);
    let v = file::variable_length(data.len());
    file::variable_length_reads_back(data.len());
    let k = 2 + v.len() as int;
    assert(m.subrange(2, k) =~= v);
    assert(m.skip(k) =~= data);
    assert(v.len() > 0);
    assert(file::groups_value(m.subrange(2, k)) == data.len());
}

/// Texts, names, markers and ports are meta events of their kinds.
pub proof fn texts_are_framed(text: Seq<char>, port: u8)
    requires
        port <= 127,
    ensures
        is_meta(file::event_bytes(KindView::Text(text)), 1, encode_utf8(text)),
        is_meta(file::event_bytes(KindView::TrackName(text)), 3, encode_utf8(text)),
        is_meta(file::event_bytes(KindView::Marker { text }), 6, encode_utf8(text)),
        is_meta(file::event_bytes(KindView::MidiPort { port }), 0x21, seq![port]),
{
    metas_are_framed(1, encode_utf8(text));
    metas_are_framed(3, encode_utf8(text));
    metas_are_framed(6, encode_utf8(text));
    metas_are_framed(0x21, seq![port]);
}

/// Signatures are meta events with their parts in order.
pub proof fn signatures_are_framed(a: u8, b: u8, c: u8, d: u8, keys: i8, minor: bool)
    ensures
        is_meta(
            file::event_bytes(
                KindView::TimeSignature {
                    numerator: a,
                    denominator_power: b,
                    clocks_per_metronome: c,
                    thirty_seconds_per_quarter: d,
                },
            ),
            0x58,
            seq![a, b, c, d],
        ),
        exists|k: u8, m: u8|
            is_meta(
                file::event_bytes(KindView::KeySignature { sharps_flats: keys, minor }),
                0x59,
                #[trigger] seq![k, m],
            ) && (k as int - keys) % 256 == 0 && m == (if minor {
                1int
            } else {
                0int
            }),
{
    metas_are_framed(0x58, seq![a, b, c, d]);
    let k = if keys < 0 {
        (keys + 256) as u8
    } else {
        keys as u8
    };
    let m = if minor {
        1u8
    } else {
        0u8
    };
    metas_are_framed(0x59, seq![k, m]);
}

/// A chunk of a track says its own length and ends with the end of the track.
pub proof fn chunks_are_framed(events: Seq<RenderedEventView>, track: Option<usize>)
    ensures
        file::track_chunk(events, track) matches Some(c) ==> {
            let n = c.len() as int;
            &&& n >= 12
            &&& c.take(4) == seq![0x4du8, 0x54, 0x72, 0x6b]
            &&& file::bytes_value(c.subrange(4, 8)) == n - 8
            &&& c.skip(n - 4) == seq![0u8, 0xff, 0x2f, 0]
            &&& file::written(events, events.len() as int, track) matches Some(w) && c.subrange(8, n - 4)
                == w.bytes
        },
{
    if let Some(c) = file::track_chunk(events, track) {
        let w = file::written(events, events.len() as int, track)->0;
        let data = w.bytes + seq![0u8, 0xff, 0x2f, 0];
        reveal_with_fuel(file::byte_range, 5);
        file::big_endian_reads_back(data.len(), 4);
        reveal_with_fuel(file::big_endian, 5);
        let n = c.len() as int;
        assert(c.take(4) =~= seq![0x4du8, 0x54, 0x72, 0x6b]);
        assert(c.subrange(4, 8) =~= file::big_endian(data.len(), 4));
        assert(c.skip(n - 4) =~= seq![0u8, 0xff, 0x2f, 0]);
        assert(c.subrange(8, n - 4) =~= w.bytes);
    }
}

/// The header says the type, the number of tracks and the ticks of a beat.
pub proof fn headers_say_what_follows(smf_type: u16, tracks: u16, ppq: u16)
    ensures
        ({
            let h = file::header(smf_type, tracks as int, ppq);
            &&& h.len() == 14
            &&& h.take(4) == seq![0x4du8, 0x54, 0x68, 0x64]
            &&& file::bytes_value(h.subrange(4, 8)) == 6
            &&& file::bytes_value(h.subrange(8, 10)) == smf_type
            &&& file::bytes_value(h.subrange(10, 12)) == tracks
            &&& file::bytes_value(h.subrange(12, 14)) == ppq
        }),
{
    reveal_with_fuel(file::byte_range, 5);
    file::big_endian_reads_back(6, 4);
    file::big_endian_reads_back(smf_type as nat, 2);
    file::big_endian_reads_back(tracks as nat, 2);
    file::big_endian_reads_back(ppq as nat, 2);
    reveal_with_fuel(file::big_endian, 5);
    let h = file::header(smf_type, tracks as int, ppq);
    assert(h.take(4) =~= seq![0x4du8, 0x54, 0x68, 0x64]);
    assert(h.subrange(4, 8) =~= file::big_endian(6, 4));
    assert(h.subrange(8, 10) =~= file::big_endian(smf_type as nat, 2));
    assert(h.subrange(10, 12) =~= file::big_endian(tracks as nat, 2));
    assert(h.subrange(12, 14) =~= file::big_endian(ppq as nat, 2));
}

proof fn first_events_alone(
    events: Seq<RenderedEventView>,
    more: Seq<RenderedEventView>,
    n: int,
    track: Option<usize>,
)
    requires
        0 <= n <= events.len(),
    ensures
        file::written(events + more, n, track) == file::written(events, n, track),
    decreases n,
{
    if n > 0 {
        first_events_alone(events, more, n - 1, track);
        assert((events + more)[n - 1] == events[n - 1]);
    }
}

/// One more event of a track adds the time since the last event of that track and
/// its own bytes; one of another track adds nothing.
pub proof fn events_are_written_in_turn(
    events: Seq<RenderedEventView>,
    e: RenderedEventView,
    track: Option<usize>,
)
    requires
        file::ticks_go_on(events.push(e)),
        file::written(events, events.len() as int, track) is Some,
        file::written(events.push(e), events.len() as int + 1, track) is Some,
    ensures
        ({
            let before = file::written(events, events.len() as int, track)->0.bytes;
            let after = file::written(events.push(e), events.len() as int + 1, track)->0.bytes;
            if track is None || track == Some(e.track_index) {
                exists|k: int|
                    before.len() < k <= after.len() && after.take(before.len() as int) == before
                        && after.skip(k) == file::event_bytes(e.kind) && #[trigger] file::groups_value(
                        after.subrange(before.len() as int, k),
                    ) == e.abs_tick - file::last_tick(events, events.len() as int, track)
            } else {
                after == before
            }
        }),
{
    let n = events.len() as int;
    first_events_alone(events, seq![e], n, track);
    assert(events + seq![e] =~= events.push(e));
    assert forall|i: int, j: int| 0 <= i < j < events.len() implies (
    #[trigger] events[i]).abs_tick <= (#[trigger] events[j]).abs_tick by {
        assert(events.push(e)[i] == events[i] && events.push(e)[j] == events[j]);
    }
    file::times_add_up(events, n, track);
    let w = file::written(events, n, track)->0;
    let after = file::written(events.push(e), n + 1, track)->0.bytes;
    assert(events.push(e)[n] == e);
    last_is_no_later(events, n, e, track);
    if track is None || track == Some(e.track_index) {
        let time = (e.abs_tick - w.tick) as nat;
        file::variable_length_reads_back(time);
        let v = file::variable_length(time);
        let k = (w.bytes.len() + v.len()) as int;
        assert(after.take(w.bytes.len() as int) =~= w.bytes);
        assert(after.skip(k) =~= file::event_bytes(e.kind));
        assert(after.subrange(w.bytes.len() as int, k) =~= v);
        assert(file::groups_value(after.subrange(w.bytes.len() as int, k)) == time);
    }
}

proof fn last_is_no_later(
    events: Seq<RenderedEventView>,
    n: int,
    e: RenderedEventView,
    track: Option<usize>,
)
    requires
        file::ticks_go_on(events.push(e)),
        0 <= n <= events.len(),
    ensures
        file::last_tick(events, n, track) <= e.abs_tick,
    decreases n,
{
    if n > 0 {
        last_is_no_later(events, n - 1, e, track);
        assert(events.push(e)[n - 1] == events[n - 1]);
        assert(events.push(e)[events.len() as int] == e);
    }
}

/// Type 0 puts everything on one track, type 1 each track in a chunk of its own,
/// in their order behind the header.
pub proof fn files_hold_their_chunks(
    events: Seq<RenderedEventView>,
    tracks: u16,
    ppq: u16,
)
    ensures
        file::file_bytes(events, 0, tracks as int, ppq) matches Some(f) ==> (file::track_chunk(
            events,
            None,
        ) matches Some(c) && f.take(14) == file::header(0, 1, ppq) && f.skip(14) == c),
        file::file_bytes(events, 1, tracks as int, ppq) matches Some(f) ==> (f.take(14) == file::header(
            1,
            tracks as int,
            ppq,
        ) && file::track_chunks(events, tracks as int) == Some(f.skip(14))),
        tracks > 0 ==> (file::track_chunks(events, tracks as int) matches Some(all) ==> (file::track_chunk(
            events,
            Some((tracks - 1) as usize),
        ) matches Some(c) && (file::track_chunks(events, tracks - 1) matches Some(before) && all == before
            + c))),
{
    file::header_has_its_length(0, 1, ppq);
    file::header_has_its_length(1, tracks as int, ppq);
    if let Some(f) = file::file_bytes(events, 0, tracks as int, ppq) {
        let c = file::track_chunk(events, None)->0;
        assert(f.take(14) =~= file::header(0, 1, ppq));
        assert(f.skip(14) =~= c);
    }
    if let Some(f) = file::file_bytes(events, 1, tracks as int, ppq) {
        let c = file::track_chunks(events, tracks as int)->0;
        assert(f.take(14) =~= file::header(1, tracks as int, ppq));
        assert(f.skip(14) =~= c);
    }
}

} // verus!
