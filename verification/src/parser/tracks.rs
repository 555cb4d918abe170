//! From the pieces of MML in a source to its tracks.

use std::collections::BTreeMap;

use vstd::prelude::*;

use crate::diagnostics::{Diagnostics, DiagnosticsView};
use crate::fraction;
use crate::ir::{
    ConversionOptions, IrEvent, IrEventView, OptionsView, Rational, RhythmMap, SongIr, SongIrView,
    TempoEvent, TempoEventView, TrackIr, TrackIrView, TrackKind,
};
use crate::parser::definitions;
use crate::parser::definitions::{Chunk, ChunkView, Top, TopView, TrackRequest, TrackRequestView};
use crate::parser::loops;
use crate::parser::loops::extend_infinite_loops_to_common_horizon;
use crate::parser::mml;
use crate::parser::mml::{EnvView, Halt, Machine, MachineView, MmlEnv, parse_mml};
use crate::parser::statements;
use crate::parser::statements::{bracket_delta, plays_track, track_kind_for_selector};
use crate::text::{chars_of, copy_text, push_chars, same_text, to_chars};
use crate::views;
use crate::views::push_viewed;

verus! {

// ---------------------------------------------------------------------------
// Order
// ---------------------------------------------------------------------------
/// Whether a text comes before another, by code points, from position `i` on.
pub open spec fn before_from(a: Seq<char>, b: Seq<char>, i: int) -> bool
    decreases b.len() - i,
{
    if i < 0 || i >= b.len() {
        false
    } else if i >= a.len() {
        true
    } else if a[i] != b[i] {
        a[i] < b[i]
    } else {
        before_from(a, b, i + 1)
    }
}

/// The place of a name in a sorted list, from `i` on.
pub open spec fn place_from(keys: Seq<Seq<char>>, name: Seq<char>, i: int) -> int
    decreases keys.len() - i,
{
    if 0 <= i < keys.len() && before_from(keys[i], name, 0) {
        place_from(keys, name, i + 1)
    } else {
        i
    }
}

/// A sorted list with a name in its place, once.
pub open spec fn with_key(keys: Seq<Seq<char>>, name: Seq<char>) -> Seq<Seq<char>> {
    let i = place_from(keys, name, 0);
    if i < keys.len() && keys[i] == name {
        keys
    } else {
        keys.insert(i, name)
    }
}

/// The tracks of the first `n` requests, sorted.
pub open spec fn request_tracks(requests: Seq<TrackRequestView>, n: int) -> Seq<Seq<char>>
    decreases n,
{
    if n <= 0 || n > requests.len() {
        Seq::empty()
    } else {
        with_key(request_tracks(requests, n - 1), requests[n - 1].track)
    }
}

/// A list of tracks with one more, unless it is there or not to be played.
pub open spec fn with_track(order: Seq<Seq<char>>, track: Seq<char>, filter: Option<Seq<char>>) ->
    Seq<Seq<char>> {
    if !statements::is_played(filter, track) || order.contains(track) {
        order
    } else {
        order.push(track)
    }
}

/// The tracks of the first `n` pieces of MML, by first appearance.
pub open spec fn chunk_order(chunks: Seq<ChunkView>, n: int, filter: Option<Seq<char>>) -> Seq<
    Seq<char>,
>
    decreases n,
{
    if n <= 0 || n > chunks.len() {
        Seq::empty()
    } else {
        with_track(chunk_order(chunks, n - 1, filter), chunks[n - 1].track, filter)
    }
}

/// The list with the first `n` of other tracks.
pub open spec fn with_tracks(
    order: Seq<Seq<char>>,
    others: Seq<Seq<char>>,
    n: int,
    filter: Option<Seq<char>>,
) -> Seq<Seq<char>>
    decreases n,
{
    if n <= 0 || n > others.len() {
        order
    } else {
        with_track(with_tracks(order, others, n - 1, filter), others[n - 1], filter)
    }
}

/// The tracks of a song: those with MML by first appearance, and after them
/// those with requests only, sorted.
pub open spec fn track_order(t: TopView) -> Seq<Seq<char>> {
    let others = request_tracks(t.requests, t.requests.len() as int);
    with_tracks(
        chunk_order(t.chunks, t.chunks.len() as int, t.filter),
        others,
        others.len() as int,
        t.filter,
    )
}

fn comes_before(a: &str, b: &str) -> (r: bool)
    ensures
        r == before_from(a@, b@, 0),
{
    let x = chars_of(a);
    let y = chars_of(b);
    let mut i: usize = 0;
    while i < y.len()
        invariant
            i <= y@.len(),
            x@ == a@,
            y@ == b@,
            before_from(a@, b@, 0) == before_from(a@, b@, i as int),
        decreases y@.len() - i,
    {
        if i >= x.len() {
            return true;
        }
        if x[i] != y[i] {
            return x[i] < y[i];
        }
        i += 1;
    }
    false
}

fn insert_key(keys: &mut Vec<String>, name: &str)
    ensures
        views::all_views(final(keys)@) == with_key(views::all_views(old(keys)@), name@),
{
    let ghost all = views::all_views(keys@);
    let mut i: usize = 0;
    while i < keys.len() && comes_before(keys[i].as_str(), name)
        invariant
            i <= keys@.len(),
            all == views::all_views(keys@),
            keys@ == old(keys)@,
            place_from(all, name@, 0) == place_from(all, name@, i as int),
        decreases keys@.len() - i,
    {
        assert(all[i as int] == keys@[i as int]@);
        i += 1;
    }
    if i < keys.len() {
        assert(all[i as int] == keys@[i as int]@);
        if same_text(keys[i].as_str(), name) {
            return ;
        }
    }
    let added = copy_text(name);
    keys.insert(i, added);
    assert(views::all_views(keys@) =~= all.insert(i as int, name@));
}

fn add_track(order: &mut Vec<String>, track: &str, filter: &Option<Vec<char>>)
    ensures
        views::all_views(final(order)@) == with_track(
            views::all_views(old(order)@),
            track@,
            definitions::opt_chars(*filter),
        ),
{
    if !plays_track(filter, track) {
        return ;
    }
    let ghost all = views::all_views(order@);
    let mut i: usize = 0;
    while i < order.len()
        invariant
            i <= order@.len(),
            order@ == old(order)@,
            all == views::all_views(order@),
            statements::is_played(definitions::opt_chars(*filter), track@),
            forall|k: int| 0 <= k < i ==> all[k] != track@,
        decreases order@.len() - i,
    {
        assert(all[i as int] == order@[i as int]@);
        if same_text(order[i].as_str(), track) {
            assert(all.contains(track@));
            return ;
        }
        i += 1;
    }
    push_viewed(order, copy_text(track));
}

fn collect_order(t: &Top) -> (r: Vec<String>)
    ensures
        views::all_views(r@) == track_order(t.deep_view()),
{
    let ghost v = t.deep_view();
    let mut order: Vec<String> = Vec::new();
    assert(views::all_views(order@) =~= Seq::empty());
    let mut i: usize = 0;
    while i < t.chunks.len()
        invariant
            i <= t.chunks@.len(),
            v == t.deep_view(),
            views::all_views(order@) == chunk_order(v.chunks, i as int, v.filter),
        decreases t.chunks@.len() - i,
    {
        assert(v.chunks[i as int] == t.chunks@[i as int].deep_view());
        add_track(&mut order, t.chunks[i].track.as_str(), &t.filter);
        i += 1;
    }
    let mut others: Vec<String> = Vec::new();
    assert(views::all_views(others@) =~= Seq::empty());
    i = 0;
    while i < t.requests.len()
        invariant
            i <= t.requests@.len(),
            v == t.deep_view(),
            views::all_views(others@) == request_tracks(v.requests, i as int),
        decreases t.requests@.len() - i,
    {
        assert(v.requests[i as int] == t.requests@[i as int].deep_view());
        insert_key(&mut others, t.requests[i].track.as_str());
        i += 1;
    }
    let ghost first = views::all_views(order@);
    let ghost rest = views::all_views(others@);
    i = 0;
    while i < others.len()
        invariant
            i <= others@.len(),
            v == t.deep_view(),
            rest == views::all_views(others@),
            views::all_views(order@) == with_tracks(first, rest, i as int, v.filter),
        decreases others@.len() - i,
    {
        assert(rest[i as int] == others@[i as int]@);
        add_track(&mut order, others[i].as_str(), &t.filter);
        i += 1;
    }
    order
}

// ---------------------------------------------------------------------------
// Pieces
// ---------------------------------------------------------------------------
/// A piece of MML with another one after it, on a new line.
pub open spec fn with_body(segment: ChunkView, body: Seq<char>) -> ChunkView {
    ChunkView {
        body: if segment.body.len() == 0 {
            body
        } else {
            segment.body.push('\n') + body
        },
        ..segment
    }
}

/// The pieces of a track, of the chunks from `i` on: chunks are joined while a
/// loop bracket is open. `open` is the piece that is not closed yet.
pub open spec fn segments_from(
    chunks: Seq<ChunkView>,
    i: int,
    track: Seq<char>,
    open: Option<ChunkView>,
    depth: int,
) -> Seq<ChunkView>
    decreases chunks.len() - i,
{
    if i < 0 || i >= chunks.len() {
        match open {
            Some(s) => seq![s],
            None => Seq::empty(),
        }
    } else if chunks[i].track != track {
        segments_from(chunks, i + 1, track, open, depth)
    } else {
        let joined = match open {
            Some(s) => with_body(s, chunks[i].body),
            None => chunks[i],
        };
        let level = depth + statements::nesting(chunks[i].body, 0, false, false, '[', ']');
        if level <= 0 {
            seq![joined] + segments_from(chunks, i + 1, track, None, 0)
        } else {
            segments_from(chunks, i + 1, track, Some(joined), level)
        }
    }
}

pub fn group_mml_segments(chunks: &Vec<Chunk>, track: &str) -> (r: Vec<Chunk>)
    ensures
        views::all_views(r@) == segments_from(views::all_views(chunks@), 0, track@, None, 0),
{
    let ghost all = views::all_views(chunks@);
    let ghost goal = segments_from(all, 0, track@, None, 0);
    let mut out: Vec<Chunk> = Vec::new();
    let mut open: Option<Chunk> = None;
    let mut depth: i128 = 0;
    let mut i: usize = 0;
    assert(views::all_views(out@) + goal =~= goal);
    while i < chunks.len()
        invariant
            i <= chunks@.len(),
            all == views::all_views(chunks@),
            depth >= 0,
            open is None ==> depth == 0,
            open matches Some(s) ==> depth <= s.body@.len(),
            goal == views::all_views(out@) + segments_from(
                all,
                i as int,
                track@,
                open.deep_view(),
                depth as int,
            ),
        decreases chunks@.len() - i,
    {
        let c = &chunks[i];
        assert(all[i as int] == c.deep_view());
        if same_text(c.track.as_str(), track) {
            let ghost before = out@;
            let ghost was = open.deep_view();
            let ghost level = depth + statements::nesting(c.body@, 0, false, false, '[', ']');
            let segment = match open {
                Some(s) => {
                    let mut body = s.body;
                    if body.len() > 0 {
                        body.push('\n');
                    }
                    push_chars(&mut body, &c.body);
                    assert(s.body@.len() == 0 ==> body@ =~= c.body@);
                    Chunk {
                        track: s.track,
                        line: s.line,
                        body,
                        offsets: s.offsets,
                        kind: s.kind,
                        family: s.family,
                    }
                },
                None => Chunk {
                    track: copy_text(c.track.as_str()),
                    line: c.line,
                    body: to_chars(&c.body),
                    offsets: c.offsets.clone(),
                    kind: c.kind,
                    family: c.family,
                },
            };
            assert(segment.deep_view() == match was {
                Some(s) => with_body(s, c.body@),
                None => c.deep_view(),
            });
            let size = segment.body.len();
            depth = depth + bracket_delta(&c.body, '[', ']');
            if depth <= 0 {
                depth = 0;
                push_viewed(&mut out, segment);
                open = None;
                assert(views::all_views(before) + (seq![segment.deep_view()] + segments_from(
                    all,
                    i + 1,
                    track@,
                    None,
                    0,
                )) =~= views::all_views(out@) + segments_from(all, i + 1, track@, None, 0));
            } else {
                open = Some(segment);
            }
        }
        i += 1;
    }
    match open {
        Some(s) => {
            let ghost before = out@;
            push_viewed(&mut out, s);
            assert(views::all_views(before) + seq![s.deep_view()] =~= views::all_views(out@));
        },
        None => {
            assert(views::all_views(out@) + Seq::<ChunkView>::empty() =~= views::all_views(out@));
        },
    }
    out
}

// ---------------------------------------------------------------------------
// Tracks
// ---------------------------------------------------------------------------
/// The kind of the first piece of a track, of the chunks from `i` on.
pub open spec fn first_kind(chunks: Seq<ChunkView>, i: int, track: Seq<char>) -> Option<TrackKind>
    decreases chunks.len() - i,
{
    if i < 0 || i >= chunks.len() {
        None
    } else if chunks[i].track == track {
        Some(chunks[i].kind)
    } else {
        first_kind(chunks, i + 1, track)
    }
}

/// The kind of a track: that of its first piece of MML, or else by its name.
pub open spec fn track_kind(t: TopView, track: Seq<char>, rhythm: RhythmMap) -> TrackKind {
    match first_kind(t.chunks, 0, track) {
        Some(k) => k,
        None => statements::selector_kind(track, t.opll_mode, rhythm),
    }
}

/// The requests for a track among the first `n`.
pub open spec fn requests_for(requests: Seq<TrackRequestView>, n: int, track: Seq<char>) -> Seq<
    IrEventView,
>
    decreases n,
{
    if n <= 0 || n > requests.len() {
        Seq::empty()
    } else if requests[n - 1].track == track {
        requests_for(requests, n - 1, track).push(requests[n - 1].event)
    } else {
        requests_for(requests, n - 1, track)
    }
}

/// What stays the same while a piece of a track is read.
pub open spec fn segment_env(t: TopView, o: OptionsView, track: Seq<char>, s: ChunkView) -> EnvView {
    EnvView {
        macros: t.macros,
        offsets: s.offsets,
        kind: s.kind,
        family: s.family,
        loop_count: t.loop_count,
        track,
        line: s.line,
        programs: o.smfmap.program_numbering,
        channels: o.smfmap.channel_numbering,
        glide_enabled: o.smfmap.pitch_glide.enabled,
        unknown_fails: o.smfmap.manual_smf_enabled && o.smfmap.unknown_requests_fail,
    }
}

/// The pieces of a track from `i` on, read one after the other.
pub open spec fn run_segments(
    t: TopView,
    o: OptionsView,
    track: Seq<char>,
    segments: Seq<ChunkView>,
    i: int,
    m: MachineView,
) -> Result<MachineView, Halt>
    decreases segments.len() - i,
{
    if i < 0 || i >= segments.len() {
        Ok(m)
    } else {
        match mml::run_mml(
            segment_env(t, o, track, segments[i]),
            segments[i].body,
            0,
            MachineView { macro_stack: Seq::empty(), ..m },
            0,
        ) {
            Ok(n) => run_segments(t, o, track, segments, i + 1, n),
            Err(e) => Err(e),
        }
    }
}

/// What has been read of the tracks.
#[verifier::ext_equal]
pub struct ReadTracks {
    pub tracks: Seq<TrackIrView>,
    pub tempo_events: Seq<TempoEventView>,
    pub diagnostics: DiagnosticsView,
}

/// Reads one track.
pub open spec fn read_track(t: TopView, o: OptionsView, track: Seq<char>, r: ReadTracks) -> Result<
    ReadTracks,
    Seq<char>,
> {
    let start = MachineView::start(
        o.octave_base,
        requests_for(t.requests, t.requests.len() as int, track),
        r.tempo_events,
        r.diagnostics,
    );
    match run_segments(t, o, track, segments_from(t.chunks, 0, track, None, 0), 0, start) {
        Ok(m) => Ok(
            ReadTracks {
                tracks: r.tracks.push(
                    TrackIrView {
                        source_id: track,
                        kind: track_kind(t, track, o.rhythm_map),
                        events: m.events,
                        length: m.cursor,
                    },
                ),
                tempo_events: m.tempo_events,
                diagnostics: m.diagnostics,
            },
        ),
        Err(h) => Err(h.message),
    }
}

/// Reads the tracks of a list from `i` on.
pub open spec fn read_tracks(
    t: TopView,
    o: OptionsView,
    order: Seq<Seq<char>>,
    i: int,
    r: ReadTracks,
) -> Result<ReadTracks, Seq<char>>
    decreases order.len() - i,
{
    if i < 0 || i >= order.len() {
        Ok(r)
    } else {
        match read_track(t, o, order[i], r) {
            Ok(q) => read_tracks(t, o, order, i + 1, q),
            Err(e) => Err(e),
        }
    }
}

/// The song that the top level of a source describes.
pub open spec fn assembled(t: TopView, o: OptionsView) -> Result<SongIrView, Seq<char>> {
    let start = ReadTracks {
        tracks: Seq::empty(),
        tempo_events: t.song.tempo_events,
        diagnostics: t.song.diagnostics,
    };
    match read_tracks(t, o, track_order(t), 0, start) {
        Ok(r) => match loops::common_end(r.tracks, t.loop_count) {
            Some(tracks) => Ok(
                SongIrView {
                    tracks,
                    tempo_events: if r.tempo_events.len() == 0 {
                        seq![
                            TempoEventView {
                                at: fraction::whole(0),
                                bpm: 120,
                                source: "default"@,
                                line: None,
                            },
                        ]
                    } else {
                        r.tempo_events
                    },
                    diagnostics: r.diagnostics,
                    ..t.song
                },
            ),
            None => Err("source steps out of range in an endless loop"@),
        },
        Err(e) => Err(e),
    }
}

fn find_kind(t: &Top, track: &str, rhythm: RhythmMap) -> (r: TrackKind)
    ensures
        r == track_kind(t.deep_view(), track@, rhythm),
{
    let ghost all = views::all_views(t.chunks@);
    let mut i: usize = 0;
    while i < t.chunks.len()
        invariant
            i <= t.chunks@.len(),
            all == views::all_views(t.chunks@),
            first_kind(all, 0, track@) == first_kind(all, i as int, track@),
        decreases t.chunks@.len() - i,
    {
        assert(all[i as int] == t.chunks@[i as int].deep_view());
        if same_text(t.chunks[i].track.as_str(), track) {
            return t.chunks[i].kind;
        }
        i += 1;
    }
    track_kind_for_selector(track, t.opll_mode, rhythm)
}

fn collect_requests(requests: &Vec<TrackRequest>, track: &str) -> (r: Vec<IrEvent>)
    ensures
        views::all_views(r@) == requests_for(views::all_views(requests@), requests@.len() as int, track@),
{
    let ghost all = views::all_views(requests@);
    let mut out: Vec<IrEvent> = Vec::new();
    let mut i: usize = 0;
    assert(views::all_views(out@) =~= Seq::empty());
    while i < requests.len()
        invariant
            i <= requests@.len(),
            all == views::all_views(requests@),
            views::all_views(out@) == requests_for(all, i as int, track@),
        decreases requests@.len() - i,
    {
        assert(all[i as int] == requests@[i as int].deep_view());
        if same_text(requests[i].track.as_str(), track) {
            push_viewed(&mut out, requests[i].event.clone());
        }
        i += 1;
    }
    out
}

fn parse_segments(
    t: &Top,
    o: &ConversionOptions,
    track: &str,
    segments: &Vec<Chunk>,
    m: &mut Machine,
) -> (r: Result<(), String>)
    ensures
        mml::run_is(
            run_segments(
                t.deep_view(),
                o.deep_view(),
                track@,
                views::all_views(segments@),
                0,
                old(m).deep_view(),
            ),
            r,
            final(m).deep_view(),
        ),
{
    let ghost all = views::all_views(segments@);
    let mut i: usize = 0;
    while i < segments.len()
        invariant
            i <= segments@.len(),
            all == views::all_views(segments@),
            run_segments(t.deep_view(), o.deep_view(), track@, all, 0, old(m).deep_view())
                == run_segments(
                t.deep_view(),
                o.deep_view(),
                track@,
                all,
                i as int,
                m.deep_view(),
            ),
        decreases segments@.len() - i,
    {
        let s = &segments[i];
        assert(all[i as int] == s.deep_view());
        let env = MmlEnv {
            macros: &t.macros,
            offsets: &s.offsets,
            kind: s.kind,
            family: s.family,
            loop_count: t.loop_count,
            track,
            line: s.line,
            programs: o.smfmap.program_numbering,
            channels: o.smfmap.channel_numbering,
            glide_enabled: o.smfmap.pitch_glide.enabled,
            unknown_fails: o.smfmap.manual_smf_enabled && o.smfmap.unknown_requests_fail,
        };
        assert(env.deep_view() == segment_env(t.deep_view(), o.deep_view(), track@, all[i as int]));
        let ghost n = m.deep_view();
        m.macro_stack = Vec::new();
        assert(views::all_views(m.macro_stack@) =~= Seq::empty());
        assert(m.deep_view() == (MachineView { macro_stack: Seq::empty(), ..n }));
        match parse_mml(&env, &s.body, m, 0) {
            Ok(_) => {},
            Err(e) => {
                return Err(e);
            },
        }
        i += 1;
    }
    Ok(())
}

/// Reads all tracks and puts the song together.
pub fn assemble(top: Top, o: &ConversionOptions) -> (r: Result<SongIr, String>)
    ensures
        views::result_view(r) == assembled(top.deep_view(), o.deep_view()),
{
    let ghost v = top.deep_view();
    let mut t = top;
    let order = collect_order(&t);
    let ghost names = views::all_views(order@);
    let mut tempo_events: Vec<TempoEvent> = Vec::new();
    std::mem::swap(&mut tempo_events, &mut t.song.tempo_events);
    let mut diagnostics = Diagnostics::default();
    std::mem::swap(&mut diagnostics, &mut t.song.diagnostics);
    let mut tracks: Vec<TrackIr> = Vec::new();
    assert(views::all_views(tracks@) =~= Seq::empty());
    let ghost goal = read_tracks(
        v,
        o.deep_view(),
        names,
        0,
        ReadTracks {
            tracks: Seq::empty(),
            tempo_events: v.song.tempo_events,
            diagnostics: v.song.diagnostics,
        },
    );
    let mut i: usize = 0;
    while i < order.len()
        invariant
            i <= order@.len(),
            names == views::all_views(order@),
            t.deep_view() == v.with_song(t.deep_view().song),
            t.deep_view().song == (SongIrView {
                tempo_events: t.deep_view().song.tempo_events,
                diagnostics: t.deep_view().song.diagnostics,
                ..v.song
            }),
            goal == read_tracks(
                v,
                o.deep_view(),
                names,
                i as int,
                ReadTracks {
                    tracks: views::all_views(tracks@),
                    tempo_events: views::all_views(tempo_events@),
                    diagnostics: diagnostics.deep_view(),
                },
            ),
            v == top.deep_view(),
            names == track_order(v),
            goal == read_tracks(
                v,
                o.deep_view(),
                names,
                0,
                ReadTracks {
                    tracks: Seq::empty(),
                    tempo_events: v.song.tempo_events,
                    diagnostics: v.song.diagnostics,
                },
            ),
        decreases order@.len() - i,
    {
        let track = order[i].as_str();
        assert(names[i as int] == track@);
        let kind = find_kind(&t, track, o.rhythm_map);
        let events = collect_requests(&t.requests, track);
        let segments = group_mml_segments(&t.chunks, track);
        let mut m = Machine::start(o.octave_base, events, tempo_events, diagnostics);
        let ghost start = m.deep_view();
        match parse_segments(&t, o, track, &segments, &mut m) {
            Ok(_) => {},
            Err(e) => {
                proof {
                    segments_ignore_song(
                        t.deep_view(),
                        v,
                        o.deep_view(),
                        track@,
                        views::all_views(segments@),
                        0,
                        start,
                    );
                }
                return Err(e);
            },
        }
        proof {
            segments_ignore_song(
                t.deep_view(),
                v,
                o.deep_view(),
                track@,
                views::all_views(segments@),
                0,
                start,
            );
        }
        let done = TrackIr {
            source_id: copy_text(track),
            kind,
            events: m.events,
            length_steps: m.cursor,
        };
        push_viewed(&mut tracks, done);
        tempo_events = m.tempo_events;
        diagnostics = m.diagnostics;
        i += 1;
    }
    let extended = match extend_infinite_loops_to_common_horizon(tracks, t.loop_count) {
        Some(e) => e,
        None => {
            return Err(copy_text("source steps out of range in an endless loop"));
        },
    };
    if tempo_events.len() == 0 {
        tempo_events.push(
            TempoEvent {
                at_steps: Rational::zero(),
                bpm: 120,
                source: copy_text("default"),
                line: None,
            },
        );
        assert(views::all_views(tempo_events@) =~= seq![
            TempoEventView { at: fraction::whole(0), bpm: 120, source: "default"@, line: None },
        ]);
    }
    let mut song = t.song;
    song.tracks = extended;
    song.tempo_events = tempo_events;
    song.diagnostics = diagnostics;
    Ok(song)
}

proof fn segments_ignore_song(
    t: TopView,
    u: TopView,
    o: OptionsView,
    track: Seq<char>,
    segments: Seq<ChunkView>,
    i: int,
    m: MachineView,
)
    requires
        t == u.with_song(t.song),
    ensures
        run_segments(t, o, track, segments, i, m) == run_segments(u, o, track, segments, i, m),
    decreases segments.len() - i,
{
    if 0 <= i < segments.len() {
        assert(segment_env(t, o, track, segments[i]) == segment_env(u, o, track, segments[i]));
        match mml::run_mml(
            segment_env(t, o, track, segments[i]),
            segments[i].body,
            0,
            MachineView { macro_stack: Seq::empty(), ..m },
            0,
        ) {
            Ok(n) => {
                segments_ignore_song(t, u, o, track, segments, i + 1, n);
            },
            Err(_) => {},
        }
    }
}

} // verus!
