//! Rendering: a song as MIDI events and as a MIDI file.

pub mod balance;
pub mod bending;
pub mod channels;
pub mod drawing;
pub mod drumming;
pub mod envelope;
pub mod events;
pub mod file;
pub mod messages;
pub mod notes;
pub mod opll_pseudo_drum;
pub mod order;
pub mod pitch_glide;
pub mod placing;
pub mod record;
pub mod requests;
pub mod rounding;
pub mod score;
pub mod song;
pub mod sounding;
pub mod stage;
pub mod standing;
pub mod swells;
pub mod tempo;
pub mod tracks;
pub mod wire;

pub use events::{RenderedEvent, RenderedEventKind};

use vstd::prelude::*;

use crate::diagnostics::{Diagnostics, DiagnosticsView};
use crate::fraction;
use crate::ir::{
    ConversionOptions, IrEvent, IrEventView, OptionsView, SongIr, SongIrView, TrackIr,
    TrackIrView,
};
use crate::render::channels::{Allocation, allocate_channels};
use crate::render::events::RenderedEventView;
use crate::render::file::write_file;
use crate::render::order::{put_in_order, rank_events};
use crate::render::score::{Failure, Score, ScoreView};
use crate::render::tempo::find_tempo_map;
use crate::text::{copy_text, join2};
use crate::views;

verus! {

/// Whether the end of a note among the first `n` events can be held.
pub open spec fn ends_are_held(events: Seq<IrEventView>, n: int) -> bool
    decreases n,
{
    if n <= 0 || n > events.len() {
        true
    } else {
        ends_are_held(events, n - 1) && match events[n - 1] {
            IrEventView::Note { start, duration, .. } => fraction::plus(start, duration) is Some,
            _ => true,
        }
    }
}

/// The first of the tracks from `i` on with a note whose end cannot be held.
pub open spec fn endless_track(tracks: Seq<TrackIrView>, i: int) -> Option<Seq<char>>
    decreases tracks.len() - i,
{
    if i < 0 || i >= tracks.len() {
        None
    } else if !ends_are_held(tracks[i].events, tracks[i].events.len() as int) {
        Some(tracks[i].source_id)
    } else {
        endless_track(tracks, i + 1)
    }
}

fn check_ends(events: &[IrEvent]) -> (r: bool)
    ensures
        r == ends_are_held(views::all_views(events@), events@.len() as int),
{
    let ghost all = views::all_views(events@);
    let mut held = true;
    let mut i: usize = 0;
    while i < events.len()
        invariant
            i <= events@.len(),
            all == views::all_views(events@),
            held == ends_are_held(all, i as int),
        decreases events@.len() - i,
    {
        assert(all[i as int] == events@[i as int].deep_view());
        if let IrEvent::Note { start_steps, duration_steps, .. } = &events[i] {
            if start_steps.checked_add(*duration_steps).is_none() {
                held = false;
            }
        }
        i += 1;
    }
    held
}

fn find_endless_track(tracks: &[TrackIr]) -> (r: Option<String>)
    ensures
        r.deep_view() == endless_track(views::all_views(tracks@), 0),
{
    let ghost all = views::all_views(tracks@);
    let mut i: usize = 0;
    while i < tracks.len()
        invariant
            i <= tracks@.len(),
            all == views::all_views(tracks@),
            endless_track(all, 0) == endless_track(all, i as int),
        decreases tracks@.len() - i,
    {
        assert(all[i as int] == tracks@[i as int].deep_view());
        if !check_ends(tracks[i].events.as_slice()) {
            return Some(copy_text(tracks[i].source_id.as_str()));
        }
        i += 1;
    }
    None
}

/// A warning for each of the first `n` settings that do not count.
pub open spec fn with_unheeded(s: ScoreView, settings: Seq<Seq<char>>, n: int) -> ScoreView
    decreases n,
{
    if n <= 0 || n > settings.len() {
        s
    } else {
        with_unheeded(s, settings, n - 1).warned(
            None,
            "configuration setting passed over: "@ + settings[n - 1],
        )
    }
}

/// A score before its first event.
pub open spec fn empty_score(song: SongIrView, o: OptionsView) -> ScoreView {
    let settings = o.smfmap.details.passed_over;
    with_unheeded(
        ScoreView { events: Seq::empty(), diagnostics: song.diagnostics },
        settings,
        settings.len() as int,
    )
}

/// The score of a song, in the order in which its parts are rendered.
pub open spec fn scored(song: SongIrView, o: OptionsView) -> Result<ScoreView, Failure> {
    let start = empty_score(song, o);
    match channels::given_channels(start, o, song.tracks, song.tracks.len() as int) {
        Err(e) => Err(e),
        Ok(g) => {
            let (tempo, s) = tempo::tempo_map(
                g.score,
                song.tempo_events,
                song.tempo_events.len() as int,
                o.ppq,
            );
            match song::with_conductor(s, o, song.title, tempo, song.conductor_events) {
                Err(e) => Err(e),
                Ok(t) => song::tracks_rendered(
                    t,
                    song,
                    o,
                    g.allocations,
                    tempo,
                    song.tracks.len() as int,
                ),
            }
        },
    }
}

/// The events of a song in play order, and the diagnostics of its rendering.
pub open spec fn rendered(song: SongIrView, o: OptionsView) -> Result<ScoreView, Failure> {
    if o.ppq == 0 {
        Err(Failure { message: "PPQ must be positive"@, diagnostics: song.diagnostics })
    } else {
        match endless_track(song.tracks, 0) {
            Some(track) => Err(
                Failure {
                    message: "source steps out of range on track "@ + track,
                    diagnostics: song.diagnostics,
                },
            ),
            None => match scored(song, o) {
                Err(e) => Err(e),
                Ok(s) => Ok(
                    ScoreView {
                        events: order::play_order(order::ranked(s.events, o.smfmap.details.event_order)),
                        ..s
                    },
                ),
            },
        }
    }
}

fn warn_of_unheeded(score: &mut Score, settings: &[String])
    ensures
        final(score).deep_view() == with_unheeded(
            old(score).deep_view(),
            views::all_views(settings@),
            settings@.len() as int,
        ),
{
    let ghost all = views::all_views(settings@);
    let mut i: usize = 0;
    while i < settings.len()
        invariant
            i <= settings@.len(),
            all == views::all_views(settings@),
            score.deep_view() == with_unheeded(old(score).deep_view(), all, i as int),
        decreases settings@.len() - i,
    {
        assert(all[i as int] == settings@[i as int].deep_view());
        let message = join2("configuration setting passed over: ", settings[i].as_str());
        score.warn(None, message.as_str());
        i += 1;
    }
}

fn score_song(score: &mut Score, song: &SongIr, options: &ConversionOptions) -> (r: Result<
    (),
    String,
>)
    requires
        options.ppq > 0,
        old(score).deep_view().events == Seq::<RenderedEventView>::empty(),
    ensures
        score::score_is(
            scored(
                SongIrView { diagnostics: old(score).deep_view().diagnostics, ..song.deep_view() },
                options.deep_view(),
            ),
            final(score).deep_view(),
            r,
        ),
{
    let ghost view = SongIrView { diagnostics: score.deep_view().diagnostics, ..song.deep_view() };
    assert(score.deep_view() =~= ScoreView { events: Seq::empty(), diagnostics: view.diagnostics });
    warn_of_unheeded(score, options.smfmap.details.passed_over.as_slice());
    let ghost begun = score.deep_view();
    let allocations = match allocate_channels(score, options, song.tracks.as_slice()) {
        Ok(a) => a,
        Err(e) => {
            return Err(e);
        },
    };
    proof {
        channels::given_has_all(
            begun,
            options.deep_view(),
            view.tracks,
            view.tracks.len() as int,
        );
    }
    let tempo = find_tempo_map(score, song.tempo_events.as_slice(), options.ppq);
    match score.conductor(
        options,
        &song.title,
        tempo.as_slice(),
        song.conductor_events.as_slice(),
    ) {
        Ok(_) => {},
        Err(e) => {
            return Err(e);
        },
    }
    let ghost s = score.deep_view();
    proof {
        tracks_ignore_diagnostics(
            s,
            view,
            song.deep_view(),
            options.deep_view(),
            allocations@,
            tempo@,
            view.tracks.len() as int,
        );
    }
    score.render_tracks(song, options, allocations.as_slice(), tempo.as_slice())
}

proof fn tracks_ignore_diagnostics(
    s: ScoreView,
    a: SongIrView,
    b: SongIrView,
    o: OptionsView,
    allocations: Seq<Allocation>,
    tempo: Seq<(u64, u32)>,
    n: int,
)
    requires
        a == (SongIrView { diagnostics: a.diagnostics, ..b }),
        0 <= n <= a.tracks.len(),
    ensures
        song::tracks_rendered(s, a, o, allocations, tempo, n) == song::tracks_rendered(
            s,
            b,
            o,
            allocations,
            tempo,
            n,
        ),
    decreases n,
{
    if n > 0 {
        tracks_ignore_diagnostics(s, a, b, o, allocations, tempo, n - 1);
    }
}

/// The events of a song in the order in which they are played. The song keeps
/// everything but its diagnostics, to which the rendering adds.
pub fn collect_midi_events(song: &mut SongIr, options: &ConversionOptions) -> (r: Result<
    Vec<RenderedEvent>,
    String,
>)
    ensures
        final(song).deep_view() == (SongIrView {
            diagnostics: final(song).deep_view().diagnostics,
            ..old(song).deep_view()
        }),
        match rendered(old(song).deep_view(), options.deep_view()) {
            Ok(s) => r matches Ok(v) && views::all_views(v@) == s.events
                && final(song).deep_view().diagnostics == s.diagnostics,
            Err(f) => r matches Err(x) && x@ == f.message
                && final(song).deep_view().diagnostics == f.diagnostics,
        },
{
    if options.ppq == 0 {
        return Err(copy_text("PPQ must be positive"));
    }
    if let Some(track) = find_endless_track(song.tracks.as_slice()) {
        return Err(join2("source steps out of range on track ", track.as_str()));
    }
    let ghost view = song.deep_view();
    let mut diagnostics = Diagnostics::default();
    std::mem::swap(&mut diagnostics, &mut song.diagnostics);
    let mut score = Score { events: Vec::new(), diagnostics };
    assert(score.deep_view().events =~= Seq::empty());
    let r = score_song(&mut score, song, options);
    let Score { events, diagnostics } = score;
    song.diagnostics = diagnostics;
    match r {
        Ok(_) => {
            let placed = rank_events(events, options.smfmap.details.event_order.as_slice());
            Ok(put_in_order(placed.as_slice()))
        },
        Err(e) => Err(e),
    }
}

/// The MIDI file of a song, and the diagnostics of its rendering.
pub open spec fn rendered_file(song: SongIrView, o: OptionsView) -> Result<
    (Seq<u8>, DiagnosticsView),
    Failure,
> {
    match rendered(song, o) {
        Err(e) => Err(e),
        Ok(s) => if o.ppq > 0x7fff {
            Err(s.failed("PPQ must be at most 32767 in a MIDI file"@))
        } else if song.tracks.len() >= 0xffff {
            Err(s.failed("too many tracks for a MIDI file"@))
        } else {
            match file::file_bytes(s.events, o.smfmap.smf_type, song.tracks.len() as int + 1, o.ppq) {
                Some(bytes) => Ok((bytes, s.diagnostics)),
                None => Err(s.failed("event times are too far apart for a MIDI file"@)),
            }
        },
    }
}

/// Renders a song as a MIDI file.
pub fn render_smf(song: &mut SongIr, options: &ConversionOptions) -> (r: Result<Vec<u8>, String>)
    ensures
        final(song).deep_view() == (SongIrView {
            diagnostics: final(song).deep_view().diagnostics,
            ..old(song).deep_view()
        }),
        match rendered_file(old(song).deep_view(), options.deep_view()) {
            Ok((bytes, diagnostics)) => r matches Ok(v) && v@ == bytes
                && final(song).deep_view().diagnostics == diagnostics,
            Err(f) => r matches Err(x) && x@ == f.message
                && final(song).deep_view().diagnostics == f.diagnostics,
        },
{
    let events = match collect_midi_events(song, options) {
        Ok(events) => events,
        Err(e) => {
            return Err(e);
        },
    };
    if options.ppq > 0x7fff {
        return Err(copy_text("PPQ must be at most 32767 in a MIDI file"));
    }
    if song.tracks.len() >= 0xffff {
        return Err(copy_text("too many tracks for a MIDI file"));
    }
    match write_file(
        events.as_slice(),
        options.smfmap.smf_type,
        (song.tracks.len() + 1) as u16,
        options.ppq,
    ) {
        Some(bytes) => Ok(bytes),
        None => Err(copy_text("event times are too far apart for a MIDI file")),
    }
}

} // verus!
