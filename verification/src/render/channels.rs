//! The MIDI channels of the source tracks.

use vstd::prelude::*;

use crate::diagnostics::{ChannelAllocation, ChannelAllocationView, DiagnosticsView};
use crate::ir::{
    ChannelOverflowPolicy, ConversionOptions, OptionsView, TrackIr, TrackIrView, TrackKind,
};
use crate::render::opll_pseudo_drum;
use crate::render::opll_pseudo_drum::find_drum_channel;
use crate::render::score::{Failure, Score, ScoreView};
use crate::smfmap::{DrumOutputMode, PsgNoiseDefaultAction, SmfMapConfig, SmfMapConfigView};
use crate::text;
use crate::text::{copy_text, join2};
use crate::views;
use crate::views::push_viewed;

verus! {

/// A MIDI channel on a port.
#[derive(Clone, Copy, Debug, PartialEq, Eq, Structural)]
pub struct Allocation {
    pub channel: u8,
    pub port: u8,
}

/// The channel that a track must have: the configured one, and for drums that of
/// the drums.
pub open spec fn fixed_channel(m: SmfMapConfigView, track: Seq<char>, kind: TrackKind) -> Option<
    u8,
> {
    match m.midi_channel(track) {
        Some(c) => Some(c),
        None => if kind == TrackKind::Rhythm {
            Some(text::min_int(m.rhythm_channel as int, 15) as u8)
        } else {
            match m.drum_map(track, kind) {
                Some(map) => if map.output.mode == DrumOutputMode::Replace {
                    Some(opll_pseudo_drum::drum_channel(map.output, m.rhythm_channel))
                } else {
                    None
                },
                None => None,
            }
        },
    }
}

fn find_fixed_channel(m: &SmfMapConfig, track: &str, kind: TrackKind) -> (r: Option<u8>)
    ensures
        r == fixed_channel(m.deep_view(), track@, kind),
{
    match m.midi_channel_for_track(track) {
        Some(c) => Some(c),
        None => {
            if kind == TrackKind::Rhythm {
                Some(
                    if m.rhythm_channel <= 15 {
                        m.rhythm_channel
                    } else {
                        15
                    },
                )
            } else {
                match m.opll_pseudo_drum_map_for_track(track, kind) {
                    Some(map) => {
                        if map.output.mode == DrumOutputMode::Replace {
                            Some(find_drum_channel(&map.output, m.rhythm_channel))
                        } else {
                            None
                        }
                    },
                    None => None,
                }
            }
        },
    }
}

/// Whether noise becomes drums.
pub open spec fn noise_is_drums(m: SmfMapConfigView) -> bool {
    m.psg_noise_enabled && m.psg_noise_drum_map_enabled && m.psg_noise_default_action
        == PsgNoiseDefaultAction::DrumMap
}

/// Whether one of the first `n` tracks must have a channel.
pub open spec fn is_taken(m: SmfMapConfigView, tracks: Seq<TrackIrView>, n: int, channel: u8) -> bool
    decreases n,
{
    if n <= 0 || n > tracks.len() {
        noise_is_drums(m) && channel == m.psg_noise_drum_channel
    } else {
        is_taken(m, tracks, n - 1, channel) || fixed_channel(
            m,
            tracks[n - 1].source_id,
            tracks[n - 1].kind,
        ) == Some(channel)
    }
}

/// The channels below `n` that no track must have.
pub open spec fn free_channels(m: SmfMapConfigView, tracks: Seq<TrackIrView>, n: int) -> Seq<u8>
    decreases n,
{
    if n <= 0 || n > 16 {
        Seq::empty()
    } else {
        let before = free_channels(m, tracks, n - 1);
        if is_taken(m, tracks, tracks.len() as int, (n - 1) as u8) {
            before
        } else {
            before.push((n - 1) as u8)
        }
    }
}

fn find_taken(m: &SmfMapConfig, tracks: &[TrackIr], channel: u8) -> (r: bool)
    ensures
        r == is_taken(m.deep_view(), views::all_views(tracks@), tracks@.len() as int, channel),
{
    let ghost all = views::all_views(tracks@);
    let mut taken = m.psg_noise_enabled && m.psg_noise_drum_map_enabled
        && m.psg_noise_default_action == PsgNoiseDefaultAction::DrumMap && channel
        == m.psg_noise_drum_channel;
    let mut i: usize = 0;
    while i < tracks.len()
        invariant
            i <= tracks@.len(),
            all == views::all_views(tracks@),
            taken == is_taken(m.deep_view(), all, i as int, channel),
        decreases tracks@.len() - i,
    {
        assert(all[i as int] == tracks@[i as int].deep_view());
        let fixed = find_fixed_channel(m, tracks[i].source_id.as_str(), tracks[i].kind);
        if fixed == Some(channel) {
            taken = true;
        }
        i += 1;
    }
    taken
}

fn find_free_channels(m: &SmfMapConfig, tracks: &[TrackIr]) -> (r: Vec<u8>)
    ensures
        r@ == free_channels(m.deep_view(), views::all_views(tracks@), 16),
{
    let mut out: Vec<u8> = Vec::new();
    let mut c: u8 = 0;
    while c < 16
        invariant
            c <= 16,
            out@ == free_channels(m.deep_view(), views::all_views(tracks@), c as int),
        decreases 16 - c,
    {
        if !find_taken(m, tracks, c) {
            out.push(c);
        }
        c += 1;
    }
    out
}

/// The port of a track that asks for none of its own.
pub open spec fn configured_port(m: SmfMapConfigView, track: Seq<char>) -> u8 {
    match m.midi_port(track) {
        Some(p) => p,
        None => 0,
    }
}

/// What the tracks were given so far.
#[verifier::ext_equal]
pub struct Given {
    pub allocations: Seq<Allocation>,
    pub floating: int,
    pub score: ScoreView,
}

/// The channel of the `n`th track without one of its own, and whether it is
/// shared.
pub open spec fn floating_channel(
    free: Seq<u8>,
    n: int,
    port: u8,
    policy: ChannelOverflowPolicy,
) -> Option<(Allocation, bool)> {
    if 0 <= n < free.len() {
        Some((Allocation { channel: free[n], port }, false))
    } else if free.len() == 0 {
        None
    } else {
        match policy {
            ChannelOverflowPolicy::Error => None,
            ChannelOverflowPolicy::Shared => Some(
                (Allocation { channel: free[n % free.len() as int], port }, true),
            ),
            ChannelOverflowPolicy::MultiPort => Some(
                (
                    Allocation {
                        channel: free[n % free.len() as int],
                        port: text::min_int(port + n / free.len() as int, 127) as u8,
                    },
                    false,
                ),
            ),
        }
    }
}

fn find_floating_channel(free: &[u8], n: usize, port: u8, policy: ChannelOverflowPolicy) -> (r:
    Option<(Allocation, bool)>)
    ensures
        r == floating_channel(free@, n as int, port, policy),
{
    if n < free.len() {
        return Some((Allocation { channel: free[n], port }, false));
    }
    if free.len() == 0 {
        return None;
    }
    match policy {
        ChannelOverflowPolicy::Error => None,
        ChannelOverflowPolicy::Shared => Some(
            (Allocation { channel: free[n % free.len()], port }, true),
        ),
        ChannelOverflowPolicy::MultiPort => {
            let round: usize = n / free.len();
            let next: u8 = if round >= 128 || round + port as usize >= 127 {
                127
            } else {
                (round + port as usize) as u8
            };
            Some((Allocation { channel: free[n % free.len()], port: next }, false))
        },
    }
}

pub open spec fn overflow_error(track: Seq<char>) -> Seq<char> {
    "MIDI channel overflow: no channel is left for track "@ + track
}

/// The diagnostics with the channel of a track.
pub open spec fn allocated(
    d: DiagnosticsView,
    track: Seq<char>,
    midi_track: usize,
    a: Allocation,
) -> DiagnosticsView {
    DiagnosticsView {
        channel_allocations: d.channel_allocations.push(
            ChannelAllocationView {
                source_track: track,
                midi_track,
                midi_channel: a.channel,
                midi_port: a.port,
            },
        ),
        ..d
    }
}

/// The next track with its channel.
pub open spec fn give_channel(
    g: Given,
    o: OptionsView,
    free: Seq<u8>,
    t: TrackIrView,
    midi_track: usize,
) -> Result<Given, Failure> {
    let m = o.smfmap;
    let port = configured_port(m, t.source_id);
    match fixed_channel(m, t.source_id, t.kind) {
        Some(channel) => {
            let a = Allocation { channel, port };
            Ok(
                Given {
                    allocations: g.allocations.push(a),
                    floating: g.floating,
                    score: g.score.with_diagnostics(
                        allocated(g.score.diagnostics, t.source_id, midi_track, a),
                    ),
                },
            )
        },
        None => match floating_channel(free, g.floating, port, o.channel_overflow) {
            None => Err(g.score.failed(overflow_error(t.source_id))),
            Some((a, shared)) => {
                let s = if shared {
                    g.score.reported(
                        None,
                        t.source_id,
                        "channel-overflow shared"@,
                        "MIDI channel shared with another source track"@,
                    )
                } else {
                    g.score
                };
                Ok(
                    Given {
                        allocations: g.allocations.push(a),
                        floating: g.floating + 1,
                        score: s.with_diagnostics(
                            allocated(s.diagnostics, t.source_id, midi_track, a),
                        ),
                    },
                )
            },
        },
    }
}

/// The channels of the first `n` tracks; the tracks of the output follow the
/// conductor's.
pub open spec fn given_channels(s: ScoreView, o: OptionsView, tracks: Seq<TrackIrView>, n: int) ->
    Result<Given, Failure>
    decreases n,
{
    if n <= 0 || n > tracks.len() {
        Ok(Given { allocations: Seq::empty(), floating: 0, score: s })
    } else {
        match given_channels(s, o, tracks, n - 1) {
            Ok(g) => give_channel(
                g,
                o,
                free_channels(o.smfmap, tracks, 16),
                tracks[n - 1],
                n as usize,
            ),
            Err(e) => Err(e),
        }
    }
}

/// Every track is given a channel.
pub proof fn given_has_all(s: ScoreView, o: OptionsView, tracks: Seq<TrackIrView>, n: int)
    requires
        0 <= n <= tracks.len(),
    ensures
        given_channels(s, o, tracks, n) matches Ok(g) ==> g.allocations.len() == n,
    decreases n,
{
    if n > 0 {
        given_has_all(s, o, tracks, n - 1);
    }
}

proof fn refused_stays(s: ScoreView, o: OptionsView, tracks: Seq<TrackIrView>, n: int, m: int)
    requires
        0 <= n <= m <= tracks.len(),
        given_channels(s, o, tracks, n) is Err,
    ensures
        given_channels(s, o, tracks, m) == given_channels(s, o, tracks, n),
    decreases m,
{
    if n < m {
        refused_stays(s, o, tracks, n, m - 1);
    }
}

impl Score {
    fn allocate(&mut self, track: &str, midi_track: usize, a: Allocation)
        ensures
            final(self).deep_view() == old(self).deep_view().with_diagnostics(
                allocated(old(self).deep_view().diagnostics, track@, midi_track, a),
            ),
    {
        push_viewed(
            &mut self.diagnostics.channel_allocations,
            ChannelAllocation {
                source_track: copy_text(track),
                midi_track,
                midi_channel: a.channel,
                midi_port: a.port,
            },
        );
    }
}

/// Gives every track its channel.
pub fn allocate_channels(score: &mut Score, options: &ConversionOptions, tracks: &[TrackIr]) -> (r:
    Result<Vec<Allocation>, String>)
    ensures
        match given_channels(
            old(score).deep_view(),
            options.deep_view(),
            views::all_views(tracks@),
            tracks@.len() as int,
        ) {
            Ok(g) => r matches Ok(v) && v@ == g.allocations && final(score).deep_view() == g.score,
            Err(f) => r matches Err(x) && x@ == f.message
                && final(score).deep_view().diagnostics == f.diagnostics,
        },
{
    let ghost all = views::all_views(tracks@);
    let ghost o = options.deep_view();
    let ghost start = score.deep_view();
    let free = find_free_channels(&options.smfmap, tracks);
    let mut out: Vec<Allocation> = Vec::new();
    let mut floating: usize = 0;
    let mut i: usize = 0;
    while i < tracks.len()
        invariant
            i <= tracks@.len(),
            floating <= i,
            all == views::all_views(tracks@),
            o == options.deep_view(),
            start == old(score).deep_view(),
            free@ == free_channels(o.smfmap, all, 16),
            given_channels(start, o, all, i as int) == Ok::<Given, Failure>(
                Given {
                    allocations: out@,
                    floating: floating as int,
                    score: score.deep_view(),
                },
            ),
        decreases tracks@.len() - i,
    {
        assert(all[i as int] == tracks@[i as int].deep_view());
        let ghost given = Given {
            allocations: out@,
            floating: floating as int,
            score: score.deep_view(),
        };
        let id = tracks[i].source_id.as_str();
        let port: u8 = match options.smfmap.midi_port_for_track(id) {
            Some(p) => p,
            None => 0,
        };
        match find_fixed_channel(&options.smfmap, id, tracks[i].kind) {
            Some(channel) => {
                let a = Allocation { channel, port };
                score.allocate(id, i + 1, a);
                out.push(a);
            },
            None => {
                match find_floating_channel(
                    free.as_slice(),
                    floating,
                    port,
                    options.channel_overflow,
                ) {
                    None => {
                        proof {
                            refused_stays(start, o, all, i + 1, all.len() as int);
                        }
                        return Err(
                            join2("MIDI channel overflow: no channel is left for track ", id),
                        );
                    },
                    Some((a, shared)) => {
                        if shared {
                            score.report(
                                None,
                                id,
                                "channel-overflow shared",
                                "MIDI channel shared with another source track",
                            );
                        }
                        score.allocate(id, i + 1, a);
                        out.push(a);
                        floating += 1;
                    },
                }
            },
        }
        i += 1;
    }
    Ok(out)
}

/// Whether another track has the same channel on the same port.
pub open spec fn is_shared(allocations: Seq<Allocation>, i: int) -> bool {
    exists|k: int|
        0 <= k < allocations.len() && k != i && #[trigger] allocations[k] == allocations[i]
}

pub fn find_shared(allocations: &[Allocation], i: usize) -> (r: bool)
    requires
        i < allocations@.len(),
    ensures
        r == is_shared(allocations@, i as int),
{
    let mut k: usize = 0;
    while k < allocations.len()
        invariant
            i < allocations@.len(),
            k <= allocations@.len(),
            forall|j: int| 0 <= j < k && j != i ==> #[trigger] allocations@[j] != allocations@[i as int],
        decreases allocations@.len() - k,
    {
        if k != i && allocations[k] == allocations[i] {
            assert(allocations@[k as int] == allocations@[i as int]);
            return true;
        }
        k += 1;
    }
    false
}

// ---------------------------------------------------------------------------
// Laws
// ---------------------------------------------------------------------------
/// How many of the first `n` tracks have no channel of their own.
pub open spec fn floats_before(m: SmfMapConfigView, tracks: Seq<TrackIrView>, n: int) -> int
    decreases n,
{
    if n <= 0 || n > tracks.len() {
        0
    } else {
        floats_before(m, tracks, n - 1) + if fixed_channel(
            m,
            tracks[n - 1].source_id,
            tracks[n - 1].kind,
        ) is None {
            1int
        } else {
            0
        }
    }
}

proof fn floats_grow(m: SmfMapConfigView, tracks: Seq<TrackIrView>, i: int, j: int)
    requires
        0 <= i < j <= tracks.len(),
        fixed_channel(m, tracks[i].source_id, tracks[i].kind) is None,
    ensures
        0 <= floats_before(m, tracks, i) < floats_before(m, tracks, j),
    decreases j,
{
    if j == i + 1 {
        floats_are_counted(m, tracks, i);
    } else {
        floats_grow(m, tracks, i, j - 1);
    }
}

proof fn floats_are_counted(m: SmfMapConfigView, tracks: Seq<TrackIrView>, n: int)
    ensures
        floats_before(m, tracks, n) >= 0,
    decreases n,
{
    if 0 < n <= tracks.len() {
        floats_are_counted(m, tracks, n - 1);
    }
}

/// The free channels ascend, and no track must have one of them.
pub proof fn free_channels_are_free(m: SmfMapConfigView, tracks: Seq<TrackIrView>, n: int)
    requires
        0 <= n <= 16,
    ensures
        ({
            let free = free_channels(m, tracks, n);
            &&& forall|i: int|
                0 <= i < free.len() ==> (#[trigger] free[i]) < n && !is_taken(
                    m,
                    tracks,
                    tracks.len() as int,
                    free[i],
                )
            &&& forall|i: int, j: int|
                0 <= i < j < free.len() ==> (#[trigger] free[i]) < (#[trigger] free[j])
        }),
    decreases n,
{
    if n > 0 {
        free_channels_are_free(m, tracks, n - 1);
        let before = free_channels(m, tracks, n - 1);
        let free = free_channels(m, tracks, n);
        if is_taken(m, tracks, tracks.len() as int, (n - 1) as u8) {
            assert(free == before);
        } else {
            assert(free == before.push((n - 1) as u8));
            assert forall|i: int| 0 <= i < free.len() implies (#[trigger] free[i]) < n
                && !is_taken(m, tracks, tracks.len() as int, free[i]) by {
                if i < before.len() {
                    assert(free[i] == before[i]);
                }
            }
            assert forall|i: int, j: int| 0 <= i < j < free.len() implies (#[trigger] free[i]) < (
            #[trigger] free[j]) by {
                assert(free[i] == before[i]);
                if j < before.len() {
                    assert(free[j] == before[j]);
                }
            }
        }
    }
}

proof fn fixed_is_taken(m: SmfMapConfigView, tracks: Seq<TrackIrView>, i: int, n: int, c: u8)
    requires
        0 <= i < n <= tracks.len(),
        fixed_channel(m, tracks[i].source_id, tracks[i].kind) == Some(c),
    ensures
        is_taken(m, tracks, n, c),
    decreases n,
{
    if i < n - 1 {
        fixed_is_taken(m, tracks, i, n - 1, c);
    }
}

proof fn given_one_by_one(s: ScoreView, o: OptionsView, tracks: Seq<TrackIrView>, n: int, i: int)
    requires
        0 <= i < n <= tracks.len(),
        given_channels(s, o, tracks, n) is Ok,
    ensures
        ({
            let g = given_channels(s, o, tracks, n)->Ok_0;
            let free = free_channels(o.smfmap, tracks, 16);
            let port = configured_port(o.smfmap, tracks[i].source_id);
            &&& g.allocations.len() == n
            &&& g.floating == floats_before(o.smfmap, tracks, n)
            &&& match fixed_channel(o.smfmap, tracks[i].source_id, tracks[i].kind) {
                Some(c) => g.allocations[i] == (Allocation { channel: c, port }),
                None => {
                    let f = floating_channel(
                        free,
                        floats_before(o.smfmap, tracks, i),
                        port,
                        o.channel_overflow,
                    );
                    f is Some && g.allocations[i] == (f->0).0
                },
            }
        }),
    decreases n,
{
    given_has_all(s, o, tracks, n);
    given_has_all(s, o, tracks, n - 1);
    if n > 1 {
        given_one_by_one(s, o, tracks, n - 1, if i < n - 1 { i } else { n - 2 });
    }
}

/// Every track has the channel that it must have. The others are given channels
/// that no track must have and that drums of noise do not need; unless channels
/// may be shared or other ports used, no two of them are given the same one.
pub proof fn channels_do_not_collide(s: ScoreView, o: OptionsView, tracks: Seq<TrackIrView>)
    requires
        given_channels(s, o, tracks, tracks.len() as int) is Ok,
    ensures
        ({
            let m = o.smfmap;
            let a = given_channels(s, o, tracks, tracks.len() as int)->Ok_0.allocations;
            let fixed = |i: int| fixed_channel(m, tracks[i].source_id, tracks[i].kind);
            &&& a.len() == tracks.len()
            &&& forall|i: int|
                0 <= i < a.len() && fixed(i) is Some ==> (#[trigger] a[i]).channel == fixed(i)->0
            &&& forall|i: int|
                0 <= i < a.len() && fixed(i) is None ==> (#[trigger] a[i]).channel < 16
                    && !is_taken(m, tracks, tracks.len() as int, a[i].channel)
            &&& forall|i: int, j: int|
                0 <= i < a.len() && 0 <= j < a.len() && fixed(i) is None && fixed(j) is Some ==> (
                #[trigger] a[i]).channel != (#[trigger] a[j]).channel
            &&& o.channel_overflow == ChannelOverflowPolicy::Error ==> forall|i: int, j: int|
                0 <= i < j < a.len() && fixed(i) is None && fixed(j) is None ==> (
                #[trigger] a[i]).channel != (#[trigger] a[j]).channel
        }),
{
    let m = o.smfmap;
    let n = tracks.len() as int;
    let a = given_channels(s, o, tracks, n)->Ok_0.allocations;
    let free = free_channels(m, tracks, 16);
    let fixed = |i: int| fixed_channel(m, tracks[i].source_id, tracks[i].kind);
    given_has_all(s, o, tracks, n);
    free_channels_are_free(m, tracks, 16);
    assert forall|i: int| 0 <= i < a.len() && fixed(i) is Some implies (#[trigger] a[i]).channel
        == fixed(i)->0 by {
        given_one_by_one(s, o, tracks, n, i);
    }
    assert forall|i: int| 0 <= i < a.len() && fixed(i) is None implies (#[trigger] a[i]).channel
        < 16 && !is_taken(m, tracks, n, a[i].channel) by {
        given_one_by_one(s, o, tracks, n, i);
        floats_are_counted(m, tracks, i);
        let k = floats_before(m, tracks, i);
        if k >= free.len() {
            assert(0 <= k % (free.len() as int) < free.len());
        }
    }
    assert forall|i: int, j: int|
        0 <= i < a.len() && 0 <= j < a.len() && fixed(i) is None && fixed(j) is Some implies (
    #[trigger] a[i]).channel != (#[trigger] a[j]).channel by {
        fixed_is_taken(m, tracks, j, n, fixed(j)->0);
    }
    if o.channel_overflow == ChannelOverflowPolicy::Error {
        assert forall|i: int, j: int|
            0 <= i < j < a.len() && fixed(i) is None && fixed(j) is None implies (
        #[trigger] a[i]).channel != (#[trigger] a[j]).channel by {
            given_one_by_one(s, o, tracks, n, i);
            given_one_by_one(s, o, tracks, n, j);
            floats_grow(m, tracks, i, j);
        }
    }
}

} // verus!
