//! Notes with their envelopes and glides.

use vstd::prelude::*;

use crate::diagnostics::{DiagnosticsView, EnvelopeEventCount, EnvelopeEventCountView};
use crate::fraction;
use crate::ir::{EnvelopeMode, EnvelopeRef, RegisterContext, SourceFamily};
use crate::render::envelope;
use crate::render::envelope::{EnvelopePoint, find_envelope_points};
use crate::render::events::{PRI_ENVELOPE, PRI_INITIAL_EXPRESSION};
use crate::render::opll_pseudo_drum;
use crate::render::opll_pseudo_drum::push_drum;
use crate::render::pitch_glide;
use crate::render::score;
use crate::render::score::{Failure, Place, Score, ScoreView};
use crate::render::stage;
use crate::render::stage::{Moment, Stage, StageView, find_step_at};
use crate::smfmap;
use crate::text;
use crate::text::{copy_text, join2, number_text, same_text};
use crate::views;
use crate::views::push_viewed;

verus! {

// ---------------------------------------------------------------------------
// Envelopes
// ---------------------------------------------------------------------------
/// Whether an envelope becomes a controller.
pub open spec fn is_controller(mode: EnvelopeMode) -> bool {
    mode == EnvelopeMode::Cc11 || mode == EnvelopeMode::Cc7
}

/// The place of an envelope's value among the events of its tick.
pub open spec fn value_priority(v: StageView, start: u64, tick: u64) -> u8 {
    if tick == start && v.options.smfmap.details.begins_early(v.family) {
        PRI_INITIAL_EXPRESSION
    } else {
        PRI_ENVELOPE
    }
}

/// One thing that an envelope does beside the note that it is for. `controller`
/// is the one that values are given to, `at` tells the tone and the envelope.
pub open spec fn with_point(
    s: ScoreView,
    v: StageView,
    start: u64,
    point: EnvelopePoint,
    controller: Option<u8>,
    at: Moment,
) -> Result<ScoreView, Failure> {
    match point {
        EnvelopePoint::Value { tick, value } => match controller {
            Some(c) => Ok(
                s.with_control(v.place(tick), value_priority(v, start, tick), c, value),
            ),
            None => Ok(s),
        },
        EnvelopePoint::Tone { tick, tone } => match v.family {
            SourceFamily::Scc | SourceFamily::Opll => stage::tone_changed(s, v, tick, tone),
            _ => Ok(s),
        },
        EnvelopePoint::Register { tick, register, data } => stage::register_written(
            s,
            v,
            tick,
            register,
            data,
            RegisterContext::EnvelopeData,
            None,
            Moment { step: stage::step_at(tick, v.options.ppq), ..at },
        ),
    }
}

/// The first `n` things that an envelope does beside its note.
pub open spec fn with_points(
    s: ScoreView,
    v: StageView,
    start: u64,
    points: Seq<EnvelopePoint>,
    n: int,
    controller: Option<u8>,
    at: Moment,
) -> Result<ScoreView, Failure>
    decreases n,
{
    if n <= 0 || n > points.len() {
        Ok(s)
    } else {
        match with_points(s, v, start, points, n - 1, controller, at) {
            Ok(t) => with_point(t, v, start, points[n - 1], controller, at),
            Err(e) => Err(e),
        }
    }
}

proof fn points_failed_stay(
    s: ScoreView,
    v: StageView,
    start: u64,
    points: Seq<EnvelopePoint>,
    n: int,
    m: int,
    controller: Option<u8>,
    at: Moment,
)
    requires
        0 <= n <= m <= points.len(),
        with_points(s, v, start, points, n, controller, at) is Err,
    ensures
        with_points(s, v, start, points, m, controller, at) == with_points(
            s,
            v,
            start,
            points,
            n,
            controller,
            at,
        ),
    decreases m,
{
    if n < m {
        points_failed_stay(s, v, start, points, n, m - 1, controller, at);
    }
}

/// The values among the first `n` points.
pub open spec fn values_of(points: Seq<EnvelopePoint>, n: int) -> Seq<(u64, u8)>
    decreases n,
{
    if n <= 0 || n > points.len() {
        Seq::empty()
    } else {
        let before = values_of(points, n - 1);
        match points[n - 1] {
            EnvelopePoint::Value { tick, value } => before.push((tick, value)),
            _ => before,
        }
    }
}

/// The first `n` values without those that come too soon after one before.
pub open spec fn thinned(values: Seq<(u64, u8)>, n: int, least: u32) -> Seq<(u64, u8)>
    decreases n,
{
    if n <= 0 || n > values.len() {
        Seq::empty()
    } else {
        let before = thinned(values, n - 1, least);
        if before.len() > 0 && values[n - 1].0 < before.last().0 + least {
            before
        } else {
            before.push(values[n - 1])
        }
    }
}

fn thin_out(values: &[(u64, u8)], least: u32) -> (out: Vec<(u64, u8)>)
    ensures
        out@ == thinned(values@, values@.len() as int, least),
{
    let mut out: Vec<(u64, u8)> = Vec::new();
    let mut i: usize = 0;
    while i < values.len()
        invariant
            i <= values@.len(),
            out@ == thinned(values@, i as int, least),
        decreases values@.len() - i,
    {
        let near = out.len() > 0 && (values[i].0 as u128) < out[out.len() - 1].0 as u128
            + least as u128;
        if !near {
            out.push(values[i]);
        }
        i += 1;
    }
    out
}

/// The largest of the first `n` values.
pub open spec fn peak(values: Seq<(u64, u8)>, n: int) -> int
    decreases n,
{
    if n <= 0 || n > values.len() {
        0
    } else {
        pitch_glide::larger(peak(values, n - 1), values[n - 1].1 as int)
    }
}

/// A velocity lowered to a share of 127.
pub open spec fn scaled(velocity: u8, value: int) -> u8 {
    text::clamp_int(fraction::div_round(velocity * value, 127), 0, 127) as u8
}

pub fn scale_velocity(velocity: u8, value: u8) -> (r: u8)
    ensures
        r == scaled(velocity, value as int),
{
    assert(0 <= velocity * value <= 255 * 255) by (nonlinear_arith)
        requires
            0 <= velocity <= 255,
            0 <= value <= 255,
    ;
    let n: u32 = (velocity as u32 * value as u32 + 63) / 127;
    if n <= 127 {
        n as u8
    } else {
        127
    }
}

pub fn collect_values(points: &[EnvelopePoint]) -> (out: Vec<(u64, u8)>)
    ensures
        out@ == values_of(points@, points@.len() as int),
{
    let mut out: Vec<(u64, u8)> = Vec::new();
    let mut i: usize = 0;
    while i < points.len()
        invariant
            i <= points@.len(),
            out@ == values_of(points@, i as int),
        decreases points@.len() - i,
    {
        if let EnvelopePoint::Value { tick, value } = points[i] {
            out.push((tick, value));
        }
        i += 1;
    }
    out
}

pub fn find_peak(values: &[(u64, u8)]) -> (r: u8)
    ensures
        r == peak(values@, values@.len() as int),
{
    let mut best: u8 = 0;
    let mut i: usize = 0;
    while i < values.len()
        invariant
            i <= values@.len(),
            best == peak(values@, i as int),
        decreases values@.len() - i,
    {
        if values[i].1 > best {
            best = values[i].1;
        }
        i += 1;
    }
    best
}

impl Score {
    fn point(
        &mut self,
        v: &Stage,
        start: u64,
        point: EnvelopePoint,
        controller: Option<u8>,
        at: Moment,
    ) -> (r: Result<(), String>)
        ensures
            score::score_is(
                with_point(old(self).deep_view(), v.deep_view(), start, point, controller, at),
                final(self).deep_view(),
                r,
            ),
    {
        match point {
            EnvelopePoint::Value { tick, value } => {
                if let Some(c) = controller {
                    let priority: u8 = if tick == start && v.options.smfmap.details.begin_early(
                        v.family,
                    ) {
                        PRI_INITIAL_EXPRESSION
                    } else {
                        PRI_ENVELOPE
                    };
                    self.control(v.at(tick), priority, c, value);
                }
                Ok(())
            },
            EnvelopePoint::Tone { tick, tone } => match v.family {
                SourceFamily::Scc | SourceFamily::Opll => self.tone_change(v, tick, tone),
                _ => Ok(()),
            },
            EnvelopePoint::Register { tick, register, data } => self.register_write(
                v,
                tick,
                register,
                data,
                RegisterContext::EnvelopeData,
                None,
                Moment {
                    step: find_step_at(tick, v.options.ppq),
                    tone: at.tone,
                    envelope: at.envelope,
                },
            ),
        }
    }

    fn points(
        &mut self,
        v: &Stage,
        start: u64,
        points: &[EnvelopePoint],
        controller: Option<u8>,
        at: Moment,
    ) -> (r: Result<(), String>)
        ensures
            score::score_is(
                with_points(
                    old(self).deep_view(),
                    v.deep_view(),
                    start,
                    points@,
                    points@.len() as int,
                    controller,
                    at,
                ),
                final(self).deep_view(),
                r,
            ),
    {
        let ghost begin = self.deep_view();
        let mut i: usize = 0;
        while i < points.len()
            invariant
                i <= points@.len(),
                begin == old(self).deep_view(),
                with_points(begin, v.deep_view(), start, points@, i as int, controller, at) == Ok::<
                    ScoreView,
                    Failure,
                >(self.deep_view()),
            decreases points@.len() - i,
        {
            match self.point(v, start, points[i], controller, at) {
                Ok(_) => {},
                Err(e) => {
                    proof {
                        points_failed_stay(
                            begin,
                            v.deep_view(),
                            start,
                            points@,
                            i + 1,
                            points@.len() as int,
                            controller,
                            at,
                        );
                    }
                    return Err(e);
                },
            }
            i += 1;
        }
        Ok(())
    }
}

// ---------------------------------------------------------------------------
// Sound
// ---------------------------------------------------------------------------
/// A note from its start to its end.
pub open spec fn with_note(
    s: ScoreView,
    p: Place,
    end: u64,
    note: u8,
    velocity: u8,
) -> ScoreView {
    s.plus_events(opll_pseudo_drum::drum_events(p.midi_track, p.tick, end, p.channel, note, velocity))
}

/// A note cut where its loudness changes, from the `k`th value on; silent pieces
/// are left out.
pub open spec fn with_pieces(
    s: ScoreView,
    v: StageView,
    end: u64,
    note: u8,
    velocity: u8,
    values: Seq<(u64, u8)>,
    k: int,
) -> ScoreView
    decreases values.len() - k,
{
    if k < 0 || k >= values.len() {
        s
    } else {
        let loudness = scaled(velocity, values[k].1 as int);
        let until = if k + 1 < values.len() {
            values[k + 1].0
        } else {
            end
        };
        let t = if loudness == 0 {
            s
        } else {
            with_note(s, v.place(values[k].0), until, note, loudness)
        };
        with_pieces(t, v, end, note, velocity, values, k + 1)
    }
}

/// A note as its envelope lets it sound.
pub open spec fn with_sound(
    s: ScoreView,
    v: StageView,
    start: u64,
    end: u64,
    note: u8,
    velocity: u8,
    mode: EnvelopeMode,
    values: Seq<(u64, u8)>,
) -> ScoreView {
    if values.len() > 0 && mode == EnvelopeMode::SplitVelocity {
        with_pieces(s, v, end, note, velocity, values, 0)
    } else if values.len() > 0 && mode == EnvelopeMode::NoteVelocity {
        with_note(s, v.place(start), end, note, scaled(velocity, values[0].1 as int))
    } else {
        with_note(s, v.place(start), end, note, velocity)
    }
}

impl Score {
    pub fn note(&mut self, p: Place, end: u64, note: u8, velocity: u8)
        ensures
            final(self).deep_view() == with_note(old(self).deep_view(), p, end, note, velocity),
    {
        push_drum(&mut self.events, p.midi_track, p.tick, end, p.channel, note, velocity);
    }

    fn pieces(&mut self, v: &Stage, end: u64, note: u8, velocity: u8, values: &[(u64, u8)])
        ensures
            final(self).deep_view() == with_pieces(
                old(self).deep_view(),
                v.deep_view(),
                end,
                note,
                velocity,
                values@,
                0,
            ),
    {
        let ghost expected = with_pieces(
            self.deep_view(),
            v.deep_view(),
            end,
            note,
            velocity,
            values@,
            0,
        );
        let mut k: usize = 0;
        while k < values.len()
            invariant
                k <= values@.len(),
                expected == with_pieces(
                    self.deep_view(),
                    v.deep_view(),
                    end,
                    note,
                    velocity,
                    values@,
                    k as int,
                ),
            decreases values@.len() - k,
        {
            let loudness = scale_velocity(velocity, values[k].1);
            let until: u64 = if k + 1 < values.len() {
                values[k + 1].0
            } else {
                end
            };
            if loudness != 0 {
                self.note(v.at(values[k].0), until, note, loudness);
            }
            k += 1;
        }
    }

    fn sound(
        &mut self,
        v: &Stage,
        start: u64,
        end: u64,
        note: u8,
        velocity: u8,
        mode: EnvelopeMode,
        values: &[(u64, u8)],
    )
        ensures
            final(self).deep_view() == with_sound(
                old(self).deep_view(),
                v.deep_view(),
                start,
                end,
                note,
                velocity,
                mode,
                values@,
            ),
    {
        if values.len() > 0 && mode == EnvelopeMode::SplitVelocity {
            self.pieces(v, end, note, velocity, values);
        } else if values.len() > 0 && mode == EnvelopeMode::NoteVelocity {
            self.note(v.at(start), end, note, scale_velocity(velocity, values[0].1));
        } else {
            self.note(v.at(start), end, note, velocity);
        }
    }
}

/// How an envelope is named.
pub open spec fn envelope_name(reference: EnvelopeRef) -> Seq<char> {
    match reference {
        EnvelopeRef::E(id) => "@e"@ + text::decimal(id as nat),
        EnvelopeRef::R(id) => "@r"@ + text::decimal(id as nat),
    }
}

pub fn name_envelope(reference: EnvelopeRef) -> (r: String)
    ensures
        r@ == envelope_name(reference),
{
    match reference {
        EnvelopeRef::E(id) => {
            let n = number_text(id as u64);
            join2("@e", n.as_str())
        },
        EnvelopeRef::R(id) => {
            let n = number_text(id as u64);
            join2("@r", n.as_str())
        },
    }
}

/// The counts of envelope events with `n` more for an envelope of a track.
pub open spec fn counted(
    counts: Seq<EnvelopeEventCountView>,
    i: int,
    track: Seq<char>,
    envelope: Seq<char>,
    n: int,
) -> Seq<EnvelopeEventCountView>
    decreases counts.len() - i,
{
    if i < 0 || i >= counts.len() {
        counts.push(
            EnvelopeEventCountView {
                track,
                envelope,
                event_count: text::min_int(n, usize::MAX as int) as usize,
            },
        )
    } else if counts[i].track == track && counts[i].envelope == envelope {
        counts.update(
            i,
            EnvelopeEventCountView {
                track,
                envelope,
                event_count: text::min_int(counts[i].event_count + n, usize::MAX as int) as usize,
            },
        )
    } else {
        counted(counts, i + 1, track, envelope, n)
    }
}

pub open spec fn with_count(
    s: ScoreView,
    track: Seq<char>,
    envelope: Seq<char>,
    n: int,
) -> ScoreView {
    s.with_diagnostics(
        DiagnosticsView {
            envelope_event_counts: counted(
                s.diagnostics.envelope_event_counts,
                0,
                track,
                envelope,
                n,
            ),
            ..s.diagnostics
        },
    )
}

fn count_in(counts: &mut Vec<EnvelopeEventCount>, track: &str, envelope: &str, n: usize)
    ensures
        views::all_views(final(counts)@) == counted(
            views::all_views(old(counts)@),
            0,
            track@,
            envelope@,
            n as int,
        ),
{
    let ghost before = views::all_views(counts@);
    let mut i: usize = 0;
    while i < counts.len()
        invariant
            i <= counts@.len(),
            counts@ == old(counts)@,
            before == views::all_views(counts@),
            counted(before, 0, track@, envelope@, n as int) == counted(
                before,
                i as int,
                track@,
                envelope@,
                n as int,
            ),
        decreases counts@.len() - i,
    {
        assert(before[i as int] == counts@[i as int].deep_view());
        if same_text(counts[i].track.as_str(), track) && same_text(
            counts[i].envelope.as_str(),
            envelope,
        ) {
            let sum: usize = if counts[i].event_count > usize::MAX - n {
                usize::MAX
            } else {
                counts[i].event_count + n
            };
            let entry = EnvelopeEventCount {
                track: copy_text(track),
                envelope: copy_text(envelope),
                event_count: sum,
            };
            let ghost e = entry.deep_view();
            counts.set(i, entry);
            assert(views::all_views(counts@) =~= before.update(i as int, e));
            return;
        }
        i += 1;
    }
    push_viewed(
        counts,
        EnvelopeEventCount {
            track: copy_text(track),
            envelope: copy_text(envelope),
            event_count: n,
        },
    );
}

impl Score {
    fn count(&mut self, track: &str, envelope: &str, n: usize)
        ensures
            final(self).deep_view() == with_count(
                old(self).deep_view(),
                track@,
                envelope@,
                n as int,
            ),
    {
        count_in(&mut self.diagnostics.envelope_event_counts, track, envelope, n);
    }
}

/// A note with its envelope, which has been looked up.
#[verifier::opaque]
pub open spec fn enveloped(
    s: ScoreView,
    v: StageView,
    start: u64,
    end: u64,
    note: u8,
    velocity: u8,
    reference: EnvelopeRef,
    points: Seq<EnvelopePoint>,
    reported: bool,
    tone: Option<u8>,
) -> Result<(ScoreView, bool), Failure> {
    let m = v.options.smfmap;
    let asked = m.envelope_mode_of(v.family, v.options.envelope_mode);
    let mode = m.details.settled_mode(v.family, asked);
    let least = m.details.shortest_piece(v.family, asked);
    let all = values_of(points, points.len() as int);
    let values = if least == 0 {
        all
    } else {
        thinned(all, all.len() as int, least)
    };
    let at = Moment { step: None, tone, envelope: Some(smfmap::envelope_id(reference)) };
    let hidden = v.shared && is_controller(mode) && values.len() > 0;
    let controller = if is_controller(mode) && !v.shared {
        Some(v.options.smfmap.envelope_controller(v.family, mode))
    } else {
        None
    };
    let a = if hidden && !reported {
        s.reported(
            None,
            v.id,
            "envelope CC on shared MIDI channel"@,
            "envelope CC suppressed on a shared MIDI channel"@,
        )
    } else {
        s
    };
    match with_points(a, v, start, points, points.len() as int, controller, at) {
        Err(e) => Err(e),
        Ok(b) => {
            let c = with_sound(b, v, start, end, note, velocity, mode, values);
            Ok(
                (
                    if controller is Some && values.len() > 0 {
                        with_count(c, v.id, envelope_name(reference), values.len() as int)
                    } else {
                        c
                    },
                    reported || hidden,
                ),
            )
        },
    }
}

/// A note with its envelope, if it has one that is defined. The flag says whether
/// a hidden controller was reported.
pub open spec fn sounded(
    s: ScoreView,
    v: StageView,
    start: u64,
    end: u64,
    note: u8,
    velocity: u8,
    envelope: Option<EnvelopeRef>,
    reported: bool,
    tone: Option<u8>,
) -> Result<(ScoreView, bool), Failure> {
    match envelope {
        None => Ok((with_note(s, v.place(start), end, note, velocity), reported)),
        Some(reference) => match envelope::shape_of(v.envelopes, reference) {
            None => Ok((with_note(s, v.place(start), end, note, velocity), reported)),
            Some(shape) => {
                let loudness = v.options.smfmap.details.loudness(v.family, reference);
                enveloped(
                    s,
                    v,
                    start,
                    end,
                    note,
                    loudness.change.velocity(velocity),
                    reference,
                    envelope::envelope_points(shape, loudness, start, end, v.tempo, v.options.ppq),
                    reported,
                    tone,
                )
            },
        },
    }
}

/// Whether a changed score and flag are the expected ones, or the refusal is.
pub open spec fn flagged_is(
    expected: Result<(ScoreView, bool), Failure>,
    score: ScoreView,
    r: Result<bool, String>,
) -> bool {
    match expected {
        Ok((s, flag)) => score == s && r == Ok::<bool, String>(flag),
        Err(f) => r matches Err(x) && x@ == f.message && score.diagnostics == f.diagnostics,
    }
}

impl Score {
    fn enveloped(
        &mut self,
        v: &Stage,
        start: u64,
        end: u64,
        note: u8,
        velocity: u8,
        reference: EnvelopeRef,
        points: &[EnvelopePoint],
        reported: bool,
        tone: Option<u8>,
    ) -> (r: Result<bool, String>)
        ensures
            flagged_is(
                enveloped(
                    old(self).deep_view(),
                    v.deep_view(),
                    start,
                    end,
                    note,
                    velocity,
                    reference,
                    points@,
                    reported,
                    tone,
                ),
                final(self).deep_view(),
                r,
            ),
    {
        reveal(enveloped);
        let m = &v.options.smfmap;
        let asked = m.envelope_mode_for_family(v.family, v.options.envelope_mode);
        let mode = m.details.settle_mode(v.family, asked);
        let least = m.details.find_shortest_piece(v.family, asked);
        let is_cc = mode == EnvelopeMode::Cc11 || mode == EnvelopeMode::Cc7;
        let mut values = collect_values(points);
        if least != 0 {
            values = thin_out(values.as_slice(), least);
        }
        let id = match reference {
            EnvelopeRef::E(id) => id,
            EnvelopeRef::R(id) => id,
        };
        let at = Moment { step: None, tone, envelope: Some(id) };
        let hidden = v.shared && is_cc && values.len() > 0;
        let controller = if is_cc && !v.shared {
            Some(m.envelope_controller_for_family(v.family, mode))
        } else {
            None
        };
        if hidden && !reported {
            self.report(
                None,
                v.id,
                "envelope CC on shared MIDI channel",
                "envelope CC suppressed on a shared MIDI channel",
            );
        }
        match self.points(v, start, points, controller, at) {
            Err(e) => {
                return Err(e);
            },
            Ok(_) => {},
        }
        self.sound(v, start, end, note, velocity, mode, values.as_slice());
        if controller.is_some() && values.len() > 0 {
            let name = name_envelope(reference);
            self.count(v.id, name.as_str(), values.len());
        }
        Ok(reported || hidden)
    }

    pub fn sounded(
        &mut self,
        v: &Stage,
        start: u64,
        end: u64,
        note: u8,
        velocity: u8,
        envelope: Option<EnvelopeRef>,
        reported: bool,
        tone: Option<u8>,
    ) -> (r: Result<bool, String>)
        ensures
            flagged_is(
                sounded(
                    old(self).deep_view(),
                    v.deep_view(),
                    start,
                    end,
                    note,
                    velocity,
                    envelope,
                    reported,
                    tone,
                ),
                final(self).deep_view(),
                r,
            ),
    {
        if let Some(reference) = envelope {
            let loudness = v.options.smfmap.details.find_loudness(v.family, reference);
            if let Some(points) = find_envelope_points(
                v.envelopes,
                reference,
                loudness,
                start,
                end,
                v.tempo,
                v.options.ppq,
            ) {
                return self.enveloped(
                    v,
                    start,
                    end,
                    note,
                    loudness.change.find_velocity(velocity),
                    reference,
                    points.as_slice(),
                    reported,
                    tone,
                );
            }
        }
        self.note(v.at(start), end, note, velocity);
        Ok(reported)
    }
}

/// On a shared channel no envelope becomes a controller.
pub proof fn shared_channels_have_no_envelope_controllers(
    s: ScoreView,
    v: StageView,
    start: u64,
    tick: u64,
    value: u8,
    at: Moment,
)
    ensures
        with_point(s, v, start, EnvelopePoint::Value { tick, value }, None, at) == Ok::<
            ScoreView,
            Failure,
        >(s),
{
}

} // verus!
