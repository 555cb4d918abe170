//! Envelopes over time.
//!
//! An envelope moves sixty times a second, through every change of tempo.
//! Positions are counted in 3600ths of a tick: at one tempo a count is then the
//! whole number `ppq * bpm` of them.

use vstd::prelude::*;

use crate::ir::{
    ECommand, EnvelopeDefinition, EnvelopeR, EnvelopeRef, EnvelopeTable, EnvelopeTableView,
};
use crate::render::events;
use crate::render::events::tempo_at_tick;
use crate::smfmap;
use crate::smfmap::details::Loudness;
use crate::text;
use crate::text::clamp_i64;

verus! {

/// A position in 3600ths of a tick.
pub open spec fn position(tick: u64) -> nat {
    (tick * 3600) as nat
}

/// The tick nearest to a position.
pub open spec fn nearest_tick(pos: nat) -> nat {
    (pos + 1800) / 3600
}

/// How far a count reaches at a tempo.
pub open spec fn count_length(ppq: u16, bpm: u32) -> nat {
    if ppq == 0 || bpm == 0 {
        1
    } else {
        (ppq * bpm) as nat
    }
}

/// The position that a part of a count reaches: `left` is what it would reach
/// at the tempo of length `length`; the tempo points from `i` on are still ahead.
pub open spec fn reach(
    tempo: Seq<(u64, u32)>,
    ppq: u16,
    i: int,
    pos: nat,
    left: nat,
    length: nat,
) -> nat
    decreases tempo.len() - i,
{
    if i < 0 || i >= tempo.len() || pos + left <= position(tempo[i].0) {
        pos + left
    } else if position(tempo[i].0) <= pos {
        reach(tempo, ppq, i + 1, pos, left, length)
    } else {
        let border = position(tempo[i].0);
        let next = count_length(ppq, tempo[i].1);
        reach(
            tempo,
            ppq,
            i + 1,
            border,
            ((pos + left - border) as nat * next) / length,
            next,
        )
    }
}

/// The position one count later.
pub open spec fn next_count(tempo: Seq<(u64, u32)>, ppq: u16, pos: nat) -> nat {
    let length = count_length(ppq, events::tempo_at(tempo, tempo.len() as int, (pos / 3600) as u64));
    reach(tempo, ppq, 0, pos, length, length)
}

pub proof fn reach_is_ahead(
    tempo: Seq<(u64, u32)>,
    ppq: u16,
    i: int,
    pos: nat,
    left: nat,
    length: nat,
)
    requires
        length > 0,
    ensures
        reach(tempo, ppq, i, pos, left, length) >= pos,
        left > 0 ==> reach(tempo, ppq, i, pos, left, length) > pos,
    decreases tempo.len() - i,
{
    if i < 0 || i >= tempo.len() || pos + left <= position(tempo[i].0) {
    } else if position(tempo[i].0) <= pos {
        reach_is_ahead(tempo, ppq, i + 1, pos, left, length);
    } else {
        let border = position(tempo[i].0);
        let next = count_length(ppq, tempo[i].1);
        count_is_long(ppq, tempo[i].1);
        let rest = ((pos + left - border) as nat * next) / length;
        assert(rest >= 0) by (nonlinear_arith)
            requires
                rest == ((pos + left - border) as nat * next) / length,
                length > 0,
        ;
        reach_is_ahead(tempo, ppq, i + 1, border, rest, next);
    }
}

pub proof fn count_is_long(ppq: u16, bpm: u32)
    ensures
        1 <= count_length(ppq, bpm) <= 0xffff * 0xffff_ffff,
{
    if ppq != 0 && bpm != 0 {
        assert(1 <= ppq * bpm <= 0xffff * 0xffff_ffff) by (nonlinear_arith)
            requires
                1 <= ppq <= 0xffff,
                1 <= bpm <= 0xffff_ffff,
        ;
    }
}

/// Time goes on: the next count is later.
pub proof fn next_count_is_later(tempo: Seq<(u64, u32)>, ppq: u16, pos: nat)
    ensures
        next_count(tempo, ppq, pos) > pos,
{
    let bpm = events::tempo_at(tempo, tempo.len() as int, (pos / 3600) as u64);
    count_is_long(ppq, bpm);
    reach_is_ahead(tempo, ppq, 0, pos, count_length(ppq, bpm), count_length(ppq, bpm));
}

// ---------------------------------------------------------------------------
// What an envelope does
// ---------------------------------------------------------------------------
/// Something that an envelope does at a tick.
#[derive(Clone, Copy, Debug, PartialEq, Eq, Structural)]
pub enum EnvelopePoint {
    Value { tick: u64, value: u8 },
    Tone { tick: u64, tone: u8 },
    Register { tick: u64, register: u8, data: u8 },
}

/// A level that has come `done` of `count` steps on the way from one to another,
/// as a MIDI value.
pub open spec fn ramp_value(loudness: Loudness, from: int, to: int, done: int, count: int) -> u8 {
    loudness.value(from * count + (to - from) * done, count)
}

/// A level of sixteen as a MIDI value.
pub open spec fn level_value(loudness: Loudness, level: int) -> u8 {
    loudness.value(level, 1)
}

/// A walk through the commands of an envelope.
#[verifier::ext_equal]
pub struct WalkView {
    /// The command that comes next.
    pub at: int,
    /// How many of its counts are over.
    pub done: int,
    pub level: int,
    pub loop_at: Option<int>,
    /// The commands since time last went on.
    pub idle: int,
    pub pos: nat,
    /// The value that was last given.
    pub last: Option<u8>,
    pub loudness: Loudness,
}

impl WalkView {
    pub open spec fn begin(tick: u64, loudness: Loudness) -> Self {
        WalkView {
            at: 0,
            done: 0,
            level: 15,
            loop_at: None,
            idle: 0,
            pos: position(tick),
            last: None,
            loudness,
        }
    }

    pub open spec fn tick(self) -> u64 {
        nearest_tick(self.pos) as u64
    }

    /// Past a command that takes no time.
    pub open spec fn past(self) -> Self {
        WalkView { at: self.at + 1, done: 0, idle: self.idle + 1, ..self }
    }

    /// One count on; at the last count of a command, past it.
    pub open spec fn on(self, tempo: Seq<(u64, u32)>, ppq: u16, value: u8, level: int, over: bool) ->
        Self {
        WalkView {
            at: if over {
                self.at + 1
            } else {
                self.at
            },
            done: if over {
                0
            } else {
                self.done + 1
            },
            level,
            idle: 0,
            pos: next_count(tempo, ppq, self.pos),
            last: Some(value),
            ..self
        }
    }

    /// The value now, unless it is the one that was last given.
    pub open spec fn given(self, value: u8) -> Seq<EnvelopePoint> {
        if self.last == Some(value) {
            Seq::empty()
        } else {
            seq![EnvelopePoint::Value { tick: self.tick(), value }]
        }
    }
}

/// The value, the level and the counts of a command that takes time.
pub open spec fn timed(w: WalkView, c: ECommand) -> Option<(u8, int, int)> {
    match c {
        ECommand::Level(level) => Some((level_value(w.loudness, level as int), level as int, 1)),
        ECommand::Hold { level, count } => if count == 0 {
            None
        } else {
            Some((level_value(w.loudness, level as int), level as int, count as int))
        },
        ECommand::Ramp { target, count } => if count == 0 {
            None
        } else {
            Some(
                (
                    ramp_value(w.loudness, w.level, target as int, w.done + 1, count as int),
                    if w.done + 1 >= count {
                        target as int
                    } else {
                        w.level
                    },
                    count as int,
                ),
            )
        },
        _ => None,
    }
}

/// What a command that takes no time does.
pub open spec fn instant(w: WalkView, c: ECommand) -> (Seq<EnvelopePoint>, Option<WalkView>) {
    match c {
        ECommand::ToneChange(tone) => (
            seq![EnvelopePoint::Tone { tick: w.tick(), tone }],
            Some(w.past()),
        ),
        ECommand::RegisterWrite { register, data } => (
            seq![
                EnvelopePoint::Register {
                    tick: w.tick(),
                    register: text::clamp_int(register as int, 0, 255) as u8,
                    data: text::clamp_int(data as int, 0, 255) as u8,
                },
            ],
            Some(w.past()),
        ),
        ECommand::LoopStart => (
            Seq::empty(),
            Some(WalkView { loop_at: Some(w.at + 1), ..w.past() }),
        ),
        ECommand::LoopEnd => (
            Seq::empty(),
            match w.loop_at {
                Some(at) => Some(WalkView { at, ..w.past() }),
                None => None,
            },
        ),
        ECommand::Hold { level, .. } => (
            Seq::empty(),
            Some(WalkView { level: level as int, ..w.past() }),
        ),
        ECommand::Ramp { target, .. } => (
            Seq::empty(),
            Some(WalkView { level: target as int, ..w.past() }),
        ),
        _ => (Seq::empty(), Some(w.past())),
    }
}

/// What is left until a tick.
pub open spec fn time_left(pos: nat, end: u64) -> nat {
    if pos < position(end) {
        (position(end) - pos) as nat
    } else {
        0
    }
}

/// Whether an envelope has more to do before a tick.
pub open spec fn goes_on(w: WalkView, commands: Seq<ECommand>, end: u64) -> bool {
    0 <= w.at < commands.len() && w.idle < commands.len() && nearest_tick(w.pos) < end
}

/// The rest of an envelope until a tick. A loop in which no time passes ends it.
pub open spec fn walk(
    commands: Seq<ECommand>,
    w: WalkView,
    end: u64,
    tempo: Seq<(u64, u32)>,
    ppq: u16,
) -> Seq<EnvelopePoint>
    decreases time_left(w.pos, end), commands.len() - w.idle,
{
    if !goes_on(w, commands, end) {
        Seq::empty()
    } else {
        match timed(w, commands[w.at]) {
            Some((value, level, count)) => {
                proof {
                    next_count_is_later(tempo, ppq, w.pos);
                }
                w.given(value) + walk(
                    commands,
                    w.on(tempo, ppq, value, level, w.done + 1 >= count),
                    end,
                    tempo,
                    ppq,
                )
            },
            None => match instant(w, commands[w.at]) {
                (points, Some(next)) => points + walk(commands, next, end, tempo, ppq),
                (points, None) => points,
            },
        }
    }
}

/// An `@r` envelope on its way.
#[derive(Clone, Copy, Debug, PartialEq, Eq, Structural)]
pub enum Phase {
    Attack,
    Decay,
    Sustain,
}

/// The next level of an `@r` envelope. To change from one phase to the next takes
/// a count.
pub open spec fn next_level(e: EnvelopeR, phase: Phase, level: int) -> (Phase, int) {
    match phase {
        Phase::Attack => if level >= 255 {
            (Phase::Decay, level)
        } else {
            (Phase::Attack, text::min_int(level + e.ar, 255))
        },
        Phase::Decay => if level <= e.sl {
            (Phase::Sustain, level)
        } else {
            (Phase::Decay, if level - e.dr < e.sl {
                e.sl as int
            } else {
                level - e.dr
            })
        },
        Phase::Sustain => (Phase::Sustain, if level - e.sr < 0 {
            0
        } else {
            level - e.sr
        }),
    }
}

/// A level of 256 as a MIDI value.
pub open spec fn rate_value(loudness: Loudness, level: int) -> u8 {
    loudness.value(level * 15, 255)
}

/// The values of an `@r` envelope until a tick.
pub open spec fn rates(
    e: EnvelopeR,
    loudness: Loudness,
    phase: Phase,
    level: int,
    pos: nat,
    last: Option<u8>,
    end: u64,
    tempo: Seq<(u64, u32)>,
    ppq: u16,
) -> Seq<EnvelopePoint>
    decreases time_left(pos, end),
{
    if nearest_tick(pos) >= end {
        Seq::empty()
    } else {
        proof {
            next_count_is_later(tempo, ppq, pos);
        }
        let value = rate_value(loudness, level);
        let (next_phase, next) = next_level(e, phase, level);
        (if last == Some(value) {
            Seq::empty()
        } else {
            seq![EnvelopePoint::Value { tick: nearest_tick(pos) as u64, value }]
        }) + rates(
            e,
            loudness,
            next_phase,
            next,
            next_count(tempo, ppq, pos),
            Some(value),
            end,
            tempo,
            ppq,
        )
    }
}

/// The definition of an envelope; a number that is only defined in the other
/// way means that one.
pub enum EnvelopeShape {
    E(Seq<ECommand>),
    R(EnvelopeR),
}

pub open spec fn shape_of(t: EnvelopeTableView, reference: EnvelopeRef) -> Option<EnvelopeShape> {
    let id = smfmap::envelope_id(reference);
    let e = if t.e.contains_key(id) {
        Some(EnvelopeShape::E(t.e[id].commands))
    } else {
        None
    };
    let r = if t.r.contains_key(id) {
        Some(EnvelopeShape::R(t.r[id]))
    } else {
        None
    };
    match reference {
        EnvelopeRef::E(_) => if e is Some {
            e
        } else {
            r
        },
        EnvelopeRef::R(_) => if r is Some {
            r
        } else {
            e
        },
    }
}

/// What an envelope does from a tick until another.
pub open spec fn envelope_points(
    shape: EnvelopeShape,
    loudness: Loudness,
    start: u64,
    end: u64,
    tempo: Seq<(u64, u32)>,
    ppq: u16,
) -> Seq<EnvelopePoint> {
    match shape {
        EnvelopeShape::E(commands) => walk(
            commands,
            WalkView::begin(start, loudness),
            end,
            tempo,
            ppq,
        ),
        EnvelopeShape::R(e) => rates(
            e,
            loudness,
            Phase::Attack,
            e.al as int,
            position(start),
            None,
            end,
            tempo,
            ppq,
        ),
    }
}

// ---------------------------------------------------------------------------
// Execution
// ---------------------------------------------------------------------------
fn find_count_length(ppq: u16, bpm: u32) -> (r: u128)
    ensures
        r == count_length(ppq, bpm),
        1 <= r <= 0xffff * 0xffff_ffff,
{
    proof {
        count_is_long(ppq, bpm);
    }
    if ppq == 0 || bpm == 0 {
        1
    } else {
        ppq as u128 * bpm as u128
    }
}

proof fn part_of_count(rest: nat, next: nat, length: nat)
    requires
        rest <= length,
        0 < length <= 0xffff * 0xffff_ffff,
        next <= 0xffff * 0xffff_ffff,
    ensures
        (rest * next) / length <= next,
        rest * next <= 0xffff_ffff_ffff * 0xffff_ffff_ffff,
{
    assert(rest * next <= length * next) by (nonlinear_arith)
        requires
            rest <= length,
    ;
    assert((rest * next) / length <= next) by (nonlinear_arith)
        requires
            rest * next <= length * next,
            length > 0,
    ;
    assert(rest * next <= 0xffff_ffff_ffff * 0xffff_ffff_ffff) by (nonlinear_arith)
        requires
            rest <= 0xffff_ffff_ffff,
            next <= 0xffff_ffff_ffff,
    ;
}

fn find_next_count(tempo: &[(u64, u32)], ppq: u16, pos: u128) -> (r: u128)
    requires
        pos < 0x1_0000_0000_0000_0000 * 3600,
    ensures
        r == next_count(tempo@, ppq, pos as nat),
        pos < r <= 0x1_0000_0000_0000_0000 * 3600 + 0xffff_ffff_ffff,
{
    proof {
        next_count_is_later(tempo@, ppq, pos as nat);
    }
    let bpm = tempo_at_tick(tempo, (pos / 3600) as u64);
    let mut length: u128 = find_count_length(ppq, bpm);
    let mut left: u128 = length;
    let mut at: u128 = pos;
    let mut i: usize = 0;
    while i < tempo.len()
        invariant
            i <= tempo@.len(),
            at < 0x1_0000_0000_0000_0000 * 3600,
            left <= length,
            0 < length <= 0xffff * 0xffff_ffff,
            next_count(tempo@, ppq, pos as nat) == reach(
                tempo@,
                ppq,
                i as int,
                at as nat,
                left as nat,
                length as nat,
            ),
            next_count(tempo@, ppq, pos as nat) > pos,
        decreases tempo@.len() - i,
    {
        let border: u128 = tempo[i].0 as u128 * 3600;
        if at + left <= border {
            return at + left;
        }
        if border > at {
            let next = find_count_length(ppq, tempo[i].1);
            let rest: u128 = at + left - border;
            proof {
                part_of_count(rest as nat, next as nat, length as nat);
            }
            left = (rest * next) / length;
            at = border;
            length = next;
        }
        i += 1;
    }
    at + left
}

fn find_ramp_value(loudness: Loudness, from: i64, to: i64, done: i64, count: i64) -> (r: u8)
    requires
        0 <= from <= 255,
        0 <= to <= 255,
        0 <= done <= 0x1_0000_0000,
        1 <= count <= 0xffff_ffff,
    ensures
        r == ramp_value(loudness, from as int, to as int, done as int, count as int),
{
    assert(0 <= from * count <= 255 * 0x1_0000_0000) by (nonlinear_arith)
        requires
            0 <= from <= 255,
            1 <= count <= 0x1_0000_0000,
    ;
    assert(-255 * 0x1_0000_0000 <= (to - from) * done <= 255 * 0x1_0000_0000) by (nonlinear_arith)
        requires
            -255 <= to - from <= 255,
            0 <= done <= 0x1_0000_0000,
    ;
    loudness.find_value(from * count + (to - from) * done, count)
}

/// A walk through the commands of an envelope.
struct Walk {
    at: usize,
    done: u32,
    level: u8,
    loop_at: Option<usize>,
    idle: usize,
    pos: u128,
    last: Option<u8>,
    loudness: Loudness,
}

impl DeepView for Walk {
    type V = WalkView;

    closed spec fn deep_view(&self) -> WalkView {
        WalkView {
            at: self.at as int,
            done: self.done as int,
            level: self.level as int,
            loop_at: match self.loop_at {
                Some(at) => Some(at as int),
                None => None,
            },
            idle: self.idle as int,
            pos: self.pos as nat,
            last: self.last,
            loudness: self.loudness,
        }
    }
}

fn clamp_byte(v: i32) -> (r: u8)
    ensures
        r == text::clamp_int(v as int, 0, 255) as u8,
{
    clamp_i64(v as i64, 0, 255) as u8
}

impl Walk {
    fn begin(tick: u64, loudness: Loudness) -> (r: Self)
        ensures
            r.deep_view() == WalkView::begin(tick, loudness),
    {
        Walk {
            at: 0,
            done: 0,
            level: 15,
            loop_at: None,
            idle: 0,
            pos: tick as u128 * 3600,
            last: None,
            loudness,
        }
    }

    /// The value, the level and the counts of a command that takes time.
    fn timed(&self, c: &ECommand) -> (r: Option<(u8, u8, u32)>)
        ensures
            match r {
                Some((value, level, count)) => timed(self.deep_view(), *c) == Some(
                    (value, level as int, count as int),
                ) && count >= 1,
                None => timed(self.deep_view(), *c) is None,
            },
    {
        match c {
            ECommand::Level(level) => {
                Some((self.loudness.find_value(*level as i64, 1), *level, 1))
            },
            ECommand::Hold { level, count } => {
                if *count == 0 {
                    None
                } else {
                    Some((self.loudness.find_value(*level as i64, 1), *level, *count))
                }
            },
            ECommand::Ramp { target, count } => {
                if *count == 0 {
                    None
                } else {
                    let value = find_ramp_value(
                        self.loudness,
                        self.level as i64,
                        *target as i64,
                        self.done as i64 + 1,
                        *count as i64,
                    );
                    let level: u8 = if self.done as u64 + 1 >= *count as u64 {
                        *target
                    } else {
                        self.level
                    };
                    Some((value, level, *count))
                }
            },
            _ => None,
        }
    }

    /// Gives the value now and goes one count on.
    fn on(
        &mut self,
        out: &mut Vec<EnvelopePoint>,
        value: u8,
        level: u8,
        count: u32,
        tempo: &[(u64, u32)],
        ppq: u16,
        end: u64,
    )
        requires
            nearest_tick(old(self).deep_view().pos) < end,
            old(self).deep_view().at < usize::MAX,
            count >= 1,
        ensures
            final(out)@ == old(out)@ + old(self).deep_view().given(value),
            final(self).deep_view() == old(self).deep_view().on(
                tempo@,
                ppq,
                value,
                level as int,
                old(self).deep_view().done + 1 >= count,
            ),
            old(self).deep_view().pos < final(self).deep_view().pos <= 0x1_0000_0000_0000_0000
                * 3600 + 0xffff_ffff_ffff,
    {
        if self.last != Some(value) {
            out.push(
                EnvelopePoint::Value { tick: ((self.pos + 1800) / 3600) as u64, value },
            );
        }
        self.pos = find_next_count(tempo, ppq, self.pos);
        if self.done as u64 + 1 >= count as u64 {
            self.at += 1;
            self.done = 0;
        } else {
            self.done += 1;
        }
        self.level = level;
        self.idle = 0;
        self.last = Some(value);
    }

    /// Does what a command that takes no time does; `false` where the envelope
    /// ends.
    fn instant(&mut self, out: &mut Vec<EnvelopePoint>, c: &ECommand, end: u64) -> (r: bool)
        requires
            nearest_tick(old(self).deep_view().pos) < end,
            old(self).deep_view().at < usize::MAX,
            old(self).deep_view().idle < usize::MAX,
        ensures
            ({
                let (points, next) = instant(old(self).deep_view(), *c);
                &&& final(out)@ == old(out)@ + points
                &&& r == (next is Some)
                &&& next matches Some(w) ==> final(self).deep_view() == w
            }),
    {
        let tick: u64 = ((self.pos + 1800) / 3600) as u64;
        let next: usize = self.at + 1;
        match c {
            ECommand::ToneChange(tone) => {
                out.push(EnvelopePoint::Tone { tick, tone: *tone });
                self.at = next;
            },
            ECommand::RegisterWrite { register, data } => {
                out.push(
                    EnvelopePoint::Register {
                        tick,
                        register: clamp_byte(*register),
                        data: clamp_byte(*data),
                    },
                );
                self.at = next;
            },
            ECommand::LoopStart => {
                self.loop_at = Some(next);
                self.at = next;
            },
            ECommand::LoopEnd => {
                match self.loop_at {
                    Some(at) => {
                        self.at = at;
                    },
                    None => {
                        return false;
                    },
                }
            },
            ECommand::Hold { level, .. } => {
                self.level = *level;
                self.at = next;
            },
            ECommand::Ramp { target, .. } => {
                self.level = *target;
                self.at = next;
            },
            _ => {
                self.at = next;
            },
        }
        self.done = 0;
        self.idle += 1;
        true
    }
}

fn walk_points(
    commands: &[ECommand],
    loudness: Loudness,
    start: u64,
    end: u64,
    tempo: &[(u64, u32)],
    ppq: u16,
) -> (out: Vec<EnvelopePoint>)
    ensures
        out@ == walk(commands@, WalkView::begin(start, loudness), end, tempo@, ppq),
{
    let ghost all = walk(commands@, WalkView::begin(start, loudness), end, tempo@, ppq);
    let mut out: Vec<EnvelopePoint> = Vec::new();
    let mut w = Walk::begin(start, loudness);
    assert(all =~= out@ + all);
    while w.at < commands.len() && w.idle < commands.len() && (w.pos + 1800) / 3600 < end as u128
        invariant
            all == walk(commands@, WalkView::begin(start, loudness), end, tempo@, ppq),
            all == out@ + walk(commands@, w.deep_view(), end, tempo@, ppq),
            w.pos <= 0x1_0000_0000_0000_0000 * 3600 + 0xffff_ffff_ffff,
        decreases time_left(w.pos as nat, end), commands@.len() - w.idle,
    {
        let ghost before = out@;
        let ghost v = w.deep_view();
        assert(goes_on(v, commands@, end));
        let c = commands[w.at];
        match w.timed(&c) {
            Some((value, level, count)) => {
                w.on(&mut out, value, level, count, tempo, ppq, end);
                proof {
                    let rest = walk(commands@, w.deep_view(), end, tempo@, ppq);
                    assert(before + (v.given(value) + rest) =~= out@ + rest);
                }
            },
            None => {
                if !w.instant(&mut out, &c, end) {
                    return out;
                }
                proof {
                    let rest = walk(commands@, w.deep_view(), end, tempo@, ppq);
                    let points = instant(v, c).0;
                    assert(before + (points + rest) =~= out@ + rest);
                }
            },
        }
    }
    assert(!goes_on(w.deep_view(), commands@, end));
    assert(out@ + Seq::<EnvelopePoint>::empty() =~= out@);
    out
}

fn find_next_level(e: &EnvelopeR, phase: Phase, level: u8) -> (r: (Phase, u8))
    ensures
        (r.0, r.1 as int) == next_level(*e, phase, level as int),
{
    match phase {
        Phase::Attack => {
            if level >= 255 {
                (Phase::Decay, level)
            } else if level as u16 + e.ar as u16 >= 255 {
                (Phase::Attack, 255)
            } else {
                (Phase::Attack, level + e.ar)
            }
        },
        Phase::Decay => {
            if level <= e.sl {
                (Phase::Sustain, level)
            } else if level as u16 <= e.dr as u16 + e.sl as u16 {
                (Phase::Decay, e.sl)
            } else {
                (Phase::Decay, level - e.dr)
            }
        },
        Phase::Sustain => {
            if level <= e.sr {
                (Phase::Sustain, 0)
            } else {
                (Phase::Sustain, level - e.sr)
            }
        },
    }
}

fn rate_points(
    e: &EnvelopeR,
    loudness: Loudness,
    start: u64,
    end: u64,
    tempo: &[(u64, u32)],
    ppq: u16,
) -> (out: Vec<EnvelopePoint>)
    ensures
        out@ == rates(
            *e,
            loudness,
            Phase::Attack,
            e.al as int,
            position(start),
            None,
            end,
            tempo@,
            ppq,
        ),
{
    let ghost all = rates(
        *e,
        loudness,
        Phase::Attack,
        e.al as int,
        position(start),
        None,
        end,
        tempo@,
        ppq,
    );
    let mut out: Vec<EnvelopePoint> = Vec::new();
    let mut phase = Phase::Attack;
    let mut level: u8 = e.al;
    let mut pos: u128 = start as u128 * 3600;
    let mut last: Option<u8> = None;
    assert(all =~= out@ + all);
    while (pos + 1800) / 3600 < end as u128
        invariant
            all == rates(
                *e,
                loudness,
                Phase::Attack,
                e.al as int,
                position(start),
                None,
                end,
                tempo@,
                ppq,
            ),
            all == out@ + rates(
                *e,
                loudness,
                phase,
                level as int,
                pos as nat,
                last,
                end,
                tempo@,
                ppq,
            ),
            pos <= 0x1_0000_0000_0000_0000 * 3600 + 0xffff_ffff_ffff,
        decreases time_left(pos as nat, end),
    {
        let ghost before = out@;
        let ghost old_last = last;
        let value = loudness.find_value(level as i64 * 15, 255);
        let tick: u64 = ((pos + 1800) / 3600) as u64;
        if last != Some(value) {
            out.push(EnvelopePoint::Value { tick, value });
        }
        let (next_phase, next) = find_next_level(e, phase, level);
        let later = find_next_count(tempo, ppq, pos);
        proof {
            let rest = rates(
                *e,
                loudness,
                next_phase,
                next as int,
                later as nat,
                Some(value),
                end,
                tempo@,
                ppq,
            );
            let given = if old_last == Some(value) {
                Seq::empty()
            } else {
                seq![EnvelopePoint::Value { tick, value }]
            };
            assert(before + (given + rest) =~= out@ + rest);
        }
        phase = next_phase;
        level = next;
        pos = later;
        last = Some(value);
    }
    assert(out@ + Seq::<EnvelopePoint>::empty() =~= out@);
    out
}

/// What the named envelope does from a tick until another; `None` where it is
/// not defined.
pub fn find_envelope_points(
    table: &EnvelopeTable,
    reference: EnvelopeRef,
    loudness: Loudness,
    start: u64,
    end: u64,
    tempo: &[(u64, u32)],
    ppq: u16,
) -> (r: Option<Vec<EnvelopePoint>>)
    ensures
        match shape_of(table.deep_view(), reference) {
            Some(shape) => r matches Some(v) && v@ == envelope_points(
                shape,
                loudness,
                start,
                end,
                tempo@,
                ppq,
            ),
            None => r is None,
        },
{
    let other = match reference {
        EnvelopeRef::E(id) => EnvelopeRef::R(id),
        EnvelopeRef::R(id) => EnvelopeRef::E(id),
    };
    let found = match table.get(reference) {
        Some(d) => Some(d),
        None => table.get(other),
    };
    match found {
        Some(EnvelopeDefinition::E(e)) => Some(
            walk_points(e.commands.as_slice(), loudness, start, end, tempo, ppq),
        ),
        Some(EnvelopeDefinition::R(e)) => Some(rate_points(e, loudness, start, end, tempo, ppq)),
        None => None,
    }
}

} // verus!
