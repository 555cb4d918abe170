//! How envelopes, tones and the order of events are rendered in detail.

use std::collections::BTreeMap;

use vstd::prelude::*;
use vstd::std_specs::btree::*;

use crate::fraction;
use crate::ir::{EnvelopeMode, EnvelopeRef, SourceFamily};
use crate::smfmap;
use crate::smfmap::formula;
use crate::smfmap::formula::{LIMIT, Quotient, read_decimal};
use crate::smfmap::merge;
use crate::smfmap::merge::{
    keep, yaml_byte_key, yaml_entry, yaml_entry_count, yaml_is_mapping, yaml_u8_at_most,
};
use crate::text;
use crate::text::{clamp_i64, copy_text, same_text};
use crate::views;
use crate::views::push_viewed;
use crate::yaml;
use crate::yaml::{Yaml, YamlView, get_field, yaml_bool, yaml_i32, yaml_string, yaml_u8};

verus! {

// ---------------------------------------------------------------------------
// Settings
// ---------------------------------------------------------------------------
/// What becomes of the choice of a PSG envelope that is not defined.
#[derive(Clone, Copy, Debug, PartialEq, Eq, Structural)]
pub enum UndefinedPolicy {
    WarnAndNoEnvelope,
    WarnAndKeepPrevious,
    Error,
}

impl UndefinedPolicy {
    pub open spec fn named(s: Seq<char>) -> Option<Self> {
        if s == "warn_and_no_envelope"@ {
            Some(UndefinedPolicy::WarnAndNoEnvelope)
        } else if s == "warn_and_keep_previous"@ {
            Some(UndefinedPolicy::WarnAndKeepPrevious)
        } else if s == "error"@ {
            Some(UndefinedPolicy::Error)
        } else {
            None
        }
    }

    pub fn parse(s: &str) -> (r: Option<Self>)
        ensures
            r == Self::named(s@),
    {
        if same_text(s, "warn_and_no_envelope") {
            Some(UndefinedPolicy::WarnAndNoEnvelope)
        } else if same_text(s, "warn_and_keep_previous") {
            Some(UndefinedPolicy::WarnAndKeepPrevious)
        } else if same_text(s, "error") {
            Some(UndefinedPolicy::Error)
        } else {
            None
        }
    }
}

/// How the levels of envelopes become MIDI values: from one range to another, in
/// a straight line.
#[derive(Clone, Copy, Debug, PartialEq, Eq, Structural)]
pub struct VolumeScale {
    pub mgsc_min: u8,
    pub mgsc_max: u8,
    pub midi_min: u8,
    pub midi_max: u8,
}

impl VolumeScale {
    /// Sixteen levels over the whole range of MIDI.
    pub open spec fn initial() -> Self {
        VolumeScale { mgsc_min: 0, mgsc_max: 15, midi_min: 0, midi_max: 127 }
    }

    pub fn standard() -> (r: Self)
        ensures
            r == Self::initial(),
    {
        VolumeScale { mgsc_min: 0, mgsc_max: 15, midi_min: 0, midi_max: 127 }
    }

    /// The MIDI value of the level `num / den`. A level outside the range counts
    /// as its nearest end; a range without extent gives the upper value.
    pub open spec fn value(self, num: int, den: int) -> u8 {
        if self.mgsc_min >= self.mgsc_max {
            self.midi_max
        } else {
            let low = self.mgsc_min * den;
            let x = text::clamp_int(num, low, self.mgsc_max * den) - low;
            let span = (self.mgsc_max - self.mgsc_min) * den;
            if self.midi_min <= self.midi_max {
                (self.midi_min + fraction::div_round(x * (self.midi_max - self.midi_min), span)) as u8
            } else {
                (self.midi_min - fraction::div_round(x * (self.midi_min - self.midi_max), span)) as u8
            }
        }
    }

    pub fn find_value(self, num: i64, den: i64) -> (r: u8)
        requires
            1 <= den <= 0x1_0000_0000,
            -0x400_0000_0000 <= num <= 0x400_0000_0000,
        ensures
            r == self.value(num as int, den as int),
    {
        if self.mgsc_min >= self.mgsc_max {
            return self.midi_max;
        }
        let (a, b): (i64, i64) = (self.mgsc_min as i64, self.mgsc_max as i64);
        assert(0 <= a * den <= 255 * 0x1_0000_0000 && 0 <= b * den <= 255 * 0x1_0000_0000 && a
            * den < b * den && (b - a) * den == b * den - a * den) by (nonlinear_arith)
            requires
                0 <= a < b <= 255,
                1 <= den <= 0x1_0000_0000,
        ;
        let low: i64 = a * den;
        let x: i64 = clamp_i64(num, low, b * den) - low;
        let span: i64 = (b - a) * den;
        let up = self.midi_min <= self.midi_max;
        let range: i64 = if up {
            self.midi_max as i64 - self.midi_min as i64
        } else {
            self.midi_min as i64 - self.midi_max as i64
        };
        assert(0 <= x <= span);
        assert(0 <= x * range <= range * span && range * span <= 255 * 255 * 0x1_0000_0000)
            by (nonlinear_arith)
            requires
                0 <= x <= span,
                1 <= span <= 255 * 0x1_0000_0000,
                0 <= range <= 255,
        ;
        let n: i64 = x * range;
        let q: i64 = (n + span / 2) / span;
        assert(0 <= q <= range) by (nonlinear_arith)
            requires
                q == (n + span / 2) / span as int,
                0 <= n <= range * span,
                1 <= span,
        ;
        if up {
            (self.midi_min as i64 + q) as u8
        } else {
            (self.midi_min as i64 - q) as u8
        }
    }
}

/// What a configuration changes in one PSG envelope.
#[derive(Clone, Copy, Debug, PartialEq, Eq, Structural)]
pub struct EnvelopeOverride {
    /// What values are multiplied by.
    pub multiplier: Quotient,
    pub velocity_bias: i32,
    pub min_cc: u8,
    pub max_cc: u8,
}

impl EnvelopeOverride {
    pub open spec fn unset() -> Self {
        EnvelopeOverride {
            multiplier: Quotient { num: 1, den: 1 },
            velocity_bias: 0,
            min_cc: 0,
            max_cc: 127,
        }
    }

    pub fn none() -> (r: Self)
        ensures
            r == Self::unset(),
    {
        EnvelopeOverride {
            multiplier: Quotient { num: 1, den: 1 },
            velocity_bias: 0,
            min_cc: 0,
            max_cc: 127,
        }
    }

    /// Whether the values can be multiplied.
    pub open spec fn multiplies(self) -> bool {
        self.multiplier.is_small() && self.multiplier.num >= 0
    }

    /// A value, multiplied, rounded and in the range.
    pub open spec fn value(self, value: u8) -> u8 {
        let n = if self.multiplies() {
            fraction::div_round(value * self.multiplier.num, self.multiplier.den as int)
        } else {
            value as int
        };
        if n < self.min_cc {
            self.min_cc
        } else if n > self.max_cc {
            self.max_cc
        } else {
            n as u8
        }
    }

    /// A velocity with the bias, as loud as a note can be; silence stays silent.
    pub open spec fn velocity(self, velocity: u8) -> u8 {
        if velocity == 0 || self.velocity_bias == 0 {
            velocity
        } else {
            text::clamp_int(velocity + self.velocity_bias, 1, 127) as u8
        }
    }

    pub fn find_value(self, value: u8) -> (r: u8)
        ensures
            r == self.value(value),
    {
        let (n, d): (i128, i128) = (self.multiplier.num, self.multiplier.den);
        let q: i128 = if 0 <= n && n <= LIMIT && 0 < d && d <= LIMIT {
            assert(0 <= value * n <= 255_000_000_000_000) by (nonlinear_arith)
                requires
                    0 <= value <= 255,
                    0 <= n <= 1_000_000_000_000,
            ;
            (value as i128 * n + d / 2) / d
        } else {
            value as i128
        };
        if q < self.min_cc as i128 {
            self.min_cc
        } else if q > self.max_cc as i128 {
            self.max_cc
        } else {
            q as u8
        }
    }

    pub fn find_velocity(self, velocity: u8) -> (r: u8)
        ensures
            r == self.velocity(velocity),
    {
        if velocity == 0 || self.velocity_bias == 0 {
            velocity
        } else {
            clamp_i64(velocity as i64 + self.velocity_bias as i64, 1, 127) as u8
        }
    }
}

/// How loud an envelope is: its scale, and what a configuration changes in it.
#[derive(Clone, Copy, Debug, PartialEq, Eq, Structural)]
pub struct Loudness {
    pub scale: VolumeScale,
    pub change: EnvelopeOverride,
}

impl Loudness {
    pub open spec fn initial() -> Self {
        Loudness { scale: VolumeScale::initial(), change: EnvelopeOverride::unset() }
    }

    /// The MIDI value of the level `num / den`.
    pub open spec fn value(self, num: int, den: int) -> u8 {
        self.change.value(self.scale.value(num, den))
    }

    pub fn standard() -> (r: Self)
        ensures
            r == Self::initial(),
    {
        Loudness { scale: VolumeScale::standard(), change: EnvelopeOverride::none() }
    }

    pub fn find_value(self, num: i64, den: i64) -> (r: u8)
        requires
            1 <= den <= 0x1_0000_0000,
            -0x400_0000_0000 <= num <= 0x400_0000_0000,
        ensures
            r == self.value(num as int, den as int),
    {
        self.change.find_value(self.scale.find_value(num, den))
    }
}

/// The details of rendering that a configuration can set.
#[derive(Debug)]
pub struct RenderDetails {
    pub undefined_policy: UndefinedPolicy,
    /// Whether PSG envelopes become controllers.
    pub emit_expression_cc: bool,
    /// The scale of PSG envelopes.
    pub volume_scale: VolumeScale,
    /// Changes in PSG envelopes, by number.
    pub overrides: BTreeMap<u8, EnvelopeOverride>,
    /// Whether the first value of an SCC or OPLL envelope stands before its note.
    pub initial_cc_before_note: bool,
    /// Whether SCC and OPLL envelopes cut notes in place of a controller.
    pub split_velocity: bool,
    /// The shortest piece that notes are cut into.
    pub min_segment_ticks: u32,
    /// Whether every change of tone is named by a text.
    pub tone_text_meta: bool,
    /// The order of events at one tick, by class; empty for the usual one.
    pub event_order: Vec<u8>,
    /// Settings that were found and do not count.
    pub passed_over: Vec<String>,
}

#[verifier::ext_equal]
pub struct RenderDetailsView {
    pub undefined_policy: UndefinedPolicy,
    pub emit_expression_cc: bool,
    pub volume_scale: VolumeScale,
    pub overrides: Map<u8, EnvelopeOverride>,
    pub initial_cc_before_note: bool,
    pub split_velocity: bool,
    pub min_segment_ticks: u32,
    pub tone_text_meta: bool,
    pub event_order: Seq<u8>,
    pub passed_over: Seq<Seq<char>>,
}

impl DeepView for RenderDetails {
    type V = RenderDetailsView;

    open spec fn deep_view(&self) -> RenderDetailsView {
        RenderDetailsView {
            undefined_policy: self.undefined_policy,
            emit_expression_cc: self.emit_expression_cc,
            volume_scale: self.volume_scale,
            overrides: self.overrides@,
            initial_cc_before_note: self.initial_cc_before_note,
            split_velocity: self.split_velocity,
            min_segment_ticks: self.min_segment_ticks,
            tone_text_meta: self.tone_text_meta,
            event_order: self.event_order@,
            passed_over: views::all_views(self.passed_over@),
        }
    }
}

impl RenderDetailsView {
    pub open spec fn initial() -> Self {
        RenderDetailsView {
            undefined_policy: UndefinedPolicy::WarnAndNoEnvelope,
            emit_expression_cc: true,
            volume_scale: VolumeScale::initial(),
            overrides: Map::empty(),
            initial_cc_before_note: true,
            split_velocity: false,
            min_segment_ticks: 30,
            tone_text_meta: false,
            event_order: Seq::empty(),
            passed_over: Seq::empty(),
        }
    }

    /// What is changed in the PSG envelope of a number.
    pub open spec fn override_of(self, id: u8) -> EnvelopeOverride {
        if self.overrides.contains_key(id) {
            self.overrides[id]
        } else {
            EnvelopeOverride::unset()
        }
    }

    /// How loud an envelope is on a track of a family.
    pub open spec fn loudness(self, family: SourceFamily, reference: EnvelopeRef) -> Loudness {
        match family {
            SourceFamily::Psg | SourceFamily::PsgNoise => Loudness {
                scale: self.volume_scale,
                change: self.override_of(smfmap::envelope_id(reference)),
            },
            _ => Loudness::initial(),
        }
    }

    /// What becomes of envelopes that would be rendered in a mode.
    pub open spec fn settled_mode(self, family: SourceFamily, mode: EnvelopeMode) -> EnvelopeMode {
        match family {
            SourceFamily::Psg | SourceFamily::PsgNoise => if (mode == EnvelopeMode::Cc11 || mode
                == EnvelopeMode::Cc7) && !self.emit_expression_cc {
                EnvelopeMode::Off
            } else {
                mode
            },
            _ => if (mode == EnvelopeMode::Cc11 || mode == EnvelopeMode::Cc7)
                && self.split_velocity {
                EnvelopeMode::SplitVelocity
            } else {
                mode
            },
        }
    }

    /// The shortest piece of a note that stands for a controller; none otherwise.
    pub open spec fn shortest_piece(self, family: SourceFamily, mode: EnvelopeMode) -> u32 {
        if self.settled_mode(family, mode) == EnvelopeMode::SplitVelocity && mode
            != EnvelopeMode::SplitVelocity {
            self.min_segment_ticks
        } else {
            0
        }
    }

    /// Whether the first value of an envelope stands before its note.
    pub open spec fn begins_early(self, family: SourceFamily) -> bool {
        match family {
            SourceFamily::Psg | SourceFamily::PsgNoise => true,
            _ => self.initial_cc_before_note,
        }
    }
}

impl RenderDetails {
    pub fn find_loudness(&self, family: SourceFamily, reference: EnvelopeRef) -> (r: Loudness)
        ensures
            r == self.deep_view().loudness(family, reference),
    {
        let id = match reference {
            EnvelopeRef::E(id) => id,
            EnvelopeRef::R(id) => id,
        };
        match family {
            SourceFamily::Psg | SourceFamily::PsgNoise => Loudness {
                scale: self.volume_scale,
                change: match self.overrides.get(&id) {
                    Some(o) => *o,
                    None => EnvelopeOverride::none(),
                },
            },
            _ => Loudness::standard(),
        }
    }

    /// What becomes of envelopes that would be rendered in a mode.
    pub fn settle_mode(&self, family: SourceFamily, mode: EnvelopeMode) -> (r: EnvelopeMode)
        ensures
            r == self.deep_view().settled_mode(family, mode),
    {
        let controls = mode == EnvelopeMode::Cc11 || mode == EnvelopeMode::Cc7;
        match family {
            SourceFamily::Psg | SourceFamily::PsgNoise => if controls && !self.emit_expression_cc {
                EnvelopeMode::Off
            } else {
                mode
            },
            _ => if controls && self.split_velocity {
                EnvelopeMode::SplitVelocity
            } else {
                mode
            },
        }
    }

    pub fn find_shortest_piece(&self, family: SourceFamily, mode: EnvelopeMode) -> (r: u32)
        ensures
            r == self.deep_view().shortest_piece(family, mode),
    {
        if self.settle_mode(family, mode) == EnvelopeMode::SplitVelocity && mode
            != EnvelopeMode::SplitVelocity {
            self.min_segment_ticks
        } else {
            0
        }
    }

    pub fn begin_early(&self, family: SourceFamily) -> (r: bool)
        ensures
            r == self.deep_view().begins_early(family),
    {
        match family {
            SourceFamily::Psg | SourceFamily::PsgNoise => true,
            _ => self.initial_cc_before_note,
        }
    }
}

impl Default for RenderDetails {
    fn default() -> (r: Self)
        ensures
            r.deep_view() == RenderDetailsView::initial(),
    {
        let r = RenderDetails {
            undefined_policy: UndefinedPolicy::WarnAndNoEnvelope,
            emit_expression_cc: true,
            volume_scale: VolumeScale::standard(),
            overrides: BTreeMap::new(),
            initial_cc_before_note: true,
            split_velocity: false,
            min_segment_ticks: 30,
            tone_text_meta: false,
            event_order: Vec::new(),
            passed_over: Vec::new(),
        };
        assert(views::all_views(r.passed_over@) =~= Seq::empty());
        r
    }
}

// ---------------------------------------------------------------------------
// The order of events
// ---------------------------------------------------------------------------
/// The class of events that a name stands for.
pub open spec fn order_class(name: Seq<char>) -> Option<u8> {
    if name == "note_off"@ {
        Some(1)
    } else if name == "bank_select"@ {
        Some(2)
    } else if name == "program_change"@ {
        Some(3)
    } else if name == "rpn_nrpn"@ {
        Some(4)
    } else if name == "cc"@ {
        Some(5)
    } else if name == "pitch_bend"@ {
        Some(6)
    } else if name == "initial_expression"@ {
        Some(7)
    } else if name == "meta"@ {
        Some(8)
    } else if name == "note_on"@ {
        Some(9)
    } else if name == "envelope_curve"@ {
        Some(10)
    } else {
        None
    }
}

fn find_order_class(name: &str) -> (r: Option<u8>)
    ensures
        r == order_class(name@),
{
    if same_text(name, "note_off") {
        Some(1)
    } else if same_text(name, "bank_select") {
        Some(2)
    } else if same_text(name, "program_change") {
        Some(3)
    } else if same_text(name, "rpn_nrpn") {
        Some(4)
    } else if same_text(name, "cc") {
        Some(5)
    } else if same_text(name, "pitch_bend") {
        Some(6)
    } else if same_text(name, "initial_expression") {
        Some(7)
    } else if same_text(name, "meta") {
        Some(8)
    } else if same_text(name, "note_on") {
        Some(9)
    } else if same_text(name, "envelope_curve") {
        Some(10)
    } else {
        None
    }
}

/// The classes that the first `n` items of a list name.
pub open spec fn classes_in(items: Seq<YamlView>, n: int) -> Seq<u8>
    decreases n,
{
    if n <= 0 || n > items.len() {
        Seq::empty()
    } else {
        let before = classes_in(items, n - 1);
        match yaml::text_of(Some(items[n - 1])) {
            Some(name) => match order_class(name) {
                Some(class) => before.push(class),
                None => before,
            },
            None => before,
        }
    }
}

fn read_classes(items: &Vec<Yaml>, Ghost(all): Ghost<Seq<YamlView>>) -> (r: Vec<u8>)
    requires
        all.len() == items@.len(),
        forall|k: int| 0 <= k < items@.len() ==> #[trigger] all[k] == items@[k].contents(),
    ensures
        r@ == classes_in(all, all.len() as int),
{
    let mut out: Vec<u8> = Vec::new();
    let mut i: usize = 0;
    while i < items.len()
        invariant
            i <= items@.len(),
            all.len() == items@.len(),
            forall|k: int| 0 <= k < items@.len() ==> #[trigger] all[k] == items@[k].contents(),
            out@ == classes_in(all, i as int),
        decreases items@.len() - i,
    {
        assert(all[i as int] == items@[i as int].contents());
        match yaml_string(Some(&items[i])) {
            Some(name) => {
                match find_order_class(name) {
                    Some(class) => {
                        out.push(class);
                    },
                    None => {},
                }
            },
            None => {},
        }
        i += 1;
    }
    out
}

/// The first place of a class in a list, from `i` on; its length where it has
/// none.
pub open spec fn class_place(order: Seq<u8>, class: u8, i: int) -> int
    decreases order.len() - i,
{
    if 0 <= i < order.len() && order[i] != class {
        class_place(order, class, i + 1)
    } else {
        i
    }
}

/// Where a class of events comes at a tick. Events that set up a track stay first;
/// classes that are not listed follow those that are, in their usual order.
pub open spec fn class_rank(order: Seq<u8>, class: u8) -> u8 {
    if order.len() == 0 || class == 0 {
        class
    } else {
        let k = class_place(order, class, 0);
        text::min_int(
            if k < order.len() {
                1 + k
            } else {
                order.len() + class
            },
            255,
        ) as u8
    }
}

pub fn find_class_rank(order: &[u8], class: u8) -> (r: u8)
    ensures
        r == class_rank(order@, class),
{
    if order.len() == 0 || class == 0 {
        return class;
    }
    let mut k: usize = 0;
    while k < order.len() && order[k] != class
        invariant
            k <= order@.len(),
            class_place(order@, class, 0) == class_place(order@, class, k as int),
        decreases order@.len() - k,
    {
        k += 1;
    }
    if k < order.len() {
        if k < 254 {
            1 + k as u8
        } else {
            255
        }
    } else if order.len() <= 255 && order.len() as u16 + class as u16 <= 255 {
        order.len() as u8 + class
    } else {
        255
    }
}

// ---------------------------------------------------------------------------
// Reading
// ---------------------------------------------------------------------------
pub open spec fn undefined_policy_of(v: Option<YamlView>) -> Option<UndefinedPolicy> {
    match yaml::text_of(v) {
        Some(s) => UndefinedPolicy::named(s),
        None => None,
    }
}

fn yaml_undefined_policy(v: Option<&Yaml>) -> (r: Option<UndefinedPolicy>)
    ensures
        r == undefined_policy_of(yaml::opt_contents(v)),
{
    match yaml_string(v) {
        Some(s) => UndefinedPolicy::parse(s),
        None => None,
    }
}

/// A scale with the settings of a mapping.
pub open spec fn merged_scale(s: VolumeScale, v: Option<YamlView>) -> VolumeScale {
    VolumeScale {
        mgsc_min: merge::or_keep(yaml::u8_of(yaml::field(v, "mgsc_min"@)), s.mgsc_min),
        mgsc_max: merge::or_keep(yaml::u8_of(yaml::field(v, "mgsc_max"@)), s.mgsc_max),
        midi_min: merge::or_keep(merge::at_most(yaml::u8_of(yaml::field(v, "midi_min"@)), 127), s.midi_min),
        midi_max: merge::or_keep(merge::at_most(yaml::u8_of(yaml::field(v, "midi_max"@)), 127), s.midi_max),
    }
}

fn merge_scale(s: VolumeScale, v: Option<&Yaml>) -> (r: VolumeScale)
    ensures
        r == merged_scale(s, yaml::opt_contents(v)),
{
    VolumeScale {
        mgsc_min: keep(yaml_u8(get_field(v, "mgsc_min")), s.mgsc_min),
        mgsc_max: keep(yaml_u8(get_field(v, "mgsc_max")), s.mgsc_max),
        midi_min: keep(yaml_u8_at_most(get_field(v, "midi_min"), 127), s.midi_min),
        midi_max: keep(yaml_u8_at_most(get_field(v, "midi_max"), 127), s.midi_max),
    }
}

/// A number that is not negative, in decimal notation.
pub open spec fn ratio_of(v: Option<YamlView>) -> Option<Quotient> {
    match v {
        Some(YamlView::Number { text, .. }) => formula::decimal_value(text),
        Some(YamlView::Text(s)) => formula::decimal_value(s),
        _ => None,
    }
}

fn yaml_ratio(v: Option<&Yaml>) -> (r: Option<Quotient>)
    ensures
        r == ratio_of(yaml::opt_contents(v)),
        r matches Some(q) ==> q.is_small() && q.num >= 0,
{
    match v {
        Some(Yaml::Number { text, .. }) => read_decimal(text.as_str()),
        Some(Yaml::Text(s)) => read_decimal(s.as_str()),
        _ => None,
    }
}

/// The changes in an envelope with the settings of a mapping.
pub open spec fn merged_override(o: EnvelopeOverride, v: Option<YamlView>) -> EnvelopeOverride {
    EnvelopeOverride {
        multiplier: merge::or_keep(ratio_of(yaml::field(v, "expression_multiplier"@)), o.multiplier),
        velocity_bias: match yaml::int_of(yaml::field(v, "velocity_bias"@)) {
            Some(n) => n as i32,
            None => o.velocity_bias,
        },
        min_cc: merge::or_keep(merge::at_most(yaml::u8_of(yaml::field(v, "min_cc"@)), 127), o.min_cc),
        max_cc: merge::or_keep(merge::at_most(yaml::u8_of(yaml::field(v, "max_cc"@)), 127), o.max_cc),
    }
}

fn merge_override(o: EnvelopeOverride, v: Option<&Yaml>) -> (r: EnvelopeOverride)
    ensures
        r == merged_override(o, yaml::opt_contents(v)),
{
    EnvelopeOverride {
        multiplier: keep(yaml_ratio(get_field(v, "expression_multiplier")), o.multiplier),
        velocity_bias: keep(yaml_i32(get_field(v, "velocity_bias")), o.velocity_bias),
        min_cc: keep(yaml_u8_at_most(get_field(v, "min_cc"), 127), o.min_cc),
        max_cc: keep(yaml_u8_at_most(get_field(v, "max_cc"), 127), o.max_cc),
    }
}

/// The changes in envelopes after the first `n` entries.
pub open spec fn merged_overrides(
    overrides: Map<u8, EnvelopeOverride>,
    entries: Seq<(YamlView, YamlView)>,
    n: int,
) -> Map<u8, EnvelopeOverride>
    decreases n,
{
    if n <= 0 || n > entries.len() {
        overrides
    } else {
        let before = merged_overrides(overrides, entries, n - 1);
        let changes = yaml::field(Some(entries[n - 1].1), "override"@);
        match merge::byte_key(entries[n - 1].0) {
            Some(id) => if merge::is_mapping(changes) {
                let old = if before.contains_key(id) {
                    before[id]
                } else {
                    EnvelopeOverride::unset()
                };
                before.insert(id, merged_override(old, changes))
            } else {
                before
            },
            None => before,
        }
    }
}

fn merge_overrides(overrides: &mut BTreeMap<u8, EnvelopeOverride>, v: Option<&Yaml>)
    ensures
        final(overrides)@ == merged_overrides(
            old(overrides)@,
            merge::entries_of(yaml::opt_contents(v)),
            merge::entries_of(yaml::opt_contents(v)).len() as int,
        ),
{
    let ghost entries = merge::entries_of(yaml::opt_contents(v));
    let ghost base = overrides@;
    let n = yaml_entry_count(v);
    let mut i: usize = 0;
    while i < n
        invariant
            i <= n == entries.len(),
            entries == merge::entries_of(yaml::opt_contents(v)),
            base == old(overrides)@,
            overrides@ == merged_overrides(base, entries, i as int),
        decreases n - i,
    {
        match yaml_entry(v, i) {
            Some((key, item)) => {
                let changes = get_field(Some(item), "override");
                match yaml_byte_key(key) {
                    Some(id) => {
                        if yaml_is_mapping(changes) {
                            let before = match overrides.get(&id) {
                                Some(o) => *o,
                                None => EnvelopeOverride::none(),
                            };
                            overrides.insert(id, merge_override(before, changes));
                        }
                    },
                    None => {},
                }
            },
            None => {},
        }
        i += 1;
    }
}

/// A text other than the expected one.
pub open spec fn is_other(v: Option<YamlView>, expected: Seq<char>) -> bool {
    yaml::text_of(v) matches Some(s) && s != expected
}

fn yaml_is_other(v: Option<&Yaml>, expected: &str) -> (r: bool)
    ensures
        r == is_other(yaml::opt_contents(v), expected@),
{
    match yaml_string(v) {
        Some(s) => !same_text(s, expected),
        None => false,
    }
}

/// A list of names with one more, where something is to be noted.
pub open spec fn noted(list: Seq<Seq<char>>, note: bool, name: Seq<char>) -> Seq<Seq<char>> {
    if note {
        list.push(name)
    } else {
        list
    }
}

fn note(list: &mut Vec<String>, note: bool, name: &str)
    ensures
        views::all_views(final(list)@) == noted(views::all_views(old(list)@), note, name@),
{
    if note {
        push_viewed(list, copy_text(name));
    }
}

/// The settings of a document that ask for something else than what is always
/// done.
pub open spec fn unheeded(list: Seq<Seq<char>>, v: Option<YamlView>) -> Seq<Seq<char>> {
    let tones = yaml::field(yaml::field(v, "tone_map"@), "defaults"@);
    let psg = yaml::field(yaml::field(v, "psg_envelope_map"@), "default"@);
    let envelopes = yaml::field(yaml::field(v, "envelope_map"@), "trigger"@);
    let a = noted(
        list,
        is_other(yaml::field(tones, "on_unmapped"@), "keep_previous_and_warn"@),
        "tone_map.defaults.on_unmapped"@,
    );
    let b = noted(
        a,
        yaml::bool_of(yaml::field(tones, "emit_before_next_note"@)) == Some(false),
        "tone_map.defaults.emit_before_next_note"@,
    );
    let c = noted(
        b,
        is_other(yaml::field(yaml::field(psg, "volume_scale"@), "curve"@), "linear"@),
        "psg_envelope_map.default.volume_scale.curve"@,
    );
    let d = noted(
        c,
        is_other(yaml::field(yaml::field(psg, "trigger"@), "on_at_command"@), "select_only"@),
        "psg_envelope_map.default.trigger.on_at_command"@,
    );
    let e = noted(
        d,
        is_other(yaml::field(yaml::field(psg, "trigger"@), "on_note_on"@), "restart_envelope"@),
        "psg_envelope_map.default.trigger.on_note_on"@,
    );
    let f = noted(
        e,
        is_other(yaml::field(envelopes, "on_apply_command"@), "select_only"@),
        "envelope_map.trigger.on_apply_command"@,
    );
    let g = noted(
        f,
        is_other(yaml::field(envelopes, "on_note_on"@), "restart_envelope"@),
        "envelope_map.trigger.on_note_on"@,
    );
    let h = noted(
        g,
        is_other(yaml::field(psg, "source"@), "mus_definition"@),
        "psg_envelope_map.default.source"@,
    );
    let loops = yaml::field(psg, "loop_policy"@);
    let i = noted(
        h,
        is_other(yaml::field(loops, "finite_note_duration"@), "render_until_note_off"@),
        "psg_envelope_map.default.loop_policy.finite_note_duration"@,
    );
    noted(
        i,
        is_other(yaml::field(loops, "infinite_envelope_loop"@), "render_until_note_off"@),
        "psg_envelope_map.default.loop_policy.infinite_envelope_loop"@,
    )
}

fn note_unheeded(list: &mut Vec<String>, v: Option<&Yaml>)
    ensures
        views::all_views(final(list)@) == unheeded(views::all_views(old(list)@), yaml::opt_contents(v)),
{
    let tones = get_field(get_field(v, "tone_map"), "defaults");
    let psg = get_field(get_field(v, "psg_envelope_map"), "default");
    let envelopes = get_field(get_field(v, "envelope_map"), "trigger");
    note(
        list,
        yaml_is_other(get_field(tones, "on_unmapped"), "keep_previous_and_warn"),
        "tone_map.defaults.on_unmapped",
    );
    note(
        list,
        yaml_bool(get_field(tones, "emit_before_next_note")) == Some(false),
        "tone_map.defaults.emit_before_next_note",
    );
    note(
        list,
        yaml_is_other(get_field(get_field(psg, "volume_scale"), "curve"), "linear"),
        "psg_envelope_map.default.volume_scale.curve",
    );
    note(
        list,
        yaml_is_other(get_field(get_field(psg, "trigger"), "on_at_command"), "select_only"),
        "psg_envelope_map.default.trigger.on_at_command",
    );
    note(
        list,
        yaml_is_other(get_field(get_field(psg, "trigger"), "on_note_on"), "restart_envelope"),
        "psg_envelope_map.default.trigger.on_note_on",
    );
    note(
        list,
        yaml_is_other(get_field(envelopes, "on_apply_command"), "select_only"),
        "envelope_map.trigger.on_apply_command",
    );
    note(
        list,
        yaml_is_other(get_field(envelopes, "on_note_on"), "restart_envelope"),
        "envelope_map.trigger.on_note_on",
    );
    note(
        list,
        yaml_is_other(get_field(psg, "source"), "mus_definition"),
        "psg_envelope_map.default.source",
    );
    let loops = get_field(psg, "loop_policy");
    note(
        list,
        yaml_is_other(get_field(loops, "finite_note_duration"), "render_until_note_off"),
        "psg_envelope_map.default.loop_policy.finite_note_duration",
    );
    note(
        list,
        yaml_is_other(get_field(loops, "infinite_envelope_loop"), "render_until_note_off"),
        "psg_envelope_map.default.loop_policy.infinite_envelope_loop",
    );
}

/// Whether a mapping sets anything.
pub open spec fn has_entries(v: Option<YamlView>) -> bool {
    merge::entries_of(v).len() > 0
}

fn yaml_has_entries(v: Option<&Yaml>) -> (r: bool)
    ensures
        r == has_entries(yaml::opt_contents(v)),
{
    yaml_entry_count(v) > 0
}

/// Whether the numbers of a family mean what a policy for them says.
pub open spec fn policy_fits(family: Seq<char>, policy: Seq<char>) -> bool {
    if family == "psg"@ {
        policy == "psg_envelope"@
    } else if family == "psg_noise"@ {
        policy == "psg_envelope"@ || policy == "psg_envelope_or_drum"@
    } else if family == "scc"@ || family == "opll"@ {
        policy == "tone_map"@
    } else {
        true
    }
}

/// Whether a track is given another policy for numbers than that of its family.
pub open spec fn has_other_policy(track: YamlView) -> bool {
    match (
        yaml::text_of(yaml::field(Some(track), "source_family"@)),
        yaml::text_of(yaml::field(Some(track), "at_command_policy"@)),
    ) {
        (Some(family), Some(policy)) => !policy_fits(family, policy),
        _ => false,
    }
}

/// Whether one of the first `n` tracks is.
pub open spec fn some_other_policy(tracks: Seq<(YamlView, YamlView)>, n: int) -> bool
    decreases n,
{
    if n <= 0 || n > tracks.len() {
        false
    } else {
        some_other_policy(tracks, n - 1) || has_other_policy(tracks[n - 1].1)
    }
}

fn check_policy(family: &str, policy: &str) -> (r: bool)
    ensures
        r == policy_fits(family@, policy@),
{
    if same_text(family, "psg") {
        same_text(policy, "psg_envelope")
    } else if same_text(family, "psg_noise") {
        same_text(policy, "psg_envelope") || same_text(policy, "psg_envelope_or_drum")
    } else if same_text(family, "scc") || same_text(family, "opll") {
        same_text(policy, "tone_map")
    } else {
        true
    }
}

fn find_other_policy(v: Option<&Yaml>) -> (r: bool)
    ensures
        r == some_other_policy(
            merge::entries_of(yaml::opt_contents(v)),
            merge::entries_of(yaml::opt_contents(v)).len() as int,
        ),
{
    let ghost tracks = merge::entries_of(yaml::opt_contents(v));
    let n = yaml_entry_count(v);
    let mut found = false;
    let mut i: usize = 0;
    while i < n
        invariant
            i <= n == tracks.len(),
            tracks == merge::entries_of(yaml::opt_contents(v)),
            found == some_other_policy(tracks, i as int),
        decreases n - i,
    {
        if let Some((_, track)) = yaml_entry(v, i) {
            let family = yaml_string(get_field(Some(track), "source_family"));
            let policy = yaml_string(get_field(Some(track), "at_command_policy"));
            if let (Some(f), Some(p)) = (family, policy) {
                if !check_policy(f, p) {
                    found = true;
                }
            }
        }
        i += 1;
    }
    found
}

/// The settings of a document that ask for something that is always or never
/// done.
pub open spec fn unchangeable(list: Seq<Seq<char>>, v: Option<YamlView>) -> Seq<Seq<char>> {
    let inside = yaml::field(yaml::field(v, "envelope_side_effects"@), "tone_change_inside_envelope"@);
    let noise = yaml::field(v, "psg_noise_map"@);
    let tracks = merge::entries_of(yaml::field(v, "tracks"@));
    let a = noted(
        list,
        has_entries(yaml::field(v, "at_command_dispatch"@)),
        "at_command_dispatch"@,
    );
    let b = noted(a, has_entries(yaml::field(v, "diagnostics"@)), "diagnostics"@);
    let c = noted(b, has_entries(yaml::field(v, "family_defaults"@)), "family_defaults"@);
    let d = noted(
        c,
        some_other_policy(tracks, tracks.len() as int),
        "tracks.at_command_policy"@,
    );
    let e = noted(
        d,
        is_other(yaml::field(inside, "policy"@), "emit_at_exact_tick_with_warning"@) || yaml::bool_of(
            yaml::field(inside, "allow_program_change"@),
        ) == Some(false) || yaml::bool_of(yaml::field(inside, "allow_cc"@)) == Some(false) || yaml::bool_of(
            yaml::field(inside, "allow_split_note"@),
        ) == Some(true),
        "envelope_side_effects.tone_change_inside_envelope"@,
    );
    let f = noted(
        e,
        has_entries(
            yaml::field(yaml::field(yaml::field(v, "psg_envelope_map"@), "default"@), "mode_noise_policy"@),
        ),
        "psg_envelope_map.default.mode_noise_policy"@,
    );
    let g = noted(
        f,
        yaml::bool_of(yaml::field(noise, "report_mode_noise"@)) == Some(false),
        "psg_noise_map.report_mode_noise"@,
    );
    let h = noted(
        g,
        is_other(yaml::field(yaml::field(noise, "drum_map"@), "trigger"@), "on_note_on"@),
        "psg_noise_map.drum_map.trigger"@,
    );
    let i = noted(
        h,
        yaml::bool_of(yaml::field(yaml::field(yaml::field(v, "opll_register_map"@), "report"@), "collect_usage"@))
            == Some(false),
        "opll_register_map.report.collect_usage"@,
    );
    let glide = yaml::field(v, "pitch_glide"@);
    let j = noted(
        i,
        is_other(yaml::field(glide, "output"@), "pitch_bend"@),
        "pitch_glide.output"@,
    );
    noted(
        j,
        is_other(yaml::field(yaml::field(glide, "curve"@), "shape"@), "linear"@),
        "pitch_glide.curve.shape"@,
    )
}

fn note_fixed(list: &mut Vec<String>, v: Option<&Yaml>)
    ensures
        views::all_views(final(list)@) == unchangeable(views::all_views(old(list)@), yaml::opt_contents(v)),
{
    let inside = get_field(get_field(v, "envelope_side_effects"), "tone_change_inside_envelope");
    let noise = get_field(v, "psg_noise_map");
    note(list, yaml_has_entries(get_field(v, "at_command_dispatch")), "at_command_dispatch");
    note(list, yaml_has_entries(get_field(v, "diagnostics")), "diagnostics");
    note(list, yaml_has_entries(get_field(v, "family_defaults")), "family_defaults");
    note(list, find_other_policy(get_field(v, "tracks")), "tracks.at_command_policy");
    let other = yaml_is_other(get_field(inside, "policy"), "emit_at_exact_tick_with_warning");
    let programs = yaml_bool(get_field(inside, "allow_program_change")) == Some(false);
    let controls = yaml_bool(get_field(inside, "allow_cc")) == Some(false);
    let split = yaml_bool(get_field(inside, "allow_split_note")) == Some(true);
    note(
        list,
        other || programs || controls || split,
        "envelope_side_effects.tone_change_inside_envelope",
    );
    note(
        list,
        yaml_has_entries(
            get_field(
                get_field(get_field(v, "psg_envelope_map"), "default"),
                "mode_noise_policy",
            ),
        ),
        "psg_envelope_map.default.mode_noise_policy",
    );
    note(
        list,
        yaml_bool(get_field(noise, "report_mode_noise")) == Some(false),
        "psg_noise_map.report_mode_noise",
    );
    note(
        list,
        yaml_is_other(get_field(get_field(noise, "drum_map"), "trigger"), "on_note_on"),
        "psg_noise_map.drum_map.trigger",
    );
    let report = get_field(get_field(v, "opll_register_map"), "report");
    note(
        list,
        yaml_bool(get_field(report, "collect_usage")) == Some(false),
        "opll_register_map.report.collect_usage",
    );
    let glide = get_field(v, "pitch_glide");
    note(list, yaml_is_other(get_field(glide, "output"), "pitch_bend"), "pitch_glide.output");
    note(
        list,
        yaml_is_other(get_field(get_field(glide, "curve"), "shape"), "linear"),
        "pitch_glide.curve.shape",
    );
}

/// A count of 32 bits that is not negative.
pub open spec fn count_of(v: Option<YamlView>) -> Option<u32> {
    match yaml::within(yaml::int_of(v), i32::MAX as int) {
        Some(n) => Some(n as u32),
        None => None,
    }
}

fn yaml_count(v: Option<&Yaml>) -> (r: Option<u32>)
    ensures
        r == count_of(yaml::opt_contents(v)),
{
    match yaml_i32(v) {
        Some(n) => if n >= 0 {
            Some(n as u32)
        } else {
            None
        },
        None => None,
    }
}

/// The details after a document.
pub open spec fn merged_details(d: RenderDetailsView, v: Option<YamlView>) -> RenderDetailsView {
    let psg = yaml::field(v, "psg_envelope_map"@);
    let default = yaml::field(psg, "default"@);
    let envelopes = yaml::field(v, "envelope_map"@);
    let split = yaml::field(yaml::field(envelopes, "fallback_modes"@), "split_velocity"@);
    let overrides = merge::entries_of(yaml::field(psg, "envelopes"@));
    let order = yaml::field(yaml::field(v, "smf"@), "event_order"@);
    RenderDetailsView {
        undefined_policy: merge::or_keep(
            undefined_policy_of(yaml::field(psg, "undefined_policy"@)),
            d.undefined_policy,
        ),
        emit_expression_cc: merge::or_keep(
            yaml::bool_of(yaml::field(default, "emit_expression_cc"@)),
            d.emit_expression_cc,
        ),
        volume_scale: merged_scale(d.volume_scale, yaml::field(default, "volume_scale"@)),
        overrides: merged_overrides(d.overrides, overrides, overrides.len() as int),
        initial_cc_before_note: merge::or_keep(
            yaml::bool_of(yaml::field(envelopes, "emit_initial_cc_before_note_on"@)),
            d.initial_cc_before_note,
        ),
        split_velocity: merge::or_keep(yaml::bool_of(yaml::field(split, "enabled"@)), d.split_velocity),
        min_segment_ticks: merge::or_keep(
            count_of(yaml::field(split, "min_segment_ticks"@)),
            d.min_segment_ticks,
        ),
        tone_text_meta: merge::or_keep(
            yaml::bool_of(yaml::field(yaml::field(yaml::field(v, "tone_map"@), "defaults"@), "emit_text_meta"@)),
            d.tone_text_meta,
        ),
        event_order: match order {
            Some(YamlView::Sequence(items)) => classes_in(items, items.len() as int),
            _ => d.event_order,
        },
        passed_over: unchangeable(unheeded(d.passed_over, v), v),
    }
}

impl RenderDetails {
    /// Takes over what a document sets.
    pub fn merge(&mut self, v: Option<&Yaml>)
        ensures
            final(self).deep_view() == merged_details(old(self).deep_view(), yaml::opt_contents(v)),
    {
        let psg = get_field(v, "psg_envelope_map");
        let default = get_field(psg, "default");
        let envelopes = get_field(v, "envelope_map");
        let split = get_field(get_field(envelopes, "fallback_modes"), "split_velocity");
        let tones = get_field(get_field(v, "tone_map"), "defaults");
        self.undefined_policy = keep(
            yaml_undefined_policy(get_field(psg, "undefined_policy")),
            self.undefined_policy,
        );
        self.emit_expression_cc = keep(
            yaml_bool(get_field(default, "emit_expression_cc")),
            self.emit_expression_cc,
        );
        self.volume_scale = merge_scale(self.volume_scale, get_field(default, "volume_scale"));
        merge_overrides(&mut self.overrides, get_field(psg, "envelopes"));
        self.initial_cc_before_note = keep(
            yaml_bool(get_field(envelopes, "emit_initial_cc_before_note_on")),
            self.initial_cc_before_note,
        );
        self.split_velocity = keep(
            yaml_bool(get_field(split, "enabled")),
            self.split_velocity,
        );
        self.min_segment_ticks = keep(
            yaml_count(get_field(split, "min_segment_ticks")),
            self.min_segment_ticks,
        );
        self.tone_text_meta = keep(
            yaml_bool(get_field(tones, "emit_text_meta")),
            self.tone_text_meta,
        );
        let order = get_field(get_field(v, "smf"), "event_order");
        match order {
            Some(Yaml::Sequence(items)) => {
                self.event_order = read_classes(
                    items,
                    Ghost(order->0.contents()->Sequence_0),
                );
            },
            _ => {},
        }
        note_unheeded(&mut self.passed_over, v);
        note_fixed(&mut self.passed_over, v);
    }
}

proof fn nothing_is_unheeded(list: Seq<Seq<char>>, v: Option<YamlView>)
    requires
        forall|key: Seq<char>| #[trigger] yaml::field(v, key) is None,
    ensures
        unheeded(list, v) == list,
{
    assert(yaml::field(v, "tone_map"@) is None);
    assert(yaml::field(v, "psg_envelope_map"@) is None);
    assert(yaml::field(v, "envelope_map"@) is None);
}

proof fn nothing_is_fixed(list: Seq<Seq<char>>, v: Option<YamlView>)
    requires
        forall|key: Seq<char>| #[trigger] yaml::field(v, key) is None,
    ensures
        unchangeable(list, v) == list,
{
    assert(yaml::field(v, "envelope_side_effects"@) is None);
    assert(yaml::field(v, "psg_noise_map"@) is None);
    assert(yaml::field(v, "tracks"@) is None);
    assert(yaml::field(v, "psg_envelope_map"@) is None);
    assert(yaml::field(v, "opll_register_map"@) is None);
    assert(yaml::field(v, "pitch_glide"@) is None);
}

/// A document without settings leaves the details as they are.
pub proof fn no_settings_change_no_details(d: RenderDetailsView, v: Option<YamlView>)
    requires
        forall|key: Seq<char>| #[trigger] yaml::field(v, key) is None,
    ensures
        merged_details(d, v) == d,
{
    nothing_is_unheeded(d.passed_over, v);
    nothing_is_fixed(d.passed_over, v);
    assert(yaml::field(v, "psg_envelope_map"@) is None);
    assert(yaml::field(v, "envelope_map"@) is None);
    assert(yaml::field(v, "tone_map"@) is None);
    assert(yaml::field(v, "smf"@) is None);
    let none: Option<YamlView> = None;
    assert(merged_overrides(d.overrides, merge::entries_of(none), merge::entries_of(none).len() as int)
        == d.overrides);
    assert(merged_details(d, v) =~= d);
}

// ---------------------------------------------------------------------------
// Laws
// ---------------------------------------------------------------------------
/// Where nothing is set, a level of sixteen becomes its share of 127, rounded.
pub proof fn usual_values(level: int)
    requires
        0 <= level <= 15,
    ensures
        Loudness::initial().value(level, 1) == fraction::div_round(level * 127, 15),
{
}

/// Where nothing is set, a level of 256 becomes its share of 127, rounded.
pub proof fn usual_rate_values(level: int)
    requires
        0 <= level <= 255,
    ensures
        Loudness::initial().value(level * 15, 255) == fraction::div_round(level * 127, 255),
{
}

/// Where PSG envelopes become no controllers, there is none on any PSG track.
pub proof fn controllers_can_be_left_out(d: RenderDetailsView, family: SourceFamily, mode: EnvelopeMode)
    requires
        family == SourceFamily::Psg || family == SourceFamily::PsgNoise,
        !d.emit_expression_cc,
    ensures
        d.settled_mode(family, mode) != EnvelopeMode::Cc11,
        d.settled_mode(family, mode) != EnvelopeMode::Cc7,
{
}

/// The values of a corrected envelope keep to the range of the correction.
pub proof fn corrections_keep_their_range(change: EnvelopeOverride, value: u8)
    requires
        change.min_cc <= change.max_cc,
    ensures
        change.min_cc <= change.value(value) <= change.max_cc,
{
}

/// The values of a scale keep to its MIDI range, and its ends meet.
pub proof fn scales_keep_their_range(s: VolumeScale, num: int, den: int)
    requires
        s.mgsc_min < s.mgsc_max,
        s.midi_min <= s.midi_max,
        den > 0,
    ensures
        s.midi_min <= s.value(num, den) <= s.midi_max,
        num <= s.mgsc_min * den ==> s.value(num, den) == s.midi_min,
        num >= s.mgsc_max * den ==> s.value(num, den) == s.midi_max,
{
    let low = s.mgsc_min * den;
    let high = s.mgsc_max * den;
    let span = (s.mgsc_max - s.mgsc_min) * den;
    let range = s.midi_max - s.midi_min;
    assert(low < high && span == high - low) by (nonlinear_arith)
        requires
            low == s.mgsc_min * den,
            high == s.mgsc_max * den,
            span == (s.mgsc_max - s.mgsc_min) * den,
            s.mgsc_min < s.mgsc_max,
            den > 0,
    ;
    let x = text::clamp_int(num, low, high) - low;
    let n = x * range;
    let q = (n + span / 2) / span;
    assert(0 <= n <= range * span) by (nonlinear_arith)
        requires
            n == x * range,
            0 <= x <= span,
            0 <= range,
    ;
    assert(0 <= q <= range) by (nonlinear_arith)
        requires
            q == (n + span / 2) / span,
            0 <= n <= range * span,
            span >= 1,
    ;
    if x == 0 {
        assert(n == 0) by (nonlinear_arith)
            requires
                n == x * range,
                x == 0,
        ;
        assert((span / 2) / span == 0) by (nonlinear_arith)
            requires
                span >= 1,
        ;
    }
    if x == span {
        assert((range * span + span / 2) / span == range) by (nonlinear_arith)
            requires
                span >= 1,
        ;
        assert(n == range * span) by (nonlinear_arith)
            requires
                n == x * range,
                x == span,
        ;
    }
}

} // verus!
