//! The intermediate form of a song: exact source steps, events of the source
//! tracks, envelopes, and the options of a conversion.

use std::collections::BTreeMap;

use vstd::arithmetic::div_mod::*;
use vstd::prelude::*;

use crate::diagnostics::{Diagnostics, DiagnosticsView};
use crate::fraction;
use crate::fraction::Frac;
use crate::smfmap::{SmfMapConfig, SmfMapConfigView};
use crate::text;
use crate::text::{clamp_i64, copy_opt, copy_text, join2, join5, same_text, signed_text};
use crate::views;
use crate::views::push_viewed;

verus! {

pub const WHOLE_NOTE_STEPS: i64 = 192;

pub const QUARTER_NOTE_STEPS: i64 = 48;

// ---------------------------------------------------------------------------
// Choices by name
// ---------------------------------------------------------------------------
#[derive(Clone, Copy, Debug, PartialEq, Eq, Structural)]
pub enum EncodingChoice {
    Auto,
    Utf8,
    ShiftJis,
}

impl EncodingChoice {
    pub open spec fn named(s: Seq<char>) -> Option<Self> {
        if s == "auto"@ {
            Some(EncodingChoice::Auto)
        } else if s == "utf-8"@ || s == "utf8"@ {
            Some(EncodingChoice::Utf8)
        } else if s == "shift_jis"@ || s == "shift-jis"@ || s == "sjis"@ {
            Some(EncodingChoice::ShiftJis)
        } else {
            None
        }
    }

    pub fn parse(value: &str) -> (r: Result<Self, String>)
        ensures
            match r {
                Ok(v) => Self::named(value@) == Some(v),
                Err(e) => Self::named(value@) is None && e@ == "invalid encoding: "@ + value@,
            },
    {
        if same_text(value, "auto") {
            Ok(EncodingChoice::Auto)
        } else if same_text(value, "utf-8") || same_text(value, "utf8") {
            Ok(EncodingChoice::Utf8)
        } else if same_text(value, "shift_jis") || same_text(value, "shift-jis") || same_text(
            value,
            "sjis",
        ) {
            Ok(EncodingChoice::ShiftJis)
        } else {
            Err(join2("invalid encoding: ", value))
        }
    }
}

#[derive(Clone, Copy, Debug, PartialEq, Eq, Structural)]
pub enum EnvelopeMode {
    Cc11,
    Cc7,
    NoteVelocity,
    SplitVelocity,
    Off,
}

impl EnvelopeMode {
    pub open spec fn named(s: Seq<char>) -> Option<Self> {
        if s == "cc11"@ {
            Some(EnvelopeMode::Cc11)
        } else if s == "cc7"@ {
            Some(EnvelopeMode::Cc7)
        } else if s == "note_velocity"@ || s == "velocity"@ {
            Some(EnvelopeMode::NoteVelocity)
        } else if s == "split_velocity"@ {
            Some(EnvelopeMode::SplitVelocity)
        } else if s == "off"@ {
            Some(EnvelopeMode::Off)
        } else {
            None
        }
    }

    pub fn parse(value: &str) -> (r: Result<Self, String>)
        ensures
            match r {
                Ok(v) => Self::named(value@) == Some(v),
                Err(e) => Self::named(value@) is None && e@ == "invalid envelope mode: "@ + value@,
            },
    {
        if same_text(value, "cc11") {
            Ok(EnvelopeMode::Cc11)
        } else if same_text(value, "cc7") {
            Ok(EnvelopeMode::Cc7)
        } else if same_text(value, "note_velocity") || same_text(value, "velocity") {
            Ok(EnvelopeMode::NoteVelocity)
        } else if same_text(value, "split_velocity") {
            Ok(EnvelopeMode::SplitVelocity)
        } else if same_text(value, "off") {
            Ok(EnvelopeMode::Off)
        } else {
            Err(join2("invalid envelope mode: ", value))
        }
    }
}

#[derive(Clone, Copy, Debug, PartialEq, Eq, Structural)]
pub enum TonePolicy {
    Ignore,
    GmProgram,
    TextMeta,
}

impl TonePolicy {
    pub open spec fn named(s: Seq<char>) -> Option<Self> {
        if s == "ignore"@ {
            Some(TonePolicy::Ignore)
        } else if s == "gm_program"@ {
            Some(TonePolicy::GmProgram)
        } else if s == "text_meta"@ {
            Some(TonePolicy::TextMeta)
        } else {
            None
        }
    }

    pub fn parse(value: &str) -> (r: Result<Self, String>)
        ensures
            match r {
                Ok(v) => Self::named(value@) == Some(v),
                Err(e) => Self::named(value@) is None && e@ == "invalid tone policy: "@ + value@,
            },
    {
        if same_text(value, "ignore") {
            Ok(TonePolicy::Ignore)
        } else if same_text(value, "gm_program") {
            Ok(TonePolicy::GmProgram)
        } else if same_text(value, "text_meta") {
            Ok(TonePolicy::TextMeta)
        } else {
            Err(join2("invalid tone policy: ", value))
        }
    }
}

#[derive(Clone, Copy, Debug, PartialEq, Eq, Structural)]
pub enum RhythmMap {
    Gm,
    Off,
}

impl RhythmMap {
    pub open spec fn named(s: Seq<char>) -> Option<Self> {
        if s == "gm"@ {
            Some(RhythmMap::Gm)
        } else if s == "off"@ {
            Some(RhythmMap::Off)
        } else {
            None
        }
    }

    pub fn parse(value: &str) -> (r: Result<Self, String>)
        ensures
            match r {
                Ok(v) => Self::named(value@) == Some(v),
                Err(e) => Self::named(value@) is None && e@ == "invalid rhythm map: "@ + value@,
            },
    {
        if same_text(value, "gm") {
            Ok(RhythmMap::Gm)
        } else if same_text(value, "off") {
            Ok(RhythmMap::Off)
        } else {
            Err(join2("invalid rhythm map: ", value))
        }
    }
}

#[derive(Clone, Copy, Debug, PartialEq, Eq, Structural)]
pub enum ChannelOverflowPolicy {
    Error,
    Shared,
    MultiPort,
}

impl ChannelOverflowPolicy {
    pub open spec fn named(s: Seq<char>) -> Option<Self> {
        if s == "error"@ {
            Some(ChannelOverflowPolicy::Error)
        } else if s == "shared"@ {
            Some(ChannelOverflowPolicy::Shared)
        } else if s == "multi_port"@ {
            Some(ChannelOverflowPolicy::MultiPort)
        } else {
            None
        }
    }

    pub fn parse(value: &str) -> (r: Result<Self, String>)
        ensures
            match r {
                Ok(v) => Self::named(value@) == Some(v),
                Err(e) => Self::named(value@) is None && e@ == "invalid channel overflow policy: "@
                    + value@,
            },
    {
        if same_text(value, "error") {
            Ok(ChannelOverflowPolicy::Error)
        } else if same_text(value, "shared") {
            Ok(ChannelOverflowPolicy::Shared)
        } else if same_text(value, "multi_port") {
            Ok(ChannelOverflowPolicy::MultiPort)
        } else {
            Err(join2("invalid channel overflow policy: ", value))
        }
    }
}

#[derive(Clone, Copy, Debug, PartialEq, Eq, Structural)]
pub enum SourceFamily {
    Psg,
    PsgNoise,
    Scc,
    Opll,
    Rhythm,
}

impl SourceFamily {
    pub open spec fn named(s: Seq<char>) -> Option<Self> {
        if s == "psg"@ {
            Some(SourceFamily::Psg)
        } else if s == "psg_noise"@ {
            Some(SourceFamily::PsgNoise)
        } else if s == "scc"@ {
            Some(SourceFamily::Scc)
        } else if s == "opll"@ {
            Some(SourceFamily::Opll)
        } else if s == "rhythm"@ {
            Some(SourceFamily::Rhythm)
        } else {
            None
        }
    }

    pub open spec fn name(self) -> Seq<char> {
        match self {
            SourceFamily::Psg => "psg"@,
            SourceFamily::PsgNoise => "psg_noise"@,
            SourceFamily::Scc => "scc"@,
            SourceFamily::Opll => "opll"@,
            SourceFamily::Rhythm => "rhythm"@,
        }
    }

    pub fn parse(value: &str) -> (r: Option<Self>)
        ensures
            r == Self::named(value@),
    {
        if same_text(value, "psg") {
            Some(SourceFamily::Psg)
        } else if same_text(value, "psg_noise") {
            Some(SourceFamily::PsgNoise)
        } else if same_text(value, "scc") {
            Some(SourceFamily::Scc)
        } else if same_text(value, "opll") {
            Some(SourceFamily::Opll)
        } else if same_text(value, "rhythm") {
            Some(SourceFamily::Rhythm)
        } else {
            None
        }
    }

    pub fn as_str(self) -> (r: &'static str)
        ensures
            r@ == self.name(),
    {
        match self {
            SourceFamily::Psg => "psg",
            SourceFamily::PsgNoise => "psg_noise",
            SourceFamily::Scc => "scc",
            SourceFamily::Opll => "opll",
            SourceFamily::Rhythm => "rhythm",
        }
    }
}

/// The name of a family is read back as that family.
pub proof fn family_name_round_trip(f: SourceFamily)
    ensures
        SourceFamily::named(f.name()) == Some(f),
{
    reveal_strlit("psg");
    reveal_strlit("psg_noise");
    reveal_strlit("scc");
    reveal_strlit("opll");
    reveal_strlit("rhythm");
    assert("psg"@.len() == 3 && "psg_noise"@.len() == 9 && "scc"@.len() == 3 && "opll"@.len() == 4
        && "rhythm"@.len() == 6);
    assert("psg"@[0] == 'p' && "scc"@[0] == 's');
}

#[derive(Clone, Copy, Debug, PartialEq, Eq, Structural)]
pub enum AtSpelling {
    At,
    AtE,
    AtR,
}

impl AtSpelling {
    pub open spec fn name(self) -> Seq<char> {
        match self {
            AtSpelling::At => "@"@,
            AtSpelling::AtE => "@e"@,
            AtSpelling::AtR => "@r"@,
        }
    }

    pub fn as_str(self) -> (r: &'static str)
        ensures
            r@ == self.name(),
    {
        match self {
            AtSpelling::At => "@",
            AtSpelling::AtE => "@e",
            AtSpelling::AtR => "@r",
        }
    }
}

#[derive(Clone, Copy, Debug, PartialEq, Eq, Structural)]
pub enum AtContext {
    NormalMml,
    EnvelopeData,
}

#[derive(Clone, Copy, Debug, PartialEq, Eq, Structural)]
pub enum EnvelopeKind {
    At,
    E,
    R,
}

#[derive(Clone, Copy, Debug, PartialEq, Eq, Structural)]
pub enum RegisterContext {
    NormalMml,
    EnvelopeData,
}

impl RegisterContext {
    pub open spec fn name(self) -> Seq<char> {
        match self {
            RegisterContext::NormalMml => "NormalMml"@,
            RegisterContext::EnvelopeData => "EnvelopeData"@,
        }
    }

    pub fn as_str(self) -> (r: &'static str)
        ensures
            r@ == self.name(),
    {
        match self {
            RegisterContext::NormalMml => "NormalMml",
            RegisterContext::EnvelopeData => "EnvelopeData",
        }
    }
}

#[derive(Clone, Copy, Debug, PartialEq, Eq, Structural)]
pub enum TrackKind {
    Melodic,
    Rhythm,
}

#[derive(Clone, Copy, Debug, PartialEq, Eq, Structural)]
pub enum LoopMarkerKind {
    Start,
    End,
}

#[derive(Clone, Copy, Debug, PartialEq, Eq, Structural)]
pub enum EnvelopeRef {
    E(u8),
    R(u8),
}

#[derive(Clone, Copy, Debug, PartialEq, Eq, Structural)]
pub enum ControlKind {
    Tone(u8),
    Envelope(EnvelopeRef),
    Text(u8),
}

// ---------------------------------------------------------------------------
// Source steps
// ---------------------------------------------------------------------------
/// A count of source steps; 192 of them make a whole note.
#[derive(Clone, Copy, Debug, PartialEq, Eq, Structural)]
pub struct Rational {
    pub num: i64,
    pub den: i64,
}

impl DeepView for Rational {
    type V = Frac;

    open spec fn deep_view(&self) -> Frac {
        Frac { num: self.num as int, den: self.den as int }
    }
}

pub open spec fn opt_frac(r: Option<Rational>) -> Option<Frac> {
    match r {
        Some(v) => Some(v.deep_view()),
        None => None,
    }
}

fn gcd_u128(a: u128, b: u128) -> (r: u128)
    ensures
        r == fraction::gcd(a as nat, b as nat),
{
    let mut x: u128 = a;
    let mut y: u128 = b;
    while y != 0
        invariant
            fraction::gcd(x as nat, y as nat) == fraction::gcd(a as nat, b as nat),
        decreases y,
    {
        let r: u128 = x % y;
        x = y;
        y = r;
    }
    x
}

proof fn product_bound(a: i64, b: i64)
    ensures
        -0x4000_0000_0000_0000_0000_0000_0000_0000 <= a * b
            <= 0x4000_0000_0000_0000_0000_0000_0000_0000,
        a >= 0 && b > 0 ==> a * b >= 0,
        a < 0 && b > 0 ==> a * b < 0,
{
    assert(-0x4000_0000_0000_0000_0000_0000_0000_0000 <= a * b
        <= 0x4000_0000_0000_0000_0000_0000_0000_0000) by (nonlinear_arith)
        requires
            i64::MIN <= a <= i64::MAX,
            i64::MIN <= b <= i64::MAX,
    ;
    if a >= 0 && b > 0 {
        assert(a * b >= 0) by (nonlinear_arith)
            requires
                a >= 0,
                b > 0,
        ;
    }
    if a < 0 && b > 0 {
        assert(a * b < 0) by (nonlinear_arith)
            requires
                a < 0,
                b > 0,
        ;
    }
}

proof fn product_bound_positive(a: i64, b: i64)
    requires
        b > 0,
    ensures
        -0x3fff_ffff_ffff_ffff_8000_0000_0000_0000 <= a * b
            <= 0x3fff_ffff_ffff_ffff_8000_0000_0000_0000,
{
    assert(-0x3fff_ffff_ffff_ffff_8000_0000_0000_0000 <= a * b
        <= 0x3fff_ffff_ffff_ffff_8000_0000_0000_0000) by (nonlinear_arith)
        requires
            i64::MIN <= a <= i64::MAX,
            0 < b <= i64::MAX,
    ;
}

impl Rational {
    /// No steps.
    pub fn zero() -> (r: Self)
        ensures
            r.deep_view() == fraction::whole(0),
    {
        Rational { num: 0, den: 1 }
    }

    /// The fraction in lowest terms, or `None` where 64 bits cannot hold it.
    pub fn reduced(num: i128, den: i128) -> (r: Option<Self>)
        requires
            num > i128::MIN,
            den > i128::MIN,
        ensures
            opt_frac(r) == fraction::held(num as int, den as int),
    {
        if den == 0 {
            return None;
        }
        if num == 0 {
            return Some(Rational { num: 0, den: 1 });
        }
        let a: u128 = if num < 0 {
            (-num) as u128
        } else {
            num as u128
        };
        let b: u128 = if den < 0 {
            (-den) as u128
        } else {
            den as u128
        };
        proof {
            fraction::gcd_divides(a as nat, b as nat);
        }
        let g: u128 = gcd_u128(a, b);
        let size: u128 = a / g;
        let lower: u128 = b / g;
        if lower > 0x7fff_ffff_ffff_ffff {
            return None;
        }
        if (num < 0) == (den < 0) {
            if size > 0x7fff_ffff_ffff_ffff {
                return None;
            }
            Some(Rational { num: size as i64, den: lower as i64 })
        } else {
            if size > 0x8000_0000_0000_0000 {
                return None;
            }
            Some(Rational { num: (-(size as i128)) as i64, den: lower as i64 })
        }
    }

    /// `num / den` in lowest terms.
    pub fn new(num: i64, den: i64) -> (r: Self)
        requires
            fraction::held(num as int, den as int) is Some,
        ensures
            r.deep_view() == fraction::frac(num as int, den as int),
            fraction::lowest(r.deep_view()),
            fraction::same_value(r.deep_view(), (Frac { num: num as int, den: den as int })),
    {
        proof {
            fraction::frac_reduces(num as int, den as int);
        }
        match Self::reduced(num as i128, den as i128) {
            Some(r) => r,
            None => Rational { num: 0, den: 1 },
        }
    }

    pub fn from_i64(value: i64) -> (r: Self)
        ensures
            r.deep_view() == fraction::whole(value as int),
    {
        Rational { num: value, den: 1 }
    }

    /// The sum, or `None` where it cannot be held.
    pub fn checked_add(self, rhs: Self) -> (r: Option<Self>)
        ensures
            opt_frac(r) == fraction::plus(self.deep_view(), rhs.deep_view()),
    {
        if self.den <= 0 || rhs.den <= 0 {
            return None;
        }
        proof {
            product_bound_positive(self.num, rhs.den);
            product_bound_positive(rhs.num, self.den);
            product_bound(self.den, rhs.den);
        }
        Self::reduced(
            self.num as i128 * rhs.den as i128 + rhs.num as i128 * self.den as i128,
            self.den as i128 * rhs.den as i128,
        )
    }

    /// The difference, or `None` where it cannot be held.
    pub fn checked_sub(self, rhs: Self) -> (r: Option<Self>)
        ensures
            opt_frac(r) == fraction::minus(self.deep_view(), rhs.deep_view()),
    {
        if self.den <= 0 || rhs.den <= 0 {
            return None;
        }
        proof {
            product_bound_positive(self.num, rhs.den);
            product_bound_positive(rhs.num, self.den);
            product_bound(self.den, rhs.den);
        }
        Self::reduced(
            self.num as i128 * rhs.den as i128 - rhs.num as i128 * self.den as i128,
            self.den as i128 * rhs.den as i128,
        )
    }

    /// The product, or `None` where it cannot be held.
    pub fn checked_mul(self, rhs: i64) -> (r: Option<Self>)
        ensures
            opt_frac(r) == fraction::times(self.deep_view(), rhs as int),
    {
        proof {
            product_bound(self.num, rhs);
        }
        Self::reduced(self.num as i128 * rhs as i128, self.den as i128)
    }

    /// The quotient, or `None` where it cannot be held.
    pub fn checked_div(self, rhs: i64) -> (r: Option<Self>)
        ensures
            opt_frac(r) == fraction::over(self.deep_view(), rhs as int),
    {
        proof {
            product_bound(self.den, rhs);
        }
        Self::reduced(self.num as i128, self.den as i128 * rhs as i128)
    }

    pub fn add(self, rhs: Self) -> (r: Self)
        requires
            fraction::plus(self.deep_view(), rhs.deep_view()) is Some,
        ensures
            Some(r.deep_view()) == fraction::plus(self.deep_view(), rhs.deep_view()),
    {
        match self.checked_add(rhs) {
            Some(r) => r,
            None => self,
        }
    }

    pub fn mul_i64(self, rhs: i64) -> (r: Self)
        requires
            fraction::times(self.deep_view(), rhs as int) is Some,
        ensures
            Some(r.deep_view()) == fraction::times(self.deep_view(), rhs as int),
    {
        match self.checked_mul(rhs) {
            Some(r) => r,
            None => self,
        }
    }

    pub fn div_i64(self, rhs: i64) -> (r: Self)
        requires
            fraction::over(self.deep_view(), rhs as int) is Some,
        ensures
            Some(r.deep_view()) == fraction::over(self.deep_view(), rhs as int),
    {
        match self.checked_div(rhs) {
            Some(r) => r,
            None => self,
        }
    }

    /// Whether this count is smaller.
    pub fn lt(self, rhs: Self) -> (r: bool)
        ensures
            r == fraction::less(self.deep_view(), rhs.deep_view()),
    {
        proof {
            product_bound(self.num, rhs.den);
            product_bound(rhs.num, self.den);
        }
        self.num as i128 * (rhs.den as i128) < rhs.num as i128 * self.den as i128
    }

    pub fn to_source_step_json(self) -> (r: String)
        ensures
            r@ == step_json(self.deep_view()),
    {
        let n = signed_text(self.num as i128);
        if self.den == 1 {
            n
        } else {
            let d = signed_text(self.den as i128);
            join5("\"", n.as_str(), "/", d.as_str(), "\"")
        }
    }

    /// The nearest tick, halves rounding up, at `ppq` ticks per quarter note;
    /// negative positions give the first tick.
    pub fn to_midi_ticks(self, ppq: u16) -> (r: u64)
        requires
            self.den > 0,
        ensures
            r == midi_ticks(self.deep_view(), ppq as int) % 0x1_0000_0000_0000_0000,
    {
        assert(-0x8000_0000_0000_0000 * 0x1_0000 <= self.num * ppq
            <= 0x8000_0000_0000_0000 * 0x1_0000) by (nonlinear_arith)
            requires
                i64::MIN <= self.num <= i64::MAX,
                0 <= ppq <= 0xffff,
        ;
        let num: i128 = self.num as i128 * ppq as i128;
        let den: i128 = self.den as i128 * 48;
        if num < 0 {
            proof {
                lemma_div_pos_is_pos(-num + den / 2, den as int);
            }
            return 0;
        }
        let ticks: u128 = ((num + den / 2) as u128) / (den as u128);
        (ticks % 0x1_0000_0000_0000_0000) as u64
    }
}

impl Default for Rational {
    fn default() -> (r: Self)
        ensures
            r.deep_view() == fraction::whole(0),
    {
        Rational { num: 0, den: 1 }
    }
}

/// A count of steps in the diagnostics: a number, or a quoted fraction.
pub open spec fn step_json(f: Frac) -> Seq<char> {
    if f.den == 1 {
        text::signed_decimal(f.num)
    } else {
        "\""@ + text::signed_decimal(f.num) + "/"@ + text::signed_decimal(f.den) + "\""@
    }
}

/// The tick of a position in source steps.
pub open spec fn midi_ticks(f: Frac, ppq: int) -> int {
    let t = fraction::div_round(f.num * ppq, f.den * 48);
    if t < 0 {
        0
    } else {
        t
    }
}

/// A later position never has an earlier tick.
pub proof fn ticks_keep_order(a: Frac, b: Frac, ppq: int)
    requires
        a.den > 0,
        b.den > 0,
        ppq >= 0,
        !fraction::less(b, a),
    ensures
        midi_ticks(a, ppq) <= midi_ticks(b, ppq),
{
    let an = a.num * ppq;
    let ad = a.den * 48;
    let bn = b.num * ppq;
    let bd = b.den * 48;
    assert(an * bd <= bn * ad) by (nonlinear_arith)
        requires
            a.num * b.den <= b.num * a.den,
            an == a.num * ppq,
            ad == a.den * 48,
            bn == b.num * ppq,
            bd == b.den * 48,
            ppq >= 0,
    ;
    div_round_of_fractions(an, ad, bn, bd);
}

proof fn div_round_of_fractions(an: int, ad: int, bn: int, bd: int)
    requires
        ad > 0,
        bd > 0,
        ad % 2 == 0,
        bd % 2 == 0,
        an * bd <= bn * ad,
    ensures
        fraction::div_round(an, ad) <= fraction::div_round(bn, bd) || fraction::div_round(an, ad) <= 0,
{
    if an > 0 {
        assert(bn > 0) by (nonlinear_arith)
            requires
                an * bd <= bn * ad,
                an > 0,
                bd > 0,
                ad > 0,
        ;
        let x = (an + ad / 2) / ad;
        let y = (bn + bd / 2) / bd;
        lemma_fundamental_div_mod(an + ad / 2, ad);
        lemma_fundamental_div_mod(bn + bd / 2, bd);
        let p = ad / 2;
        let q = bd / 2;
        let r = (an + ad / 2) % ad;
        let s = (bn + bd / 2) % bd;
        assert(x <= y) by (nonlinear_arith)
            requires
                an + p == ad * x + r,
                bn + q == bd * y + s,
                0 <= r < ad,
                0 <= s < bd,
                ad == 2 * p,
                bd == 2 * q,
                ad > 0,
                bd > 0,
                an * bd <= bn * ad,
        ;
    } else {
        if an == 0 {
            lemma_basic_div(ad / 2, ad);
        } else {
            lemma_div_pos_is_pos(-an + ad / 2, ad);
        }
    }
}

/// The steps of a note of the given denominator.
pub fn denominator_to_steps(denominator: u32) -> (r: Option<Rational>)
    ensures
        opt_frac(r) == denominator_steps(denominator),
{
    if denominator == 0 {
        None
    } else {
        proof {
            let g = fraction::gcd(192, denominator as nat) as int;
            fraction::gcd_divides(192, denominator as nat);
            lemma_div_pos_is_pos(192, g);
            lemma_div_pos_is_pos(denominator as int, g);
            lemma_div_nonincreasing(192, g);
            lemma_div_nonincreasing(denominator as int, g);
        }
        Rational::reduced(192, denominator as i128)
    }
}

pub open spec fn denominator_steps(denominator: u32) -> Option<Frac> {
    if denominator == 0 {
        None
    } else {
        Some(fraction::frac(192, denominator as int))
    }
}

/// A length with dots, or `None` where it cannot be held.
pub fn checked_dots(base: Rational, dot_count: usize) -> (r: Option<Rational>)
    ensures
        opt_frac(r) == fraction::dotted(base.deep_view(), base.deep_view(), dot_count as nat),
{
    let mut sum = base;
    let mut last = base;
    let mut left: usize = dot_count;
    while left > 0
        invariant
            fraction::dotted(base.deep_view(), base.deep_view(), dot_count as nat) == fraction::dotted(
                sum.deep_view(),
                last.deep_view(),
                left as nat,
            ),
        decreases left,
    {
        last = match last.checked_div(2) {
            Some(v) => v,
            None => {
                return None;
            },
        };
        sum = match sum.checked_add(last) {
            Some(v) => v,
            None => {
                return None;
            },
        };
        left -= 1;
    }
    Some(sum)
}

pub fn apply_dots(base: Rational, dot_count: u32) -> (r: Rational)
    requires
        fraction::dotted(base.deep_view(), base.deep_view(), dot_count as nat) is Some,
    ensures
        Some(r.deep_view()) == fraction::dotted(base.deep_view(), base.deep_view(), dot_count as nat),
{
    match checked_dots(base, dot_count as usize) {
        Some(r) => r,
        None => base,
    }
}

/// The MIDI velocity of a source volume.
pub open spec fn source_velocity(volume: int) -> int {
    let v = (text::clamp_int(volume, 0, 15) * 127 + 7) / 15;
    if v < 1 {
        1
    } else {
        v
    }
}

pub fn velocity_from_source(volume: i32) -> (r: u8)
    ensures
        r == source_velocity(volume as int),
        1 <= r <= 127,
{
    let clamped: i64 = clamp_i64(volume as i64, 0, 15);
    let value: i64 = (clamped * 127 + 7) / 15;
    if value < 1 {
        1
    } else {
        value as u8
    }
}

/// A louder source volume never gives a smaller velocity.
pub proof fn velocity_keeps_order(a: int, b: int)
    requires
        a <= b,
    ensures
        source_velocity(a) <= source_velocity(b),
        1 <= source_velocity(a) <= 127,
{
}

// ---------------------------------------------------------------------------
// Events
// ---------------------------------------------------------------------------
/// Where an event comes from.
#[derive(Debug, PartialEq, Eq)]
pub struct SourceSpan {
    pub line: Option<usize>,
    pub track: Option<String>,
}

#[verifier::ext_equal]
pub struct SourceSpanView {
    pub line: Option<usize>,
    pub track: Option<Seq<char>>,
}

impl DeepView for SourceSpan {
    type V = SourceSpanView;

    open spec fn deep_view(&self) -> SourceSpanView {
        SourceSpanView { line: self.line, track: self.track.deep_view() }
    }
}

impl Clone for SourceSpan {
    fn clone(&self) -> (r: Self)
        ensures
            r.deep_view() == self.deep_view(),
    {
        SourceSpan { line: self.line, track: copy_opt(&self.track) }
    }
}

/// A request for MIDI output written by hand.
#[allow(inconsistent_fields)]
#[derive(Debug, PartialEq, Eq)]
pub enum SmfRequest {
    Pc { program: u8 },
    Bank { msb: u8, lsb: u8 },
    Cc { controller: u8, value: u8 },
    PitchBend { value: i32 },
    Rpn { msb: u8, lsb: u8, value: u16 },
    Nrpn { msb: u8, lsb: u8, value: u16 },
    Marker { text: String },
    Text { text: String },
    Macro { name: String },
    Reset { name: Option<String> },
}

#[allow(inconsistent_fields)]
#[verifier::ext_equal]
pub enum SmfRequestView {
    Pc { program: u8 },
    Bank { msb: u8, lsb: u8 },
    Cc { controller: u8, value: u8 },
    PitchBend { value: i32 },
    Rpn { msb: u8, lsb: u8, value: u16 },
    Nrpn { msb: u8, lsb: u8, value: u16 },
    Marker { text: Seq<char> },
    Text { text: Seq<char> },
    Macro { name: Seq<char> },
    Reset { name: Option<Seq<char>> },
}

impl DeepView for SmfRequest {
    type V = SmfRequestView;

    open spec fn deep_view(&self) -> SmfRequestView {
        match *self {
            SmfRequest::Pc { program } => SmfRequestView::Pc { program },
            SmfRequest::Bank { msb, lsb } => SmfRequestView::Bank { msb, lsb },
            SmfRequest::Cc { controller, value } => SmfRequestView::Cc { controller, value },
            SmfRequest::PitchBend { value } => SmfRequestView::PitchBend { value },
            SmfRequest::Rpn { msb, lsb, value } => SmfRequestView::Rpn { msb, lsb, value },
            SmfRequest::Nrpn { msb, lsb, value } => SmfRequestView::Nrpn { msb, lsb, value },
            SmfRequest::Marker { text } => SmfRequestView::Marker { text: text@ },
            SmfRequest::Text { text } => SmfRequestView::Text { text: text@ },
            SmfRequest::Macro { name } => SmfRequestView::Macro { name: name@ },
            SmfRequest::Reset { name } => SmfRequestView::Reset { name: name.deep_view() },
        }
    }
}

impl Clone for SmfRequest {
    fn clone(&self) -> (r: Self)
        ensures
            r.deep_view() == self.deep_view(),
    {
        match self {
            SmfRequest::Pc { program } => SmfRequest::Pc { program: *program },
            SmfRequest::Bank { msb, lsb } => SmfRequest::Bank { msb: *msb, lsb: *lsb },
            SmfRequest::Cc { controller, value } => SmfRequest::Cc {
                controller: *controller,
                value: *value,
            },
            SmfRequest::PitchBend { value } => SmfRequest::PitchBend { value: *value },
            SmfRequest::Rpn { msb, lsb, value } => SmfRequest::Rpn {
                msb: *msb,
                lsb: *lsb,
                value: *value,
            },
            SmfRequest::Nrpn { msb, lsb, value } => SmfRequest::Nrpn {
                msb: *msb,
                lsb: *lsb,
                value: *value,
            },
            SmfRequest::Marker { text } => SmfRequest::Marker { text: copy_text(text.as_str()) },
            SmfRequest::Text { text } => SmfRequest::Text { text: copy_text(text.as_str()) },
            SmfRequest::Macro { name } => SmfRequest::Macro { name: copy_text(name.as_str()) },
            SmfRequest::Reset { name } => SmfRequest::Reset { name: copy_opt(name) },
        }
    }
}

/// The macro call that a note was expanded from.
#[derive(Debug, PartialEq, Eq)]
pub struct MacroOrigin {
    pub token: String,
    pub symbol: Option<char>,
    pub number: u32,
    pub resolved_number: u32,
}

#[verifier::ext_equal]
pub struct MacroOriginView {
    pub token: Seq<char>,
    pub symbol: Option<char>,
    pub number: u32,
    pub resolved_number: u32,
}

impl DeepView for MacroOrigin {
    type V = MacroOriginView;

    open spec fn deep_view(&self) -> MacroOriginView {
        MacroOriginView {
            token: self.token@,
            symbol: self.symbol,
            number: self.number,
            resolved_number: self.resolved_number,
        }
    }
}

impl Clone for MacroOrigin {
    fn clone(&self) -> (r: Self)
        ensures
            r.deep_view() == self.deep_view(),
    {
        MacroOrigin {
            token: copy_text(self.token.as_str()),
            symbol: self.symbol,
            number: self.number,
            resolved_number: self.resolved_number,
        }
    }
}

/// The target of a pitch glide and its source text.
#[derive(Debug, PartialEq, Eq)]
pub struct PitchGlideMeta {
    pub target_midi_note: u8,
    pub source: String,
}

#[verifier::ext_equal]
pub struct PitchGlideMetaView {
    pub target_midi_note: u8,
    pub source: Seq<char>,
}

impl DeepView for PitchGlideMeta {
    type V = PitchGlideMetaView;

    open spec fn deep_view(&self) -> PitchGlideMetaView {
        PitchGlideMetaView { target_midi_note: self.target_midi_note, source: self.source@ }
    }
}

impl Clone for PitchGlideMeta {
    fn clone(&self) -> (r: Self)
        ensures
            r.deep_view() == self.deep_view(),
    {
        PitchGlideMeta {
            target_midi_note: self.target_midi_note,
            source: copy_text(self.source.as_str()),
        }
    }
}

/// What the source says about a note beyond its pitch and length.
#[derive(Debug, PartialEq, Eq)]
pub struct NoteMeta {
    pub note_name: Option<char>,
    pub source_octave: Option<i32>,
    pub source_midi_note: Option<u8>,
    pub pitch_glide: Option<PitchGlideMeta>,
    pub macro_origin: Vec<MacroOrigin>,
    pub macro_call_start: bool,
    pub slur_from_previous: bool,
    pub slur_to_next: bool,
}

#[verifier::ext_equal]
pub struct NoteMetaView {
    pub note_name: Option<char>,
    pub source_octave: Option<i32>,
    pub source_midi_note: Option<u8>,
    pub pitch_glide: Option<PitchGlideMetaView>,
    pub macro_origin: Seq<MacroOriginView>,
    pub macro_call_start: bool,
    pub slur_from_previous: bool,
    pub slur_to_next: bool,
}

impl NoteMetaView {
    /// Nothing known of the source.
    pub open spec fn none() -> Self {
        NoteMetaView {
            note_name: None,
            source_octave: None,
            source_midi_note: None,
            pitch_glide: None,
            macro_origin: Seq::empty(),
            macro_call_start: false,
            slur_from_previous: false,
            slur_to_next: false,
        }
    }
}

impl DeepView for NoteMeta {
    type V = NoteMetaView;

    open spec fn deep_view(&self) -> NoteMetaView {
        NoteMetaView {
            note_name: self.note_name,
            source_octave: self.source_octave,
            source_midi_note: self.source_midi_note,
            pitch_glide: self.pitch_glide.deep_view(),
            macro_origin: views::all_views(self.macro_origin@),
            macro_call_start: self.macro_call_start,
            slur_from_previous: self.slur_from_previous,
            slur_to_next: self.slur_to_next,
        }
    }
}

pub fn copy_origins(v: &Vec<MacroOrigin>) -> (r: Vec<MacroOrigin>)
    ensures
        views::all_views(r@) == views::all_views(v@),
{
    let mut out: Vec<MacroOrigin> = Vec::new();
    let mut i: usize = 0;
    while i < v.len()
        invariant
            i <= v@.len(),
            views::all_views(out@) == views::all_views(v@).take(i as int),
        decreases v@.len() - i,
    {
        push_viewed(&mut out, v[i].clone());
        assert(views::all_views(v@).take(i + 1) =~= views::all_views(v@).take(i as int).push(
            v@[i as int].deep_view(),
        ));
        i += 1;
    }
    assert(views::all_views(v@).take(v@.len() as int) =~= views::all_views(v@));
    out
}

impl Clone for NoteMeta {
    fn clone(&self) -> (r: Self)
        ensures
            r.deep_view() == self.deep_view(),
    {
        NoteMeta {
            note_name: self.note_name,
            source_octave: self.source_octave,
            source_midi_note: self.source_midi_note,
            pitch_glide: match &self.pitch_glide {
                Some(g) => Some(g.clone()),
                None => None,
            },
            macro_origin: copy_origins(&self.macro_origin),
            macro_call_start: self.macro_call_start,
            slur_from_previous: self.slur_from_previous,
            slur_to_next: self.slur_to_next,
        }
    }
}

impl Default for NoteMeta {
    fn default() -> (r: Self)
        ensures
            r.deep_view() == NoteMetaView::none(),
    {
        let r = NoteMeta {
            note_name: None,
            source_octave: None,
            source_midi_note: None,
            pitch_glide: None,
            macro_origin: Vec::new(),
            macro_call_start: false,
            slur_from_previous: false,
            slur_to_next: false,
        };
        assert(r.deep_view() =~= NoteMetaView::none());
        r
    }
}

impl NoteMeta {
    /// The source facts of a note that was written by name.
    pub fn from_source_note(
        note_name: char,
        source_octave: i32,
        source_midi_note: u8,
        pitch_glide: Option<PitchGlideMeta>,
        macro_origin: Vec<MacroOrigin>,
        macro_call_start: bool,
        slur_from_previous: bool,
        slur_to_next: bool,
    ) -> (r: Self)
        ensures
            r.deep_view() == (NoteMetaView {
                note_name: Some(note_name),
                source_octave: Some(source_octave),
                source_midi_note: Some(source_midi_note),
                pitch_glide: pitch_glide.deep_view(),
                macro_origin: views::all_views(macro_origin@),
                macro_call_start,
                slur_from_previous,
                slur_to_next,
            }),
    {
        NoteMeta {
            note_name: Some(note_name),
            source_octave: Some(source_octave),
            source_midi_note: Some(source_midi_note),
            pitch_glide,
            macro_origin,
            macro_call_start,
            slur_from_previous,
            slur_to_next,
        }
    }
}

#[allow(inconsistent_fields)]
#[derive(Debug, PartialEq, Eq)]
pub enum IrEvent {
    Note {
        start_steps: Rational,
        duration_steps: Rational,
        note: u8,
        velocity: u8,
        tone: Option<u8>,
        envelope: Option<EnvelopeRef>,
        meta: NoteMeta,
    },
    Rest { start_steps: Rational, duration_steps: Rational },
    Tempo { at_steps: Rational, bpm: u32 },
    Control { at_steps: Rational, kind: ControlKind },
    LoopMarker { at_steps: Rational, kind: LoopMarkerKind },
    AtCommand {
        source_track: String,
        source_step: Rational,
        family: SourceFamily,
        number: u8,
        spelling: AtSpelling,
        context: AtContext,
        source_span: SourceSpan,
    },
    PsgEnvelopeSelect {
        source_track: String,
        source_step: Rational,
        envelope_number: u8,
        kind: EnvelopeKind,
    },
    ToneChange {
        source_track: String,
        source_step: Rational,
        family: SourceFamily,
        tone_number: u8,
    },
    EnvelopeApply {
        source_track: String,
        source_step: Rational,
        family: SourceFamily,
        envelope_number: u8,
        kind: EnvelopeKind,
    },
    RegisterWrite {
        source_track: String,
        source_step: Rational,
        family: SourceFamily,
        register: u8,
        data: u8,
        context: RegisterContext,
        source_span: SourceSpan,
    },
    ManualSmf {
        source_track: Option<String>,
        target_channel: Option<u8>,
        source_step: Rational,
        request: SmfRequest,
        source_span: SourceSpan,
    },
}

#[allow(inconsistent_fields)]
#[verifier::ext_equal]
pub enum IrEventView {
    Note {
        start: Frac,
        duration: Frac,
        note: u8,
        velocity: u8,
        tone: Option<u8>,
        envelope: Option<EnvelopeRef>,
        meta: NoteMetaView,
    },
    Rest { start: Frac, duration: Frac },
    Tempo { at: Frac, bpm: u32 },
    Control { at: Frac, kind: ControlKind },
    LoopMarker { at: Frac, kind: LoopMarkerKind },
    AtCommand {
        track: Seq<char>,
        at: Frac,
        family: SourceFamily,
        number: u8,
        spelling: AtSpelling,
        context: AtContext,
        span: SourceSpanView,
    },
    PsgEnvelopeSelect { track: Seq<char>, at: Frac, number: u8, kind: EnvelopeKind },
    ToneChange { track: Seq<char>, at: Frac, family: SourceFamily, tone: u8 },
    EnvelopeApply {
        track: Seq<char>,
        at: Frac,
        family: SourceFamily,
        number: u8,
        kind: EnvelopeKind,
    },
    RegisterWrite {
        track: Seq<char>,
        at: Frac,
        family: SourceFamily,
        register: u8,
        data: u8,
        context: RegisterContext,
        span: SourceSpanView,
    },
    ManualSmf {
        track: Option<Seq<char>>,
        channel: Option<u8>,
        at: Frac,
        request: SmfRequestView,
        span: SourceSpanView,
    },
}

impl DeepView for IrEvent {
    type V = IrEventView;

    open spec fn deep_view(&self) -> IrEventView {
        match *self {
            IrEvent::Note {
                start_steps,
                duration_steps,
                note,
                velocity,
                tone,
                envelope,
                meta,
            } => IrEventView::Note {
                start: start_steps.deep_view(),
                duration: duration_steps.deep_view(),
                note,
                velocity,
                tone,
                envelope,
                meta: meta.deep_view(),
            },
            IrEvent::Rest { start_steps, duration_steps } => IrEventView::Rest {
                start: start_steps.deep_view(),
                duration: duration_steps.deep_view(),
            },
            IrEvent::Tempo { at_steps, bpm } => IrEventView::Tempo { at: at_steps.deep_view(), bpm },
            IrEvent::Control { at_steps, kind } => IrEventView::Control {
                at: at_steps.deep_view(),
                kind,
            },
            IrEvent::LoopMarker { at_steps, kind } => IrEventView::LoopMarker {
                at: at_steps.deep_view(),
                kind,
            },
            IrEvent::AtCommand {
                source_track,
                source_step,
                family,
                number,
                spelling,
                context,
                source_span,
            } => IrEventView::AtCommand {
                track: source_track@,
                at: source_step.deep_view(),
                family,
                number,
                spelling,
                context,
                span: source_span.deep_view(),
            },
            IrEvent::PsgEnvelopeSelect { source_track, source_step, envelope_number, kind } =>
            IrEventView::PsgEnvelopeSelect {
                track: source_track@,
                at: source_step.deep_view(),
                number: envelope_number,
                kind,
            },
            IrEvent::ToneChange { source_track, source_step, family, tone_number } =>
            IrEventView::ToneChange {
                track: source_track@,
                at: source_step.deep_view(),
                family,
                tone: tone_number,
            },
            IrEvent::EnvelopeApply { source_track, source_step, family, envelope_number, kind } =>
            IrEventView::EnvelopeApply {
                track: source_track@,
                at: source_step.deep_view(),
                family,
                number: envelope_number,
                kind,
            },
            IrEvent::RegisterWrite {
                source_track,
                source_step,
                family,
                register,
                data,
                context,
                source_span,
            } => IrEventView::RegisterWrite {
                track: source_track@,
                at: source_step.deep_view(),
                family,
                register,
                data,
                context,
                span: source_span.deep_view(),
            },
            IrEvent::ManualSmf {
                source_track,
                target_channel,
                source_step,
                request,
                source_span,
            } => IrEventView::ManualSmf {
                track: source_track.deep_view(),
                channel: target_channel,
                at: source_step.deep_view(),
                request: request.deep_view(),
                span: source_span.deep_view(),
            },
        }
    }
}

impl Clone for IrEvent {
    fn clone(&self) -> (r: Self)
        ensures
            r.deep_view() == self.deep_view(),
    {
        match self {
            IrEvent::Note {
                start_steps,
                duration_steps,
                note,
                velocity,
                tone,
                envelope,
                meta,
            } => IrEvent::Note {
                start_steps: *start_steps,
                duration_steps: *duration_steps,
                note: *note,
                velocity: *velocity,
                tone: *tone,
                envelope: *envelope,
                meta: meta.clone(),
            },
            IrEvent::Rest { start_steps, duration_steps } => IrEvent::Rest {
                start_steps: *start_steps,
                duration_steps: *duration_steps,
            },
            IrEvent::Tempo { at_steps, bpm } => IrEvent::Tempo { at_steps: *at_steps, bpm: *bpm },
            IrEvent::Control { at_steps, kind } => IrEvent::Control {
                at_steps: *at_steps,
                kind: *kind,
            },
            IrEvent::LoopMarker { at_steps, kind } => IrEvent::LoopMarker {
                at_steps: *at_steps,
                kind: *kind,
            },
            IrEvent::AtCommand {
                source_track,
                source_step,
                family,
                number,
                spelling,
                context,
                source_span,
            } => IrEvent::AtCommand {
                source_track: copy_text(source_track.as_str()),
                source_step: *source_step,
                family: *family,
                number: *number,
                spelling: *spelling,
                context: *context,
                source_span: source_span.clone(),
            },
            IrEvent::PsgEnvelopeSelect { source_track, source_step, envelope_number, kind } =>
            IrEvent::PsgEnvelopeSelect {
                source_track: copy_text(source_track.as_str()),
                source_step: *source_step,
                envelope_number: *envelope_number,
                kind: *kind,
            },
            IrEvent::ToneChange { source_track, source_step, family, tone_number } =>
            IrEvent::ToneChange {
                source_track: copy_text(source_track.as_str()),
                source_step: *source_step,
                family: *family,
                tone_number: *tone_number,
            },
            IrEvent::EnvelopeApply { source_track, source_step, family, envelope_number, kind } =>
            IrEvent::EnvelopeApply {
                source_track: copy_text(source_track.as_str()),
                source_step: *source_step,
                family: *family,
                envelope_number: *envelope_number,
                kind: *kind,
            },
            IrEvent::RegisterWrite {
                source_track,
                source_step,
                family,
                register,
                data,
                context,
                source_span,
            } => IrEvent::RegisterWrite {
                source_track: copy_text(source_track.as_str()),
                source_step: *source_step,
                family: *family,
                register: *register,
                data: *data,
                context: *context,
                source_span: source_span.clone(),
            },
            IrEvent::ManualSmf {
                source_track,
                target_channel,
                source_step,
                request,
                source_span,
            } => IrEvent::ManualSmf {
                source_track: copy_opt(source_track),
                target_channel: *target_channel,
                source_step: *source_step,
                request: request.clone(),
                source_span: source_span.clone(),
            },
        }
    }
}

pub fn copy_events(v: &Vec<IrEvent>) -> (r: Vec<IrEvent>)
    ensures
        views::all_views(r@) == views::all_views(v@),
{
    let mut out: Vec<IrEvent> = Vec::new();
    let mut i: usize = 0;
    while i < v.len()
        invariant
            i <= v@.len(),
            views::all_views(out@) == views::all_views(v@).take(i as int),
        decreases v@.len() - i,
    {
        push_viewed(&mut out, v[i].clone());
        assert(views::all_views(v@).take(i + 1) =~= views::all_views(v@).take(i as int).push(
            v@[i as int].deep_view(),
        ));
        i += 1;
    }
    assert(views::all_views(v@).take(v@.len() as int) =~= views::all_views(v@));
    out
}

#[derive(Debug, PartialEq, Eq)]
pub struct TempoEvent {
    pub at_steps: Rational,
    pub bpm: u32,
    pub source: String,
    pub line: Option<usize>,
}

#[verifier::ext_equal]
pub struct TempoEventView {
    pub at: Frac,
    pub bpm: u32,
    pub source: Seq<char>,
    pub line: Option<usize>,
}

impl DeepView for TempoEvent {
    type V = TempoEventView;

    open spec fn deep_view(&self) -> TempoEventView {
        TempoEventView {
            at: self.at_steps.deep_view(),
            bpm: self.bpm,
            source: self.source@,
            line: self.line,
        }
    }
}

impl Clone for TempoEvent {
    fn clone(&self) -> (r: Self)
        ensures
            r.deep_view() == self.deep_view(),
    {
        TempoEvent {
            at_steps: self.at_steps,
            bpm: self.bpm,
            source: copy_text(self.source.as_str()),
            line: self.line,
        }
    }
}

// ---------------------------------------------------------------------------
// Envelopes
// ---------------------------------------------------------------------------
#[derive(Clone, Copy, Debug, PartialEq, Eq, Structural)]
pub enum ECommand {
    Level(u8),
    Hold { level: u8, count: u32 },
    Ramp { target: u8, count: u32 },
    ToneChange(u8),
    Noise(u32),
    ModeChange { command: char, value: i32 },
    RegisterWrite { register: i32, data: i32 },
    FrequencyOffset(i32),
    LoopStart,
    LoopEnd,
}

#[derive(Clone, Debug, PartialEq, Eq)]
pub struct EnvelopeE {
    pub id: u8,
    pub mode: i32,
    pub noise: i32,
    pub commands: Vec<ECommand>,
}

#[verifier::ext_equal]
pub struct EnvelopeEView {
    pub id: u8,
    pub mode: i32,
    pub noise: i32,
    pub commands: Seq<ECommand>,
}

impl DeepView for EnvelopeE {
    type V = EnvelopeEView;

    open spec fn deep_view(&self) -> EnvelopeEView {
        EnvelopeEView { id: self.id, mode: self.mode, noise: self.noise, commands: self.commands@ }
    }
}

#[derive(Clone, Copy, Debug, PartialEq, Eq, Structural)]
pub struct EnvelopeR {
    pub id: u8,
    pub mode: i32,
    pub noise: i32,
    pub al: u8,
    pub ar: u8,
    pub dr: u8,
    pub sl: u8,
    pub sr: u8,
    pub rr: u8,
}

#[derive(Clone, Debug)]
pub struct EnvelopeTable {
    pub e: BTreeMap<u8, EnvelopeE>,
    pub r: BTreeMap<u8, EnvelopeR>,
}

#[verifier::ext_equal]
pub struct EnvelopeTableView {
    pub e: Map<u8, EnvelopeEView>,
    pub r: Map<u8, EnvelopeR>,
}

impl DeepView for EnvelopeTable {
    type V = EnvelopeTableView;

    open spec fn deep_view(&self) -> EnvelopeTableView {
        EnvelopeTableView { e: views::map_views(self.e@), r: self.r@ }
    }
}

impl Default for EnvelopeTable {
    fn default() -> (r: Self)
        ensures
            r.deep_view() == (EnvelopeTableView { e: Map::empty(), r: Map::empty() }),
    {
        let r = EnvelopeTable { e: BTreeMap::new(), r: BTreeMap::new() };
        assert(views::map_views(r.e@) =~= Map::empty());
        r
    }
}

#[derive(Clone, Copy, Debug)]
pub enum EnvelopeDefinition<'a> {
    E(&'a EnvelopeE),
    R(&'a EnvelopeR),
}

impl EnvelopeTable {
    /// The definition that a reference names.
    pub fn get(&self, reference: EnvelopeRef) -> (r: Option<EnvelopeDefinition<'_>>)
        ensures
            match reference {
                EnvelopeRef::E(id) => if self.e@.contains_key(id) {
                    r == Some(EnvelopeDefinition::E(&self.e@[id]))
                } else {
                    r is None
                },
                EnvelopeRef::R(id) => if self.r@.contains_key(id) {
                    r == Some(EnvelopeDefinition::R(&self.r@[id]))
                } else {
                    r is None
                },
            },
    {
        match reference {
            EnvelopeRef::E(id) => match self.e.get(&id) {
                Some(e) => Some(EnvelopeDefinition::E(e)),
                None => None,
            },
            EnvelopeRef::R(id) => match self.r.get(&id) {
                Some(e) => Some(EnvelopeDefinition::R(e)),
                None => None,
            },
        }
    }
}

// ---------------------------------------------------------------------------
// Tracks and songs
// ---------------------------------------------------------------------------
#[derive(Debug)]
pub struct TrackIr {
    pub source_id: String,
    pub kind: TrackKind,
    pub events: Vec<IrEvent>,
    pub length_steps: Rational,
}

#[verifier::ext_equal]
pub struct TrackIrView {
    pub source_id: Seq<char>,
    pub kind: TrackKind,
    pub events: Seq<IrEventView>,
    pub length: Frac,
}

impl DeepView for TrackIr {
    type V = TrackIrView;

    open spec fn deep_view(&self) -> TrackIrView {
        TrackIrView {
            source_id: self.source_id@,
            kind: self.kind,
            events: views::all_views(self.events@),
            length: self.length_steps.deep_view(),
        }
    }
}

impl TrackIr {
    pub fn new_with_kind(source_id: String, kind: TrackKind) -> (r: Self)
        ensures
            r.deep_view() == (TrackIrView {
                source_id: source_id@,
                kind,
                events: Seq::empty(),
                length: fraction::whole(0),
            }),
    {
        let r = TrackIr { source_id, kind, events: Vec::new(), length_steps: Rational::zero() };
        assert(views::all_views(r.events@) =~= Seq::empty());
        r
    }
}

impl Clone for TrackIr {
    fn clone(&self) -> (r: Self)
        ensures
            r.deep_view() == self.deep_view(),
    {
        TrackIr {
            source_id: copy_text(self.source_id.as_str()),
            kind: self.kind,
            events: copy_events(&self.events),
            length_steps: self.length_steps,
        }
    }
}

#[derive(Debug)]
pub struct SongIr {
    pub title: Option<String>,
    pub ppq: u16,
    pub tempo_events: Vec<TempoEvent>,
    pub conductor_events: Vec<IrEvent>,
    pub tracks: Vec<TrackIr>,
    pub envelopes: EnvelopeTable,
    pub control_texts: BTreeMap<u8, String>,
    pub opll_tone_assignments: BTreeMap<u8, u8>,
    pub diagnostics: Diagnostics,
}

#[verifier::ext_equal]
pub struct SongIrView {
    pub title: Option<Seq<char>>,
    pub ppq: u16,
    pub tempo_events: Seq<TempoEventView>,
    pub conductor_events: Seq<IrEventView>,
    pub tracks: Seq<TrackIrView>,
    pub envelopes: EnvelopeTableView,
    pub control_texts: Map<u8, Seq<char>>,
    pub opll_tone_assignments: Map<u8, u8>,
    pub diagnostics: DiagnosticsView,
}

impl DeepView for SongIr {
    type V = SongIrView;

    open spec fn deep_view(&self) -> SongIrView {
        SongIrView {
            title: self.title.deep_view(),
            ppq: self.ppq,
            tempo_events: views::all_views(self.tempo_events@),
            conductor_events: views::all_views(self.conductor_events@),
            tracks: views::all_views(self.tracks@),
            envelopes: self.envelopes.deep_view(),
            control_texts: views::map_views(self.control_texts@),
            opll_tone_assignments: self.opll_tone_assignments@,
            diagnostics: self.diagnostics.deep_view(),
        }
    }
}

impl SongIrView {
    pub open spec fn empty(ppq: u16) -> Self {
        SongIrView {
            title: None,
            ppq,
            tempo_events: Seq::empty(),
            conductor_events: Seq::empty(),
            tracks: Seq::empty(),
            envelopes: EnvelopeTableView { e: Map::empty(), r: Map::empty() },
            control_texts: Map::empty(),
            opll_tone_assignments: Map::empty(),
            diagnostics: DiagnosticsView::empty(),
        }
    }

    pub open spec fn with_diagnostics(self, diagnostics: DiagnosticsView) -> Self {
        SongIrView { diagnostics, ..self }
    }

    pub open spec fn with_tempo(self, tempo: TempoEventView) -> Self {
        SongIrView { tempo_events: self.tempo_events.push(tempo), ..self }
    }
}

impl SongIr {
    pub fn new(ppq: u16) -> (r: Self)
        ensures
            r.deep_view() == SongIrView::empty(ppq),
    {
        let r = SongIr {
            title: None,
            ppq,
            tempo_events: Vec::new(),
            conductor_events: Vec::new(),
            tracks: Vec::new(),
            envelopes: EnvelopeTable::default(),
            control_texts: BTreeMap::new(),
            opll_tone_assignments: BTreeMap::new(),
            diagnostics: Diagnostics::default(),
        };
        assert(views::map_views(r.control_texts@) =~= Map::empty());
        assert(r.deep_view() =~= SongIrView::empty(ppq));
        r
    }
}

// ---------------------------------------------------------------------------
// Options
// ---------------------------------------------------------------------------
#[derive(Debug)]
pub struct ConversionOptions {
    pub ppq: u16,
    pub loop_count: Option<u32>,
    pub loop_marker_start: String,
    pub loop_marker_end: String,
    pub envelope_mode: EnvelopeMode,
    pub tone_policy: TonePolicy,
    pub rhythm_map: RhythmMap,
    pub channel_overflow: ChannelOverflowPolicy,
    pub encoding: EncodingChoice,
    pub octave_base: i32,
    pub strict: bool,
    pub smfmap: SmfMapConfig,
}

#[verifier::ext_equal]
pub struct OptionsView {
    pub ppq: u16,
    pub loop_count: Option<u32>,
    pub loop_marker_start: Seq<char>,
    pub loop_marker_end: Seq<char>,
    pub envelope_mode: EnvelopeMode,
    pub tone_policy: TonePolicy,
    pub rhythm_map: RhythmMap,
    pub channel_overflow: ChannelOverflowPolicy,
    pub encoding: EncodingChoice,
    pub octave_base: i32,
    pub strict: bool,
    pub smfmap: SmfMapConfigView,
}

impl DeepView for ConversionOptions {
    type V = OptionsView;

    open spec fn deep_view(&self) -> OptionsView {
        OptionsView {
            ppq: self.ppq,
            loop_count: self.loop_count,
            loop_marker_start: self.loop_marker_start@,
            loop_marker_end: self.loop_marker_end@,
            envelope_mode: self.envelope_mode,
            tone_policy: self.tone_policy,
            rhythm_map: self.rhythm_map,
            channel_overflow: self.channel_overflow,
            encoding: self.encoding,
            octave_base: self.octave_base,
            strict: self.strict,
            smfmap: self.smfmap.deep_view(),
        }
    }
}

impl OptionsView {
    /// The options of a conversion that asks for nothing special.
    pub open spec fn initial() -> Self {
        OptionsView {
            ppq: 3600,
            loop_count: None,
            loop_marker_start: "loopStart"@,
            loop_marker_end: "loopEnd"@,
            envelope_mode: EnvelopeMode::Cc11,
            tone_policy: TonePolicy::Ignore,
            rhythm_map: RhythmMap::Gm,
            channel_overflow: ChannelOverflowPolicy::Error,
            encoding: EncodingChoice::Auto,
            octave_base: 60,
            strict: false,
            smfmap: SmfMapConfigView::initial(),
        }
    }
}

impl Default for ConversionOptions {
    fn default() -> (r: Self)
        ensures
            r.deep_view() == OptionsView::initial(),
    {
        ConversionOptions {
            ppq: 3600,
            loop_count: None,
            loop_marker_start: copy_text("loopStart"),
            loop_marker_end: copy_text("loopEnd"),
            envelope_mode: EnvelopeMode::Cc11,
            tone_policy: TonePolicy::Ignore,
            rhythm_map: RhythmMap::Gm,
            channel_overflow: ChannelOverflowPolicy::Error,
            encoding: EncodingChoice::Auto,
            octave_base: 60,
            strict: false,
            smfmap: SmfMapConfig::default(),
        }
    }
}

} // verus!
