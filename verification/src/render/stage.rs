//! Where and how a source track is rendered.

use std::collections::BTreeMap;

use vstd::prelude::*;

use crate::fraction::Frac;
use crate::ir::{
    ConversionOptions, EnvelopeTable, EnvelopeTableView, OptionsView, Rational, RegisterContext,
    SmfRequest, SmfRequestView, SourceFamily, TonePolicy,
};
use crate::render::events::{KindView, PRI_PROGRAM, RenderedEventKind};
use crate::render::opll_pseudo_drum;
use crate::render::opll_pseudo_drum::find_effective_tone;
use crate::render::requests;
use crate::render::score;
use crate::render::score::{Failure, Place, Score, ScoreView};
use crate::smfmap;
use crate::smfmap::{
    DrumOutputMode, OpllPseudoDrumMap, OpllPseudoDrumMapView, RegisterMapPolicy, RuleEvents,
    RuleEventsView, SmfMapConfig, SmfMapConfigView, default_program, find_family_number,
    find_track_number,
};
use crate::smfmap::formula;
use crate::smfmap::formula::{FormulaVars, Quotient, small_value};
use crate::text;
use crate::text::{copy_opt, copy_text, join2, join4, number_text, signed_text};
use crate::views;

verus! {

/// A source track on its way into the output.
pub struct Stage<'a> {
    pub midi_track: usize,
    pub channel: u8,
    /// Whether another track has the same channel.
    pub shared: bool,
    pub id: &'a str,
    pub family: SourceFamily,
    pub options: &'a ConversionOptions,
    pub envelopes: &'a EnvelopeTable,
    pub assignments: &'a BTreeMap<u8, u8>,
    pub texts: &'a BTreeMap<u8, String>,
    pub tempo: &'a [(u64, u32)],
    /// The drum map of a track that is played as drums.
    pub drums: Option<&'a OpllPseudoDrumMap>,
    /// The bend range of a track whose glides are rendered.
    pub glide: Option<(u8, u8)>,
}

#[verifier::ext_equal]
pub struct StageView {
    pub midi_track: usize,
    pub channel: u8,
    pub shared: bool,
    pub id: Seq<char>,
    pub family: SourceFamily,
    pub options: OptionsView,
    pub envelopes: EnvelopeTableView,
    pub assignments: Map<u8, u8>,
    pub texts: Map<u8, Seq<char>>,
    pub tempo: Seq<(u64, u32)>,
    pub drums: Option<OpllPseudoDrumMapView>,
    pub glide: Option<(u8, u8)>,
}

impl<'a> DeepView for Stage<'a> {
    type V = StageView;

    open spec fn deep_view(&self) -> StageView {
        StageView {
            midi_track: self.midi_track,
            channel: self.channel,
            shared: self.shared,
            id: self.id@,
            family: self.family,
            options: self.options.deep_view(),
            envelopes: self.envelopes.deep_view(),
            assignments: self.assignments@,
            texts: views::map_views(self.texts@),
            tempo: self.tempo@,
            drums: self.drums.deep_view(),
            glide: self.glide,
        }
    }
}

impl StageView {
    pub open spec fn place(self, tick: u64) -> Place {
        Place { midi_track: self.midi_track, tick, channel: self.channel }
    }
}

impl<'a> Stage<'a> {
    pub fn at(&self, tick: u64) -> (r: Place)
        ensures
            r == self.deep_view().place(tick),
    {
        Place { midi_track: self.midi_track, tick, channel: self.channel }
    }
}

// ---------------------------------------------------------------------------
// Tones
// ---------------------------------------------------------------------------
/// Whether a drum map keeps tones from being rendered.
pub open spec fn drums_hide_tones(drums: Option<OpllPseudoDrumMapView>) -> bool {
    drums matches Some(m) && m.output.mode != DrumOutputMode::Passthrough
        && m.output.suppress_tone_map
}

/// Whether programs are rendered beside a drum map.
pub open spec fn drums_leave_programs(drums: Option<OpllPseudoDrumMapView>) -> bool {
    match drums {
        Some(m) => m.output.mode == DrumOutputMode::Passthrough
            || !m.output.suppress_program_change,
        None => true,
    }
}

/// The built-in program of a tone that the tone map gives no events.
pub open spec fn with_default_program(s: ScoreView, p: Place, number: u8, programs: bool) ->
    ScoreView {
    match smfmap::built_in_program(number) {
        Some((_, program)) => if programs {
            s.with(
                p,
                PRI_PROGRAM,
                KindView::ProgramChange { channel: p.channel, program },
            )
        } else {
            s
        },
        None => s,
    }
}

/// The text that names a tone.
pub open spec fn with_tone_name(s: ScoreView, p: Place, tone: u8) -> ScoreView {
    s.with_text(p, "tone @"@ + text::decimal(tone as nat))
}

/// What the policy for tones adds to a tone.
pub open spec fn with_tone_policy(
    s: ScoreView,
    p: Place,
    policy: TonePolicy,
    tone: u8,
    number: u8,
    mapped: bool,
    programs: bool,
) -> ScoreView {
    match policy {
        TonePolicy::Ignore => s,
        TonePolicy::GmProgram => if mapped {
            s
        } else {
            with_default_program(s, p, number, programs)
        },
        TonePolicy::TextMeta => with_tone_name(s, p, tone),
    }
}

/// Whether tones are named beside what the policy for them adds.
pub open spec fn names_tones(o: OptionsView) -> bool {
    o.smfmap.details.tone_text_meta && o.tone_policy != TonePolicy::TextMeta
}

/// What is added to a tone.
pub open spec fn with_tone_extras(
    s: ScoreView,
    p: Place,
    o: OptionsView,
    tone: u8,
    number: u8,
    mapped: bool,
    programs: bool,
) -> ScoreView {
    let t = with_tone_policy(s, p, o.tone_policy, tone, number, mapped, programs);
    if names_tones(o) {
        with_tone_name(t, p, tone)
    } else {
        t
    }
}

/// The tone of the tone map that a tone of the source means.
pub open spec fn mapped_number(v: StageView, tone: u8) -> u8 {
    if v.family == SourceFamily::Opll {
        opll_pseudo_drum::effective_tone(tone, v.options.smfmap.opll_respect_at_hash_rom_assign, v.assignments)
    } else {
        tone
    }
}

/// A change of tone.
pub open spec fn tone_changed(s: ScoreView, v: StageView, tick: u64, tone: u8) -> Result<
    ScoreView,
    Failure,
> {
    let m = v.options.smfmap;
    let p = v.place(tick);
    let number = mapped_number(v, tone);
    let programs = drums_leave_programs(v.drums);
    let used = s.with_diagnostics(
        s.diagnostics.with_tone_usage(v.id, v.family.name(), tone),
    );
    if drums_hide_tones(v.drums) {
        Ok(used)
    } else {
        match m.tone(v.family, number) {
            Some(requests) => match requests::with_requests(
                used,
                p,
                requests,
                requests.len() as int,
                programs,
                m.macros,
                m.macro_max_depth as nat,
            ) {
                Ok(t) => Ok(
                    with_tone_extras(
                        t,
                        p,
                        v.options,
                        tone,
                        number,
                        requests.len() > 0,
                        programs,
                    ),
                ),
                Err(e) => Err(e),
            },
            None => Ok(
                with_tone_extras(
                    used.with_diagnostics(
                        used.diagnostics.with_unmapped_tone(v.id, v.family.name(), tone),
                    ),
                    p,
                    v.options,
                    tone,
                    number,
                    false,
                    programs,
                ),
            ),
        }
    }
}

fn hides_tones(drums: Option<&OpllPseudoDrumMap>) -> (r: bool)
    ensures
        r == drums_hide_tones(drums.deep_view()),
{
    match drums {
        Some(m) => m.output.mode != DrumOutputMode::Passthrough && m.output.suppress_tone_map,
        None => false,
    }
}

fn leaves_programs(drums: Option<&OpllPseudoDrumMap>) -> (r: bool)
    ensures
        r == drums_leave_programs(drums.deep_view()),
{
    match drums {
        Some(m) => m.output.mode == DrumOutputMode::Passthrough
            || !m.output.suppress_program_change,
        None => true,
    }
}

impl Score {
    fn default_program(&mut self, p: Place, number: u8, programs: bool)
        ensures
            final(self).deep_view() == with_default_program(
                old(self).deep_view(),
                p,
                number,
                programs,
            ),
    {
        match default_program(number) {
            Some((_, program)) => {
                if programs {
                    self.push(
                        p,
                        PRI_PROGRAM,
                        RenderedEventKind::ProgramChange { channel: p.channel, program },
                    );
                }
            },
            None => {},
        }
    }

    fn tone_policy(
        &mut self,
        p: Place,
        policy: TonePolicy,
        tone: u8,
        number: u8,
        mapped: bool,
        programs: bool,
    )
        ensures
            final(self).deep_view() == with_tone_policy(
                old(self).deep_view(),
                p,
                policy,
                tone,
                number,
                mapped,
                programs,
            ),
    {
        match policy {
            TonePolicy::Ignore => {},
            TonePolicy::GmProgram => {
                if !mapped {
                    self.default_program(p, number, programs);
                }
            },
            TonePolicy::TextMeta => {
                self.tone_name(p, tone);
            },
        }
    }

    fn tone_name(&mut self, p: Place, tone: u8)
        ensures
            final(self).deep_view() == with_tone_name(old(self).deep_view(), p, tone),
    {
        let n = number_text(tone as u64);
        let text = join2("tone @", n.as_str());
        self.text(p, text.as_str());
    }

    fn tone_extras(
        &mut self,
        p: Place,
        o: &ConversionOptions,
        tone: u8,
        number: u8,
        mapped: bool,
        programs: bool,
    )
        ensures
            final(self).deep_view() == with_tone_extras(
                old(self).deep_view(),
                p,
                o.deep_view(),
                tone,
                number,
                mapped,
                programs,
            ),
    {
        self.tone_policy(p, o.tone_policy, tone, number, mapped, programs);
        if o.smfmap.details.tone_text_meta && o.tone_policy != TonePolicy::TextMeta {
            self.tone_name(p, tone);
        }
    }

    /// Renders a change of tone.
    pub fn tone_change(&mut self, v: &Stage, tick: u64, tone: u8) -> (r: Result<(), String>)
        ensures
            score::score_is(
                tone_changed(old(self).deep_view(), v.deep_view(), tick, tone),
                final(self).deep_view(),
                r,
            ),
    {
        let m = &v.options.smfmap;
        let p = v.at(tick);
        let number: u8 = if v.family == SourceFamily::Opll {
            find_effective_tone(tone, m.opll_respect_at_hash_rom_assign, v.assignments)
        } else {
            tone
        };
        let programs = leaves_programs(v.drums);
        self.diagnostics.add_tone_usage(copy_text(v.id), copy_text(v.family.as_str()), tone);
        if hides_tones(v.drums) {
            return Ok(());
        }
        match m.tone_events(v.family, number) {
            Some(requests) => {
                match self.requests(p, requests, programs, &m.macros, m.macro_max_depth) {
                    Ok(_) => {},
                    Err(e) => {
                        return Err(e);
                    },
                }
                let mapped = requests.len() > 0;
                self.tone_extras(p, v.options, tone, number, mapped, programs);
            },
            None => {
                self.diagnostics.add_unmapped_tone(
                    copy_text(v.id),
                    copy_text(v.family.as_str()),
                    tone,
                );
                self.tone_extras(p, v.options, tone, number, false, programs);
            },
        }
        Ok(())
    }
}

// ---------------------------------------------------------------------------
// Register writes
// ---------------------------------------------------------------------------
/// How a register write is written.
pub open spec fn write_command(register: u8, data: u8) -> Seq<char> {
    "y"@ + text::decimal(register as nat) + ","@ + text::decimal(data as nat)
}

/// What the first `n` rules ask for.
pub open spec fn with_rules(
    s: ScoreView,
    p: Place,
    rules: Seq<RuleEventsView>,
    n: int,
    m: SmfMapConfigView,
) -> Result<ScoreView, Failure>
    decreases n,
{
    if n <= 0 || n > rules.len() {
        Ok(s)
    } else {
        match with_rules(s, p, rules, n - 1, m) {
            Ok(t) => requests::with_requests(
                t,
                p,
                rules[n - 1].events,
                rules[n - 1].events.len() as int,
                true,
                m.macros,
                m.macro_max_depth as nat,
            ),
            Err(e) => Err(e),
        }
    }
}

proof fn rules_failed_stay(
    s: ScoreView,
    p: Place,
    rules: Seq<RuleEventsView>,
    n: int,
    k: int,
    m: SmfMapConfigView,
)
    requires
        0 <= n <= k <= rules.len(),
        with_rules(s, p, rules, n, m) is Err,
    ensures
        with_rules(s, p, rules, k, m) == with_rules(s, p, rules, n, m),
    decreases k,
{
    if n < k {
        rules_failed_stay(s, p, rules, n, k - 1, m);
    }
}

/// When a register is written, and with what tone and envelope.
#[derive(Clone, Copy, Debug, PartialEq, Eq, Structural)]
pub struct Moment {
    pub step: Option<Quotient>,
    pub tone: Option<u8>,
    pub envelope: Option<u8>,
}

/// What the names in formulas stand for at a register write.
pub open spec fn write_vars(v: StageView, tick: u64, register: u8, data: u8, at: Moment) ->
    FormulaVars {
    FormulaVars {
        register,
        data,
        source_step: at.step,
        midi_tick: Some(tick),
        track: smfmap::track_number(v.id),
        family: Some(smfmap::family_number(v.family)),
        tone: at.tone,
        envelope: at.envelope,
    }
}

/// A step of the source as a value in formulas.
pub open spec fn formula_step(step: Frac) -> Option<Quotient> {
    formula::small(step.num, step.den)
}

/// The step of the source at a tick, as a value in formulas.
pub open spec fn step_at(tick: u64, ppq: u16) -> Option<Quotient> {
    formula::small(tick * 48, ppq as int)
}

pub fn find_formula_step(step: Rational) -> (r: Option<Quotient>)
    ensures
        r == formula_step(step.deep_view()),
{
    small_value(step.num as i128, step.den as i128)
}

pub fn find_step_at(tick: u64, ppq: u16) -> (r: Option<Quotient>)
    ensures
        r == step_at(tick, ppq),
{
    small_value(tick as i128 * 48, ppq as i128)
}

/// A register write.
pub open spec fn register_written(
    s: ScoreView,
    v: StageView,
    tick: u64,
    register: u8,
    data: u8,
    context: RegisterContext,
    line: Option<usize>,
    at: Moment,
) -> Result<ScoreView, Failure> {
    let m = v.options.smfmap;
    let p = v.place(tick);
    let command = write_command(register, data);
    let used = s.with_diagnostics(
        s.diagnostics.with_register_write(
            v.id,
            v.family.name(),
            register,
            data,
            context.name(),
        ),
    );
    match m.register_map_policy {
        RegisterMapPolicy::IgnoreSilently => Ok(used),
        RegisterMapPolicy::IgnoreAndReport => Ok(
            used.reported(line, v.id, command, "ignore_and_report: register write ignored"@),
        ),
        RegisterMapPolicy::TextMeta => Ok(used.with_text(p, command)),
        RegisterMapPolicy::Error => Err(
            used.failed("register write "@ + command + " rejected on track "@ + v.id),
        ),
        RegisterMapPolicy::ApplyRules => {
            let rules = smfmap::rule_events(
                m.register_rules,
                m.register_rules.len() as int,
                v.family,
                v.id,
                context,
                write_vars(v, tick, register, data, at),
            );
            if rules.len() == 0 {
                Ok(
                    used.reported(
                        line,
                        v.id,
                        command,
                        "apply_rules: no matching register rule"@,
                    ),
                )
            } else {
                with_rules(used, p, rules, rules.len() as int, m)
            }
        },
    }
}

impl Score {
    fn rules(&mut self, p: Place, rules: &[RuleEvents], m: &SmfMapConfig) -> (r: Result<(), String>)
        ensures
            score::score_is(
                with_rules(
                    old(self).deep_view(),
                    p,
                    views::all_views(rules@),
                    rules@.len() as int,
                    m.deep_view(),
                ),
                final(self).deep_view(),
                r,
            ),
    {
        let ghost all = views::all_views(rules@);
        let ghost start = self.deep_view();
        let mut i: usize = 0;
        while i < rules.len()
            invariant
                i <= rules@.len(),
                all == views::all_views(rules@),
                start == old(self).deep_view(),
                with_rules(start, p, all, i as int, m.deep_view()) == Ok::<ScoreView, Failure>(
                    self.deep_view(),
                ),
            decreases rules@.len() - i,
        {
            assert(all[i as int] == rules@[i as int].deep_view());
            match self.requests(
                p,
                rules[i].events.as_slice(),
                true,
                &m.macros,
                m.macro_max_depth,
            ) {
                Ok(_) => {},
                Err(e) => {
                    proof {
                        rules_failed_stay(start, p, all, i + 1, all.len() as int, m.deep_view());
                    }
                    return Err(e);
                },
            }
            i += 1;
        }
        Ok(())
    }

    /// Renders a register write.
    pub fn register_write(
        &mut self,
        v: &Stage,
        tick: u64,
        register: u8,
        data: u8,
        context: RegisterContext,
        line: Option<usize>,
        at: Moment,
    ) -> (r: Result<(), String>)
        ensures
            score::score_is(
                register_written(
                    old(self).deep_view(),
                    v.deep_view(),
                    tick,
                    register,
                    data,
                    context,
                    line,
                    at,
                ),
                final(self).deep_view(),
                r,
            ),
    {
        let m = &v.options.smfmap;
        let p = v.at(tick);
        let a = number_text(register as u64);
        let b = number_text(data as u64);
        let command = join4("y", a.as_str(), ",", b.as_str());
        self.diagnostics.add_register_write_usage(
            copy_text(v.id),
            copy_text(v.family.as_str()),
            register,
            data,
            copy_text(context.as_str()),
        );
        match m.register_map_policy {
            RegisterMapPolicy::IgnoreSilently => Ok(()),
            RegisterMapPolicy::IgnoreAndReport => {
                self.report(
                    line,
                    v.id,
                    command.as_str(),
                    "ignore_and_report: register write ignored",
                );
                Ok(())
            },
            RegisterMapPolicy::TextMeta => {
                self.text(p, command.as_str());
                Ok(())
            },
            RegisterMapPolicy::Error => Err(
                join4("register write ", command.as_str(), " rejected on track ", v.id),
            ),
            RegisterMapPolicy::ApplyRules => {
                let vars = FormulaVars {
                    register,
                    data,
                    source_step: at.step,
                    midi_tick: Some(tick),
                    track: find_track_number(v.id),
                    family: Some(find_family_number(v.family)),
                    tone: at.tone,
                    envelope: at.envelope,
                };
                let rules = m.rule_events_for(v.family, v.id, context, vars);
                if rules.len() == 0 {
                    self.report(
                        line,
                        v.id,
                        command.as_str(),
                        "apply_rules: no matching register rule",
                    );
                    Ok(())
                } else {
                    self.rules(p, rules.as_slice(), m)
                }
            },
        }
    }
}

// ---------------------------------------------------------------------------
// Manual events
// ---------------------------------------------------------------------------
/// How a request is named in the diagnostics.
pub open spec fn manual_text(r: SmfRequestView) -> Seq<char> {
    match r {
        SmfRequestView::Pc { program } => "pc "@ + text::decimal(program as nat),
        SmfRequestView::Bank { msb, lsb } => "bank "@ + text::decimal(msb as nat) + " "@ + text::decimal(
            lsb as nat,
        ),
        SmfRequestView::Cc { controller, value } => "cc "@ + text::decimal(controller as nat) + " "@
            + text::decimal(value as nat),
        SmfRequestView::PitchBend { value } => "pb "@ + text::signed_decimal(value as int),
        SmfRequestView::Rpn { msb, lsb, .. } => "rpn "@ + text::decimal(msb as nat) + " "@ + text::decimal(
            lsb as nat,
        ),
        SmfRequestView::Nrpn { msb, lsb, .. } => "nrpn "@ + text::decimal(msb as nat) + " "@ + text::decimal(
            lsb as nat,
        ),
        SmfRequestView::Marker { text } => "marker "@ + text,
        SmfRequestView::Text { text } => "text "@ + text,
        SmfRequestView::Macro { name } => "macro "@ + name,
        SmfRequestView::Reset { .. } => "reset"@,
    }
}

fn two_numbers(word: &str, a: u8, b: u8) -> (r: String)
    ensures
        r@ == word@ + text::decimal(a as nat) + " "@ + text::decimal(b as nat),
{
    let x = number_text(a as u64);
    let y = number_text(b as u64);
    join4(word, x.as_str(), " ", y.as_str())
}

fn name_request(r: &SmfRequest) -> (t: String)
    ensures
        t@ == manual_text(r.deep_view()),
{
    match r {
        SmfRequest::Pc { program } => {
            let n = number_text(*program as u64);
            join2("pc ", n.as_str())
        },
        SmfRequest::Bank { msb, lsb } => two_numbers("bank ", *msb, *lsb),
        SmfRequest::Cc { controller, value } => two_numbers("cc ", *controller, *value),
        SmfRequest::PitchBend { value } => {
            let n = signed_text(*value as i128);
            join2("pb ", n.as_str())
        },
        SmfRequest::Rpn { msb, lsb, .. } => two_numbers("rpn ", *msb, *lsb),
        SmfRequest::Nrpn { msb, lsb, .. } => two_numbers("nrpn ", *msb, *lsb),
        SmfRequest::Marker { text } => join2("marker ", text.as_str()),
        SmfRequest::Text { text } => join2("text ", text.as_str()),
        SmfRequest::Macro { name } => join2("macro ", name.as_str()),
        SmfRequest::Reset { .. } => copy_text("reset"),
    }
}

/// An event that the source asks for by hand; nothing where that is switched off.
pub open spec fn manual_played(
    s: ScoreView,
    p: Place,
    track: Option<Seq<char>>,
    request: SmfRequestView,
    line: Option<usize>,
    m: SmfMapConfigView,
) -> Result<ScoreView, Failure> {
    if !m.manual_smf_enabled {
        Ok(s)
    } else {
        requests::with_request(
            s.with_diagnostics(
                s.diagnostics.with_manual_smf(line, track, manual_text(request)),
            ),
            p,
            request,
            true,
            m.macros,
            m.macro_max_depth as nat,
        )
    }
}

impl Score {
    pub fn manual(
        &mut self,
        p: Place,
        track: &Option<String>,
        request: &SmfRequest,
        line: Option<usize>,
        m: &SmfMapConfig,
    ) -> (r: Result<(), String>)
        ensures
            score::score_is(
                manual_played(
                    old(self).deep_view(),
                    p,
                    track.deep_view(),
                    request.deep_view(),
                    line,
                    m.deep_view(),
                ),
                final(self).deep_view(),
                r,
            ),
    {
        if !m.manual_smf_enabled {
            return Ok(());
        }
        let text = name_request(request);
        self.diagnostics.add_manual_smf_event(line, copy_opt(track), text.as_str());
        self.request(p, request, true, &m.macros, m.macro_max_depth)
    }
}

/// Where register writes are ignored, they play nothing.
pub proof fn ignored_writes_play_nothing(
    s: ScoreView,
    v: StageView,
    tick: u64,
    register: u8,
    data: u8,
    context: RegisterContext,
    line: Option<usize>,
    at: Moment,
)
    requires
        v.options.smfmap.register_map_policy == RegisterMapPolicy::IgnoreSilently
            || v.options.smfmap.register_map_policy == RegisterMapPolicy::IgnoreAndReport,
    ensures
        register_written(s, v, tick, register, data, context, line, at) matches Ok(t) && t.events
            == s.events && t.diagnostics.register_write_usage == s.diagnostics.with_register_write(
            v.id,
            v.family.name(),
            register,
            data,
            context.name(),
        ).register_write_usage,
{
}

} // verus!
