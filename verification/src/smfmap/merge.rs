//! Reading a configuration file into a configuration. What a file does not set
//! stays as it was.

use std::collections::BTreeMap;

use vstd::prelude::*;
use vstd::slice::slice_subrange;

use crate::ir::{ChannelOverflowPolicy, EnvelopeMode, SmfRequest, SmfRequestView, SourceFamily};
use crate::name_map::NameMap;
use crate::parser::smf;
use crate::parser::smf::parse_smf_number;
use crate::smfmap;
use crate::smfmap::{
    DrumHit, DrumHitGrouping, DrumOutput, DrumOutputMode, DrumUnmatchedPolicy, DrumVelocity,
    Numbering, OpllPseudoDrumMap, OpllPseudoDrumMapView, OpllPseudoDrumMatcher,
    OpllPseudoDrumMatcherView, OpllPseudoDrumRule, OpllPseudoDrumRuleView, PitchGlideConfig,
    PitchGlideCurve, PitchGlideRangePolicy, PitchGlideReset, PitchGlideSharedChannelPolicy,
    PsgNoiseDefaultAction, PsgNoiseDrumEntry, PsgNoiseDrumEntryView, RegisterMapPolicy,
    RegisterRule, RegisterRuleMatcher, RegisterRuleMatcherView, RegisterRuleView, RenderRole,
    SmfMacro, SmfMapConfig, SmfMapConfigView, StringMatcher, StringMatcherView, ToneMapEntry,
    ToneMapEntryView, ToneMapView, TrackMapConfig, TrackMapConfigView, U8Matcher, U8MatcherView,
    copy_requests,
};
use crate::smfmap::details;
use crate::smfmap::events;
use crate::smfmap::events::{parse_direct_events, parse_emission, parse_events};
use crate::text;
use crate::text::{
    after, char_lower, chars_of, clamp_i64, copy_opt, copy_text, find_char, read_whole, same_text,
    trimmed,
};
use crate::views;
use crate::views::push_viewed;
use crate::yaml;
use crate::yaml::{
    Yaml, YamlView, get_field, read_document, yaml_bool, yaml_i32, yaml_key_string, yaml_string,
    yaml_u16, yaml_u8,
};

verus! {

// ---------------------------------------------------------------------------
// Values by name
// ---------------------------------------------------------------------------
pub open spec fn numbering_of(v: Option<YamlView>) -> Option<Numbering> {
    match yaml::text_of(v) {
        Some(s) => Numbering::named(s),
        None => None,
    }
}

fn yaml_numbering(v: Option<&Yaml>) -> (r: Option<Numbering>)
    ensures
        r == numbering_of(yaml::opt_contents(v)),
{
    match yaml_string(v) {
        Some(s) => Numbering::parse(s),
        None => None,
    }
}

pub open spec fn register_policy_of(v: Option<YamlView>) -> Option<RegisterMapPolicy> {
    match yaml::text_of(v) {
        Some(s) => RegisterMapPolicy::named(s),
        None => None,
    }
}

fn yaml_register_policy(v: Option<&Yaml>) -> (r: Option<RegisterMapPolicy>)
    ensures
        r == register_policy_of(yaml::opt_contents(v)),
{
    match yaml_string(v) {
        Some(s) => RegisterMapPolicy::parse(s),
        None => None,
    }
}

pub open spec fn noise_action_of(v: Option<YamlView>) -> Option<PsgNoiseDefaultAction> {
    match yaml::text_of(v) {
        Some(s) => PsgNoiseDefaultAction::named(s),
        None => None,
    }
}

fn yaml_noise_action(v: Option<&Yaml>) -> (r: Option<PsgNoiseDefaultAction>)
    ensures
        r == noise_action_of(yaml::opt_contents(v)),
{
    match yaml_string(v) {
        Some(s) => PsgNoiseDefaultAction::parse(s),
        None => None,
    }
}

pub open spec fn render_role_of(v: Option<YamlView>) -> Option<RenderRole> {
    match yaml::text_of(v) {
        Some(s) => RenderRole::named(s),
        None => None,
    }
}

fn yaml_render_role(v: Option<&Yaml>) -> (r: Option<RenderRole>)
    ensures
        r == render_role_of(yaml::opt_contents(v)),
{
    match yaml_string(v) {
        Some(s) => RenderRole::parse(s),
        None => None,
    }
}

pub open spec fn drum_mode_of(v: Option<YamlView>) -> Option<DrumOutputMode> {
    match yaml::text_of(v) {
        Some(s) => DrumOutputMode::named(s),
        None => None,
    }
}

fn yaml_drum_mode(v: Option<&Yaml>) -> (r: Option<DrumOutputMode>)
    ensures
        r == drum_mode_of(yaml::opt_contents(v)),
{
    match yaml_string(v) {
        Some(s) => DrumOutputMode::parse(s),
        None => None,
    }
}

pub open spec fn unmatched_policy_of(v: Option<YamlView>) -> Option<DrumUnmatchedPolicy> {
    match yaml::text_of(v) {
        Some(s) => DrumUnmatchedPolicy::named(s),
        None => None,
    }
}

fn yaml_unmatched_policy(v: Option<&Yaml>) -> (r: Option<DrumUnmatchedPolicy>)
    ensures
        r == unmatched_policy_of(yaml::opt_contents(v)),
{
    match yaml_string(v) {
        Some(s) => DrumUnmatchedPolicy::parse(s),
        None => None,
    }
}

pub open spec fn shared_policy_of(v: Option<YamlView>) -> Option<PitchGlideSharedChannelPolicy> {
    match yaml::text_of(v) {
        Some(s) => PitchGlideSharedChannelPolicy::named(s),
        None => None,
    }
}

fn yaml_shared_policy(v: Option<&Yaml>) -> (r: Option<PitchGlideSharedChannelPolicy>)
    ensures
        r == shared_policy_of(yaml::opt_contents(v)),
{
    match yaml_string(v) {
        Some(s) => PitchGlideSharedChannelPolicy::parse(s),
        None => None,
    }
}

pub open spec fn range_policy_of(v: Option<YamlView>) -> Option<PitchGlideRangePolicy> {
    match yaml::text_of(v) {
        Some(s) => PitchGlideRangePolicy::named(s),
        None => None,
    }
}

fn yaml_range_policy(v: Option<&Yaml>) -> (r: Option<PitchGlideRangePolicy>)
    ensures
        r == range_policy_of(yaml::opt_contents(v)),
{
    match yaml_string(v) {
        Some(s) => PitchGlideRangePolicy::parse(s),
        None => None,
    }
}

pub open spec fn family_of(v: Option<YamlView>) -> Option<SourceFamily> {
    match yaml::text_of(v) {
        Some(s) => SourceFamily::named(s),
        None => None,
    }
}

fn yaml_family(v: Option<&Yaml>) -> (r: Option<SourceFamily>)
    ensures
        r == family_of(yaml::opt_contents(v)),
{
    match yaml_string(v) {
        Some(s) => SourceFamily::parse(s),
        None => None,
    }
}

pub open spec fn overflow_policy_of(v: Option<YamlView>) -> Option<ChannelOverflowPolicy> {
    match yaml::text_of(v) {
        Some(s) => ChannelOverflowPolicy::named(s),
        None => None,
    }
}

fn yaml_overflow_policy(v: Option<&Yaml>) -> (r: Option<ChannelOverflowPolicy>)
    ensures
        r == overflow_policy_of(yaml::opt_contents(v)),
{
    match yaml_string(v) {
        Some(s) => match ChannelOverflowPolicy::parse(s) {
            Ok(x) => Some(x),
            Err(_) => None,
        },
        None => None,
    }
}

pub open spec fn envelope_mode_of(v: Option<YamlView>) -> Option<EnvelopeMode> {
    match yaml::text_of(v) {
        Some(s) => EnvelopeMode::named(s),
        None => None,
    }
}

fn yaml_envelope_mode(v: Option<&Yaml>) -> (r: Option<EnvelopeMode>)
    ensures
        r == envelope_mode_of(yaml::opt_contents(v)),
{
    match yaml_string(v) {
        Some(s) => match EnvelopeMode::parse(s) {
            Ok(x) => Some(x),
            Err(_) => None,
        },
        None => None,
    }
}

/// A new value where there is one, else the old one.
pub open spec fn or_keep<T>(new: Option<T>, old: T) -> T {
    match new {
        Some(v) => v,
        None => old,
    }
}

/// The new value, if there is one.
pub fn keep<T: Copy>(new: Option<T>, old: T) -> (r: T)
    ensures
        r == or_keep(new, old),
{
    match new {
        Some(v) => v,
        None => old,
    }
}

fn first<T: Copy>(new: Option<T>, old: Option<T>) -> (r: Option<T>)
    ensures
        r == events::either(new, old),
{
    match new {
        Some(v) => Some(v),
        None => old,
    }
}

/// A value of at most `high`.
pub open spec fn at_most(v: Option<u8>, high: u8) -> Option<u8> {
    match v {
        Some(n) => Some(text::min_int(n as int, high as int) as u8),
        None => None,
    }
}

pub fn yaml_u8_at_most(v: Option<&Yaml>, high: u8) -> (r: Option<u8>)
    ensures
        r == at_most(yaml::u8_of(yaml::opt_contents(v)), high),
{
    match yaml_u8(v) {
        Some(n) => if n <= high {
            Some(n)
        } else {
            Some(high)
        },
        None => None,
    }
}

/// A number key of at most 255.
pub open spec fn byte_key(v: YamlView) -> Option<u8> {
    match yaml::key_text(v) {
        Some(s) => match text::whole_number(s, 10, false, 0, 255) {
            Some(n) => Some(n as u8),
            None => None,
        },
        None => None,
    }
}

pub fn yaml_byte_key(v: &Yaml) -> (r: Option<u8>)
    ensures
        r == byte_key(v.contents()),
{
    match yaml_key_string(v) {
        Some(s) => {
            let c = chars_of(s);
            match read_whole(&c, 10, false, 0, 255) {
                Some(n) => Some(n as u8),
                None => None,
            }
        },
        None => None,
    }
}

/// The entries of a mapping; none where there is no mapping.
pub open spec fn entries_of(v: Option<YamlView>) -> Seq<(YamlView, YamlView)> {
    match v {
        Some(YamlView::Mapping(entries)) => entries,
        _ => Seq::empty(),
    }
}

pub fn yaml_entry_count(v: Option<&Yaml>) -> (r: usize)
    ensures
        r == entries_of(yaml::opt_contents(v)).len(),
{
    match v {
        Some(Yaml::Mapping(entries)) => entries.len(),
        _ => 0,
    }
}

pub fn yaml_entry<'a>(v: Option<&'a Yaml>, i: usize) -> (r: Option<(&'a Yaml, &'a Yaml)>)
    ensures
        i < entries_of(yaml::opt_contents(v)).len() ==> r is Some,
        r matches Some(e) ==> i < entries_of(yaml::opt_contents(v)).len() && entries_of(
            yaml::opt_contents(v),
        )[i as int] == (e.0.contents(), e.1.contents()),
{
    match v {
        Some(Yaml::Mapping(entries)) => if i < entries.len() {
            Some((&entries[i].0, &entries[i].1))
        } else {
            None
        },
        _ => None,
    }
}

/// The items of a list; none where there is no list.
pub open spec fn items_of(v: Option<YamlView>) -> Seq<YamlView> {
    match v {
        Some(YamlView::Sequence(items)) => items,
        _ => Seq::empty(),
    }
}

pub open spec fn is_list(v: Option<YamlView>) -> bool {
    v matches Some(YamlView::Sequence(_))
}

pub open spec fn is_mapping(v: Option<YamlView>) -> bool {
    v matches Some(YamlView::Mapping(_))
}

pub fn yaml_is_mapping(v: Option<&Yaml>) -> (r: bool)
    ensures
        r == is_mapping(yaml::opt_contents(v)),
{
    match v {
        Some(Yaml::Mapping(_)) => true,
        _ => false,
    }
}

/// Whether the lists of a mapping are added to those before, `merge_mode: append`,
/// and do not take their place.
pub open spec fn appends(v: Option<YamlView>) -> bool {
    yaml::text_of(yaml::field(v, "merge_mode"@)) == Some("append"@)
}

fn yaml_appends(v: Option<&Yaml>) -> (r: bool)
    ensures
        r == appends(yaml::opt_contents(v)),
{
    match yaml_string(get_field(v, "merge_mode")) {
        Some(s) => same_text(s, "append"),
        None => false,
    }
}

/// A list after another.
pub open spec fn listed<T>(before: Seq<T>, new: Seq<T>, append: bool) -> Seq<T> {
    if append {
        before + new
    } else {
        new
    }
}

fn put_list<T: DeepView>(list: &mut Vec<T>, new: Vec<T>, append: bool)
    ensures
        views::all_views(final(list)@) == listed(views::all_views(old(list)@), views::all_views(new@), append),
{
    let mut more = new;
    if append {
        list.append(&mut more);
        assert(views::all_views(list@) =~= views::all_views(old(list)@) + views::all_views(new@));
    } else {
        *list = more;
    }
}

// ---------------------------------------------------------------------------
// smf, manual_smf
// ---------------------------------------------------------------------------
#[verifier::opaque]
pub open spec fn merged_smf(c: SmfMapConfigView, v: Option<YamlView>) -> SmfMapConfigView {
    let allocation = yaml::field(v, "channel_allocation"@);
    SmfMapConfigView {
        smf_ppq: events::either(yaml::u16_of(yaml::field(v, "ppq"@)), c.smf_ppq),
        smf_type: match yaml::u16_of(yaml::field(v, "type"@)) {
            Some(t) => text::min_int(t as int, 1) as u16,
            None => c.smf_type,
        },
        program_numbering: or_keep(
            numbering_of(yaml::field(v, "program_numbering"@)),
            c.program_numbering,
        ),
        channel_numbering: or_keep(
            numbering_of(yaml::field(v, "channel_numbering"@)),
            c.channel_numbering,
        ),
        channel_overflow: events::either(
            overflow_policy_of(
                events::either(yaml::field(allocation, "overflow_policy"@), yaml::field(allocation, "policy"@)),
            ),
            c.channel_overflow,
        ),
        rhythm_channel: or_keep(
            at_most(yaml::u8_of(yaml::field(allocation, "rhythm_channel_zero_based"@)), 15),
            c.rhythm_channel,
        ),
        ..c
    }
}

#[verifier::rlimit(40)]
fn merge_smf(c: &mut SmfMapConfig, v: Option<&Yaml>)
    ensures
        final(c).deep_view() == merged_smf(old(c).deep_view(), yaml::opt_contents(v)),
{
    proof {
        reveal(merged_smf);
    }
    c.smf_ppq = first(yaml_u16(get_field(v, "ppq")), c.smf_ppq);
    let smf_type: Option<u16> = match yaml_u16(get_field(v, "type")) {
        Some(t) => if t <= 1 {
            Some(t)
        } else {
            Some(1)
        },
        None => None,
    };
    c.smf_type = keep(smf_type, c.smf_type);
    c.program_numbering = keep(
        yaml_numbering(get_field(v, "program_numbering")),
        c.program_numbering,
    );
    c.channel_numbering = keep(
        yaml_numbering(get_field(v, "channel_numbering")),
        c.channel_numbering,
    );
    let allocation = get_field(v, "channel_allocation");
    let policy = match get_field(allocation, "overflow_policy") {
        Some(p) => Some(p),
        None => get_field(allocation, "policy"),
    };
    c.channel_overflow = first(yaml_overflow_policy(policy), c.channel_overflow);
    c.rhythm_channel = keep(
        yaml_u8_at_most(get_field(allocation, "rhythm_channel_zero_based"), 15),
        c.rhythm_channel,
    );
}

/// Whether a request with an unknown command is an error: `error` or `warn`.
pub open spec fn unknown_policy_of(v: Option<YamlView>) -> Option<bool> {
    match yaml::text_of(v) {
        Some(s) => if s == "error"@ {
            Some(true)
        } else if s == "warn"@ {
            Some(false)
        } else {
            None
        },
        None => None,
    }
}

fn yaml_unknown_policy(v: Option<&Yaml>) -> (r: Option<bool>)
    ensures
        r == unknown_policy_of(yaml::opt_contents(v)),
{
    match yaml_string(v) {
        Some(s) => if same_text(s, "error") {
            Some(true)
        } else if same_text(s, "warn") {
            Some(false)
        } else {
            None
        },
        None => None,
    }
}

#[verifier::opaque]
pub open spec fn merged_manual_smf(c: SmfMapConfigView, v: Option<YamlView>) -> SmfMapConfigView {
    SmfMapConfigView {
        manual_smf_enabled: or_keep(yaml::bool_of(yaml::field(v, "enabled"@)), c.manual_smf_enabled),
        unknown_requests_fail: or_keep(
            unknown_policy_of(yaml::field(v, "unknown_command_policy"@)),
            c.unknown_requests_fail,
        ),
        ..c
    }
}

fn merge_manual_smf(c: &mut SmfMapConfig, v: Option<&Yaml>)
    ensures
        final(c).deep_view() == merged_manual_smf(old(c).deep_view(), yaml::opt_contents(v)),
{
    proof {
        reveal(merged_manual_smf);
    }
    c.manual_smf_enabled = keep(yaml_bool(get_field(v, "enabled")), c.manual_smf_enabled);
    c.unknown_requests_fail = keep(
        yaml_unknown_policy(get_field(v, "unknown_command_policy")),
        c.unknown_requests_fail,
    );
}

// ---------------------------------------------------------------------------
// tracks
// ---------------------------------------------------------------------------
impl TrackMapConfigView {
    /// A track without settings.
    pub open spec fn unset() -> Self {
        TrackMapConfigView {
            family: None,
            render_role: None,
            drum_map: None,
            midi_channel: None,
            midi_port: None,
            events: Seq::empty(),
        }
    }

    /// With the settings of a mapping.
    pub open spec fn merged(self, v: Option<YamlView>, programs: Numbering) -> Self {
        TrackMapConfigView {
            family: events::either(
                events::either(family_of(yaml::field(v, "source_family"@)), family_of(yaml::field(v, "family"@))),
                self.family,
            ),
            render_role: events::either(render_role_of(yaml::field(v, "render_role"@)), self.render_role),
            drum_map: events::either(yaml::text_of(yaml::field(v, "drum_map"@)), self.drum_map),
            midi_channel: events::either(yaml::u8_of(yaml::field(v, "midi_channel"@)), self.midi_channel),
            midi_port: events::either(yaml::u8_of(yaml::field(v, "midi_port"@)), self.midi_port),
            events: match events::list_requests(yaml::field(v, "events"@), programs) {
                Some(e) => listed(self.events, e, appends(v)),
                None => self.events,
            },
        }
    }
}

impl Default for TrackMapConfig {
    fn default() -> (r: Self)
        ensures
            r.deep_view() == TrackMapConfigView::unset(),
    {
        let r = TrackMapConfig {
            family: None,
            render_role: None,
            drum_map: None,
            midi_channel: None,
            midi_port: None,
            events: Vec::new(),
        };
        assert(views::all_views(r.events@) =~= Seq::empty());
        r
    }
}

impl Clone for TrackMapConfig {
    fn clone(&self) -> (r: Self)
        ensures
            r.deep_view() == self.deep_view(),
    {
        TrackMapConfig {
            family: self.family,
            render_role: self.render_role,
            drum_map: copy_opt(&self.drum_map),
            midi_channel: self.midi_channel,
            midi_port: self.midi_port,
            events: copy_requests(&self.events),
        }
    }
}

fn merge_track(t: &mut TrackMapConfig, v: Option<&Yaml>, programs: Numbering)
    ensures
        final(t).deep_view() == old(t).deep_view().merged(yaml::opt_contents(v), programs),
{
    let family = match yaml_family(get_field(v, "source_family")) {
        Some(f) => Some(f),
        None => yaml_family(get_field(v, "family")),
    };
    t.family = first(family, t.family);
    t.render_role = first(yaml_render_role(get_field(v, "render_role")), t.render_role);
    match yaml_string(get_field(v, "drum_map")) {
        Some(s) => {
            t.drum_map = Some(copy_text(s));
        },
        None => {},
    }
    t.midi_channel = first(yaml_u8(get_field(v, "midi_channel")), t.midi_channel);
    t.midi_port = first(yaml_u8(get_field(v, "midi_port")), t.midi_port);
    match parse_events(get_field(v, "events"), programs) {
        Some(e) => {
            put_list(&mut t.events, e, yaml_appends(v));
        },
        None => {},
    }
}

/// The tracks after the first `n` entries.
pub open spec fn merged_tracks(
    tracks: Map<Seq<char>, TrackMapConfigView>,
    entries: Seq<(YamlView, YamlView)>,
    n: int,
    programs: Numbering,
) -> Map<Seq<char>, TrackMapConfigView>
    decreases n,
{
    if n <= 0 || n > entries.len() {
        tracks
    } else {
        let before = merged_tracks(tracks, entries, n - 1, programs);
        let item = Some(entries[n - 1].1);
        match yaml::key_text(entries[n - 1].0) {
            Some(id) => if is_mapping(item) {
                let old = if before.contains_key(id) {
                    before[id]
                } else {
                    TrackMapConfigView::unset()
                };
                before.insert(id, old.merged(item, programs))
            } else {
                before
            },
            None => before,
        }
    }
}

fn merge_tracks(tracks: &mut NameMap<TrackMapConfig>, v: Option<&Yaml>, programs: Numbering)
    ensures
        final(tracks).deep_view() == merged_tracks(
            old(tracks).deep_view(),
            entries_of(yaml::opt_contents(v)),
            entries_of(yaml::opt_contents(v)).len() as int,
            programs,
        ),
{
    let ghost entries = entries_of(yaml::opt_contents(v));
    let ghost base = tracks.deep_view();
    let n = yaml_entry_count(v);
    let mut i: usize = 0;
    while i < n
        invariant
            i <= n == entries.len(),
            entries == entries_of(yaml::opt_contents(v)),
            base == old(tracks).deep_view(),
            tracks.deep_view() == merged_tracks(base, entries, i as int, programs),
        decreases n - i,
    {
        match yaml_entry(v, i) {
            Some((key, item)) => {
                match yaml_key_string(key) {
                    Some(id) => {
                        if yaml_is_mapping(Some(item)) {
                            let mut t = match tracks.get(id) {
                                Some(t) => t.clone(),
                                None => TrackMapConfig::default(),
                            };
                            merge_track(&mut t, Some(item), programs);
                            tracks.insert(copy_text(id), t);
                        }
                    },
                    None => {},
                }
            },
            None => {},
        }
        i += 1;
    }
}

// ---------------------------------------------------------------------------
// psg_envelope_map, psg_noise_map, envelope_map
// ---------------------------------------------------------------------------
#[verifier::opaque]
pub open spec fn merged_psg_envelope_map(c: SmfMapConfigView, v: Option<YamlView>) ->
    SmfMapConfigView {
    SmfMapConfigView {
        psg_envelope_map_enabled: or_keep(
            yaml::bool_of(yaml::field(v, "enabled"@)),
            c.psg_envelope_map_enabled,
        ),
        psg_expression_cc: or_keep(
            at_most(yaml::u8_of(yaml::field(yaml::field(v, "default"@), "expression_cc"@)), 127),
            c.psg_expression_cc,
        ),
        ..c
    }
}

fn merge_psg_envelope_map(c: &mut SmfMapConfig, v: Option<&Yaml>)
    ensures
        final(c).deep_view() == merged_psg_envelope_map(old(c).deep_view(), yaml::opt_contents(v)),
{
    proof {
        reveal(merged_psg_envelope_map);
    }
    c.psg_envelope_map_enabled = keep(
        yaml_bool(get_field(v, "enabled")),
        c.psg_envelope_map_enabled,
    );
    c.psg_expression_cc = keep(
        yaml_u8_at_most(get_field(get_field(v, "default"), "expression_cc"), 127),
        c.psg_expression_cc,
    );
}

/// The drum that a mapping describes.
pub open spec fn noise_drum_entry(v: Option<YamlView>) -> PsgNoiseDrumEntryView {
    PsgNoiseDrumEntryView {
        name: yaml::text_of(yaml::field(v, "name"@)),
        note: or_keep(at_most(yaml::u8_of(yaml::field(v, "note"@)), 127), 35),
        velocity: match yaml::u8_of(yaml::field(v, "velocity"@)) {
            Some(n) => Some(text::clamp_int(n as int, 1, 127) as u8),
            None => None,
        },
        velocity_from_envelope_peak: or_keep(
            yaml::bool_of(yaml::field(v, "velocity_from_envelope_peak"@)),
            true,
        ),
    }
}

/// The drums after the first `n` entries.
pub open spec fn merged_noise_drums(
    drums: Map<u8, PsgNoiseDrumEntryView>,
    entries: Seq<(YamlView, YamlView)>,
    n: int,
) -> Map<u8, PsgNoiseDrumEntryView>
    decreases n,
{
    if n <= 0 || n > entries.len() {
        drums
    } else {
        let before = merged_noise_drums(drums, entries, n - 1);
        let item = Some(entries[n - 1].1);
        match byte_key(entries[n - 1].0) {
            Some(id) => if is_mapping(item) {
                before.insert(id, noise_drum_entry(item))
            } else {
                before
            },
            None => before,
        }
    }
}

#[verifier::opaque]
pub open spec fn merged_psg_noise_map(c: SmfMapConfigView, v: Option<YamlView>) ->
    SmfMapConfigView {
    let drums = yaml::field(v, "drum_map"@);
    let entries = entries_of(yaml::field(drums, "envelopes"@));
    SmfMapConfigView {
        psg_noise_enabled: or_keep(yaml::bool_of(yaml::field(v, "enabled"@)), c.psg_noise_enabled),
        psg_noise_default_action: or_keep(
            noise_action_of(yaml::field(v, "default_action"@)),
            c.psg_noise_default_action,
        ),
        psg_noise_drum_map_enabled: or_keep(
            yaml::bool_of(yaml::field(drums, "enabled"@)),
            c.psg_noise_drum_map_enabled,
        ),
        psg_noise_drum_channel: match yaml::u8_of(yaml::field(drums, "channel"@)) {
            Some(n) => text::min_int(c.channel_numbering.base_zero(n) as int, 15) as u8,
            None => c.psg_noise_drum_channel,
        },
        psg_noise_drums: merged_noise_drums(c.psg_noise_drums, entries, entries.len() as int),
        ..c
    }
}

fn read_noise_drum(v: Option<&Yaml>) -> (r: PsgNoiseDrumEntry)
    ensures
        r.deep_view() == noise_drum_entry(yaml::opt_contents(v)),
{
    let note: u8 = match yaml_u8_at_most(get_field(v, "note"), 127) {
        Some(n) => n,
        None => 35,
    };
    let velocity: Option<u8> = match yaml_u8(get_field(v, "velocity")) {
        Some(n) => Some(clamp_i64(n as i64, 1, 127) as u8),
        None => None,
    };
    let peak = match yaml_bool(get_field(v, "velocity_from_envelope_peak")) {
        Some(b) => b,
        None => true,
    };
    let name = match yaml_string(get_field(v, "name")) {
        Some(s) => Some(copy_text(s)),
        None => None,
    };
    PsgNoiseDrumEntry { name, note, velocity, velocity_from_envelope_peak: peak }
}

fn merge_noise_drums(drums: &mut BTreeMap<u8, PsgNoiseDrumEntry>, v: Option<&Yaml>)
    ensures
        views::map_views(final(drums)@) == merged_noise_drums(
            views::map_views(old(drums)@),
            entries_of(yaml::opt_contents(v)),
            entries_of(yaml::opt_contents(v)).len() as int,
        ),
{
    let ghost entries = entries_of(yaml::opt_contents(v));
    let ghost base = views::map_views(drums@);
    let n = yaml_entry_count(v);
    let mut i: usize = 0;
    while i < n
        invariant
            i <= n == entries.len(),
            entries == entries_of(yaml::opt_contents(v)),
            base == views::map_views(old(drums)@),
            views::map_views(drums@) == merged_noise_drums(base, entries, i as int),
        decreases n - i,
    {
        match yaml_entry(v, i) {
            Some((key, item)) => {
                match yaml_byte_key(key) {
                    Some(id) => {
                        if yaml_is_mapping(Some(item)) {
                            let d = read_noise_drum(Some(item));
                            proof {
                                views::map_views_insert(drums@, id, d);
                            }
                            drums.insert(id, d);
                        }
                    },
                    None => {},
                }
            },
            None => {},
        }
        i += 1;
    }
}

#[verifier::rlimit(40)]
fn merge_psg_noise_map(c: &mut SmfMapConfig, v: Option<&Yaml>)
    ensures
        final(c).deep_view() == merged_psg_noise_map(old(c).deep_view(), yaml::opt_contents(v)),
{
    proof {
        reveal(merged_psg_noise_map);
    }
    c.psg_noise_enabled = keep(yaml_bool(get_field(v, "enabled")), c.psg_noise_enabled);
    c.psg_noise_default_action = keep(
        yaml_noise_action(get_field(v, "default_action")),
        c.psg_noise_default_action,
    );
    let drums = get_field(v, "drum_map");
    c.psg_noise_drum_map_enabled = keep(
        yaml_bool(get_field(drums, "enabled")),
        c.psg_noise_drum_map_enabled,
    );
    let channel: Option<u8> = match yaml_u8(get_field(drums, "channel")) {
        Some(n) => {
            let zero_based = c.channel_numbering.normalize(n);
            if zero_based <= 15 {
                Some(zero_based)
            } else {
                Some(15)
            }
        },
        None => None,
    };
    c.psg_noise_drum_channel = keep(channel, c.psg_noise_drum_channel);
    merge_noise_drums(&mut c.psg_noise_drums, get_field(drums, "envelopes"));
}

#[verifier::opaque]
pub open spec fn merged_envelope_map(c: SmfMapConfigView, v: Option<YamlView>) -> SmfMapConfigView {
    let cc = yaml::field(v, "midi_cc"@);
    let families = yaml::field(v, "families"@);
    SmfMapConfigView {
        envelope_map_enabled: or_keep(yaml::bool_of(yaml::field(v, "enabled"@)), c.envelope_map_enabled),
        envelope_mode: events::either(envelope_mode_of(yaml::field(v, "default_mode"@)), c.envelope_mode),
        envelope_expression_cc: or_keep(
            at_most(yaml::u8_of(yaml::field(cc, "expression"@)), 127),
            c.envelope_expression_cc,
        ),
        envelope_volume_cc: or_keep(
            at_most(yaml::u8_of(yaml::field(cc, "volume"@)), 127),
            c.envelope_volume_cc,
        ),
        envelope_scc_enabled: or_keep(
            yaml::bool_of(yaml::field(yaml::field(families, "scc"@), "enabled"@)),
            c.envelope_scc_enabled,
        ),
        envelope_opll_enabled: or_keep(
            yaml::bool_of(yaml::field(yaml::field(families, "opll"@), "enabled"@)),
            c.envelope_opll_enabled,
        ),
        ..c
    }
}

fn merge_envelope_map(c: &mut SmfMapConfig, v: Option<&Yaml>)
    ensures
        final(c).deep_view() == merged_envelope_map(old(c).deep_view(), yaml::opt_contents(v)),
{
    proof {
        reveal(merged_envelope_map);
    }
    c.envelope_map_enabled = keep(yaml_bool(get_field(v, "enabled")), c.envelope_map_enabled);
    c.envelope_mode = first(yaml_envelope_mode(get_field(v, "default_mode")), c.envelope_mode);
    let cc = get_field(v, "midi_cc");
    c.envelope_expression_cc = keep(
        yaml_u8_at_most(get_field(cc, "expression"), 127),
        c.envelope_expression_cc,
    );
    c.envelope_volume_cc = keep(
        yaml_u8_at_most(get_field(cc, "volume"), 127),
        c.envelope_volume_cc,
    );
    let families = get_field(v, "families");
    c.envelope_scc_enabled = keep(
        yaml_bool(get_field(get_field(families, "scc"), "enabled")),
        c.envelope_scc_enabled,
    );
    c.envelope_opll_enabled = keep(
        yaml_bool(get_field(get_field(families, "opll"), "enabled")),
        c.envelope_opll_enabled,
    );
}

// ---------------------------------------------------------------------------
// tone_map
// ---------------------------------------------------------------------------
impl ToneMapEntryView {
    pub open spec fn unset() -> Self {
        ToneMapEntryView { name: None, events: Seq::empty() }
    }

    /// With the settings of a mapping: its list of events, or else the events
    /// that stand in it directly.
    pub open spec fn merged(self, v: YamlView, programs: Numbering) -> Self {
        let direct = events::mapping_requests(v, programs);
        ToneMapEntryView {
            name: events::either(yaml::text_of(yaml::field(Some(v), "name"@)), self.name),
            events: match events::list_requests(yaml::field(Some(v), "events"@), programs) {
                Some(e) => listed(self.events, e, appends(Some(v))),
                None => if direct.len() > 0 {
                    direct
                } else {
                    self.events
                },
            },
        }
    }
}

fn merge_tone(old: Option<&ToneMapEntry>, v: &Yaml, programs: Numbering) -> (r: ToneMapEntry)
    ensures
        r.deep_view() == (match old.deep_view() {
            Some(e) => e,
            None => ToneMapEntryView::unset(),
        }).merged(v.contents(), programs),
{
    let name = match yaml_string(get_field(Some(v), "name")) {
        Some(s) => Some(copy_text(s)),
        None => match old {
            Some(e) => copy_opt(&e.name),
            None => None,
        },
    };
    let mut events: Vec<SmfRequest> = match old {
        Some(e) => copy_requests(&e.events),
        None => {
            let none: Vec<SmfRequest> = Vec::new();
            assert(views::all_views(none@) =~= Seq::empty());
            none
        },
    };
    match parse_events(get_field(Some(v), "events"), programs) {
        Some(e) => {
            put_list(&mut events, e, yaml_appends(Some(v)));
        },
        None => {
            let direct = parse_direct_events(v, programs);
            if direct.len() > 0 {
                events = direct;
            }
        },
    }
    ToneMapEntry { name, events }
}

/// The tones after the first `n` entries; a family that was switched off comes
/// back with its first new tone.
pub open spec fn merged_tones(
    tones: Option<Map<u8, ToneMapEntryView>>,
    entries: Seq<(YamlView, YamlView)>,
    n: int,
    programs: Numbering,
) -> Option<Map<u8, ToneMapEntryView>>
    decreases n,
{
    if n <= 0 || n > entries.len() {
        tones
    } else {
        let before = merged_tones(tones, entries, n - 1, programs);
        match byte_key(entries[n - 1].0) {
            Some(id) => {
                let map = match before {
                    Some(m) => m,
                    None => Map::empty(),
                };
                let old = if map.contains_key(id) {
                    map[id]
                } else {
                    ToneMapEntryView::unset()
                };
                Some(map.insert(id, old.merged(entries[n - 1].1, programs)))
            },
            None => before,
        }
    }
}

/// The tones of a family after its section.
pub open spec fn merged_family_tones(
    tones: Option<Map<u8, ToneMapEntryView>>,
    v: Option<YamlView>,
    programs: Numbering,
) -> Option<Map<u8, ToneMapEntryView>> {
    if yaml::bool_of(yaml::field(v, "enabled"@)) == Some(false) {
        None
    } else {
        let entries = entries_of(yaml::field(v, "tones"@));
        merged_tones(tones, entries, entries.len() as int, programs)
    }
}

#[verifier::opaque]
pub open spec fn merged_tone_map(c: SmfMapConfigView, v: Option<YamlView>) -> SmfMapConfigView {
    let opll = yaml::field(v, "opll"@);
    SmfMapConfigView {
        tone_map: ToneMapView {
            scc: merged_family_tones(c.tone_map.scc, yaml::field(v, "scc"@), c.program_numbering),
            opll: merged_family_tones(c.tone_map.opll, opll, c.program_numbering),
        },
        opll_respect_at_hash_rom_assign: if yaml::bool_of(yaml::field(opll, "enabled"@)) == Some(false) {
            c.opll_respect_at_hash_rom_assign
        } else {
            or_keep(
                yaml::bool_of(yaml::field(opll, "respect_at_hash_rom_assign"@)),
                c.opll_respect_at_hash_rom_assign,
            )
        },
        ..c
    }
}

fn merge_family_tones(
    tones: Option<BTreeMap<u8, ToneMapEntry>>,
    v: Option<&Yaml>,
    programs: Numbering,
) -> (r: Option<BTreeMap<u8, ToneMapEntry>>)
    ensures
        smfmap::tones_view(r) == merged_family_tones(smfmap::tones_view(tones), yaml::opt_contents(v), programs),
{
    if let Some(false) = yaml_bool(get_field(v, "enabled")) {
        return None;
    }
    let list = get_field(v, "tones");
    let ghost entries = entries_of(yaml::opt_contents(list));
    let ghost base = smfmap::tones_view(tones);
    let n = yaml_entry_count(list);
    let mut out = tones;
    let mut i: usize = 0;
    while i < n
        invariant
            i <= n == entries.len(),
            entries == entries_of(yaml::opt_contents(list)),
            smfmap::tones_view(out) == merged_tones(base, entries, i as int, programs),
        decreases n - i,
    {
        match yaml_entry(list, i) {
            Some((key, item)) => {
                match yaml_byte_key(key) {
                    Some(id) => {
                        let mut map = match out {
                            Some(m) => m,
                            None => {
                                let m: BTreeMap<u8, ToneMapEntry> = BTreeMap::new();
                                assert(views::map_views(m@) =~= Map::empty());
                                m
                            },
                        };
                        let e = merge_tone(map.get(&id), item, programs);
                        proof {
                            views::map_views_insert(map@, id, e);
                        }
                        map.insert(id, e);
                        out = Some(map);
                    },
                    None => {},
                }
            },
            None => {},
        }
        i += 1;
    }
    out
}

fn merge_tone_map(c: &mut SmfMapConfig, v: Option<&Yaml>)
    ensures
        final(c).deep_view() == merged_tone_map(old(c).deep_view(), yaml::opt_contents(v)),
{
    proof {
        reveal(merged_tone_map);
    }
    let programs = c.program_numbering;
    let scc = c.tone_map.scc.take();
    c.tone_map.scc = merge_family_tones(scc, get_field(v, "scc"), programs);
    let section = get_field(v, "opll");
    let opll = c.tone_map.opll.take();
    c.tone_map.opll = merge_family_tones(opll, section, programs);
    let on = match yaml_bool(get_field(section, "enabled")) {
        Some(b) => b,
        None => true,
    };
    let respect: Option<bool> = if on {
        yaml_bool(get_field(section, "respect_at_hash_rom_assign"))
    } else {
        None
    };
    c.opll_respect_at_hash_rom_assign = keep(respect, c.opll_respect_at_hash_rom_assign);
}

// ---------------------------------------------------------------------------
// Tests in rules
// ---------------------------------------------------------------------------
/// The texts among the first `n` items of a list.
pub open spec fn texts_in(items: Seq<YamlView>, n: int) -> Seq<Seq<char>>
    decreases n,
{
    if n <= 0 || n > items.len() {
        Seq::empty()
    } else {
        match yaml::text_of(Some(items[n - 1])) {
            Some(s) => texts_in(items, n - 1).push(s),
            None => texts_in(items, n - 1),
        }
    }
}

/// The bytes among the first `n` items of a list.
pub open spec fn bytes_in(items: Seq<YamlView>, n: int) -> Seq<u8>
    decreases n,
{
    if n <= 0 || n > items.len() {
        Seq::empty()
    } else {
        match yaml::u8_of(Some(items[n - 1])) {
            Some(b) => bytes_in(items, n - 1).push(b),
            None => bytes_in(items, n - 1),
        }
    }
}

/// A test on a text: one text, a list of texts, or, for `*` and anything else,
/// any text.
pub open spec fn string_matcher_of(v: Option<YamlView>) -> StringMatcherView {
    match v {
        Some(YamlView::Text(s)) => if s == "*"@ {
            StringMatcherView::Any
        } else {
            StringMatcherView::One(s)
        },
        Some(YamlView::Sequence(items)) => {
            let texts = texts_in(items, items.len() as int);
            if texts.len() == 0 {
                StringMatcherView::Any
            } else {
                StringMatcherView::Many(texts)
            }
        },
        _ => StringMatcherView::Any,
    }
}

fn read_string_matcher(v: Option<&Yaml>) -> (r: StringMatcher)
    ensures
        r.deep_view() == string_matcher_of(yaml::opt_contents(v)),
{
    match v {
        Some(Yaml::Text(s)) => if same_text(s.as_str(), "*") {
            StringMatcher::Any
        } else {
            StringMatcher::One(copy_text(s.as_str()))
        },
        Some(Yaml::Sequence(items)) => {
            let ghost all = v->0.contents()->Sequence_0;
            let mut out: Vec<String> = Vec::new();
            let mut i: usize = 0;
            assert(views::all_views(out@) =~= Seq::empty());
            while i < items.len()
                invariant
                    i <= items@.len(),
                    all.len() == items@.len(),
                    yaml::opt_contents(v) == Some(YamlView::Sequence(all)),
                    forall|k: int|
                        0 <= k < items@.len() ==> #[trigger] all[k] == items@[k].contents(),
                    views::all_views(out@) == texts_in(all, i as int),
                decreases items@.len() - i,
            {
                assert(all[i as int] == items@[i as int].contents());
                match yaml_string(Some(&items[i])) {
                    Some(s) => {
                        push_viewed(&mut out, copy_text(s));
                    },
                    None => {},
                }
                i += 1;
            }
            if out.len() == 0 {
                StringMatcher::Any
            } else {
                StringMatcher::Many(out)
            }
        },
        _ => StringMatcher::Any,
    }
}

/// The position of the first two full stops from `pos` on.
pub open spec fn find_dots(s: Seq<char>, pos: int) -> Option<int>
    decreases s.len() - pos,
{
    if pos < 0 || pos + 1 >= s.len() {
        None
    } else if s[pos] == '.' && s[pos + 1] == '.' {
        Some(pos)
    } else {
        find_dots(s, pos + 1)
    }
}

/// A byte as a text in one of the bases.
pub open spec fn scalar_byte(s: Seq<char>) -> Option<u8> {
    match yaml::within(smf::smf_number(s), 255) {
        Some(n) => Some(n as u8),
        None => None,
    }
}

/// A range between two bytes, whichever is given first.
pub open spec fn range_between(a: Seq<char>, b: Seq<char>) -> Option<U8MatcherView> {
    match (scalar_byte(text::trim(a)), scalar_byte(text::trim(b))) {
        (Some(x), Some(y)) => Some(
            U8MatcherView::Range {
                min: if x <= y {
                    x
                } else {
                    y
                },
                max: if x <= y {
                    y
                } else {
                    x
                },
            },
        ),
        _ => None,
    }
}

/// A range: two bytes with `..` or `-` between them.
pub open spec fn range_of(s: Seq<char>) -> Option<U8MatcherView> {
    match find_dots(s, 0) {
        Some(p) => range_between(s.take(p), s.skip(p + 2)),
        None => match text::find_from(s, 0, '-') {
            Some(p) => range_between(s.take(p), s.skip(p + 1)),
            None => None,
        },
    }
}

/// An end of a range that a mapping gives: the byte under a key, or where the key
/// is missing the end of all bytes.
pub open spec fn range_end(v: Option<YamlView>, key: Seq<char>, otherwise: u8) -> Option<u8> {
    match yaml::field(v, key) {
        Some(end) => yaml::u8_of(Some(end)),
        None => Some(otherwise),
    }
}

/// A range as a mapping of `min` and `max`; what gives neither, or no byte, is no
/// range.
pub open spec fn mapped_range(v: Option<YamlView>) -> Option<U8MatcherView> {
    if yaml::field(v, "min"@) is None && yaml::field(v, "max"@) is None {
        None
    } else {
        match (range_end(v, "min"@, 0), range_end(v, "max"@, 255)) {
            (Some(min), Some(max)) => Some(U8MatcherView::Range { min, max }),
            _ => None,
        }
    }
}

/// A test on a byte: one byte, a range, a list, or, for `*` and anything else,
/// any byte.
pub open spec fn u8_matcher_of(v: Option<YamlView>) -> U8MatcherView {
    match v {
        Some(YamlView::Text(s)) => if s == "*"@ {
            U8MatcherView::Any
        } else {
            match range_of(s) {
                Some(r) => r,
                None => match scalar_byte(s) {
                    Some(b) => U8MatcherView::One(b),
                    None => U8MatcherView::Any,
                },
            }
        },
        Some(YamlView::Number { .. }) => match yaml::u8_of(v) {
            Some(b) => U8MatcherView::One(b),
            None => U8MatcherView::Any,
        },
        Some(YamlView::Sequence(items)) => {
            let bytes = bytes_in(items, items.len() as int);
            if bytes.len() == 0 {
                U8MatcherView::Any
            } else {
                U8MatcherView::Many(bytes)
            }
        },
        Some(YamlView::Mapping(_)) => match mapped_range(v) {
            Some(r) => r,
            None => U8MatcherView::Any,
        },
        _ => U8MatcherView::Any,
    }
}

fn find_two_dots(s: &[char]) -> (r: Option<usize>)
    ensures
        text::opt_pos(r) == find_dots(s@, 0),
        r matches Some(p) ==> p + 1 < s@.len(),
{
    let mut p: usize = 0;
    let len = s.len();
    if len == 0 {
        return None;
    }
    while p < len - 1
        invariant
            p <= len - 1,
            len == s@.len(),
            len > 0,
            find_dots(s@, 0) == find_dots(s@, p as int),
        decreases len - p,
    {
        if s[p] == '.' && s[p + 1] == '.' {
            return Some(p);
        }
        p += 1;
    }
    None
}

fn parse_u8_scalar(s: &[char]) -> (r: Option<u8>)
    ensures
        r == scalar_byte(s@),
{
    match parse_smf_number(s) {
        Some(n) => if 0 <= n && n <= 255 {
            Some(n as u8)
        } else {
            None
        },
        None => None,
    }
}

fn read_range_between(a: &[char], b: &[char]) -> (r: Option<U8Matcher>)
    ensures
        r.deep_view() == range_between(a@, b@),
{
    match (parse_u8_scalar(trimmed(a)), parse_u8_scalar(trimmed(b))) {
        (Some(x), Some(y)) => if x <= y {
            Some(U8Matcher::Range { min: x, max: y })
        } else {
            Some(U8Matcher::Range { min: y, max: x })
        },
        _ => None,
    }
}

fn parse_range(s: &[char]) -> (r: Option<U8Matcher>)
    ensures
        r.deep_view() == range_of(s@),
{
    let len = s.len();
    match find_two_dots(s) {
        Some(p) => {
            assert(p + 1 < len);
            let head = slice_subrange(s, 0, p);
            assert(head@ =~= s@.take(p as int));
            read_range_between(head, after(s, p + 2))
        },
        None => match find_char(s, 0, '-') {
            Some(p) => {
                assert(p < len);
                let head = slice_subrange(s, 0, p);
                assert(head@ =~= s@.take(p as int));
                read_range_between(head, after(s, p + 1))
            },
            None => None,
        },
    }
}

fn read_range_end(v: Option<&Yaml>, key: &str, otherwise: u8) -> (r: Option<u8>)
    ensures
        r == range_end(yaml::opt_contents(v), key@, otherwise),
{
    match get_field(v, key) {
        Some(end) => yaml_u8(Some(end)),
        None => Some(otherwise),
    }
}

fn read_mapped_range(v: Option<&Yaml>) -> (r: Option<U8Matcher>)
    ensures
        r.deep_view() == mapped_range(yaml::opt_contents(v)),
{
    if get_field(v, "min").is_none() && get_field(v, "max").is_none() {
        return None;
    }
    match (read_range_end(v, "min", 0), read_range_end(v, "max", 255)) {
        (Some(min), Some(max)) => Some(U8Matcher::Range { min, max }),
        _ => None,
    }
}

fn read_u8_matcher(v: Option<&Yaml>) -> (r: U8Matcher)
    ensures
        r.deep_view() == u8_matcher_of(yaml::opt_contents(v)),
{
    match v {
        Some(Yaml::Text(s)) => {
            if same_text(s.as_str(), "*") {
                return U8Matcher::Any;
            }
            let c = chars_of(s.as_str());
            match parse_range(&c) {
                Some(m) => m,
                None => match parse_u8_scalar(&c) {
                    Some(b) => U8Matcher::One(b),
                    None => U8Matcher::Any,
                },
            }
        },
        Some(Yaml::Number { .. }) => match yaml_u8(v) {
            Some(b) => U8Matcher::One(b),
            None => U8Matcher::Any,
        },
        Some(Yaml::Sequence(items)) => {
            let ghost all = v->0.contents()->Sequence_0;
            let mut out: Vec<u8> = Vec::new();
            let mut i: usize = 0;
            assert(out@ =~= Seq::empty());
            while i < items.len()
                invariant
                    i <= items@.len(),
                    all.len() == items@.len(),
                    yaml::opt_contents(v) == Some(YamlView::Sequence(all)),
                    forall|k: int|
                        0 <= k < items@.len() ==> #[trigger] all[k] == items@[k].contents(),
                    out@ == bytes_in(all, i as int),
                decreases items@.len() - i,
            {
                assert(all[i as int] == items@[i as int].contents());
                match yaml_u8(Some(&items[i])) {
                    Some(b) => {
                        out.push(b);
                    },
                    None => {},
                }
                i += 1;
            }
            if out.len() == 0 {
                U8Matcher::Any
            } else {
                U8Matcher::Many(out)
            }
        },
        Some(Yaml::Mapping(_)) => match read_mapped_range(v) {
            Some(m) => m,
            None => U8Matcher::Any,
        },
        _ => U8Matcher::Any,
    }
}

// ---------------------------------------------------------------------------
// opll_register_map
// ---------------------------------------------------------------------------
/// A register rule as a mapping describes it.
pub open spec fn register_rule_of(v: YamlView, programs: Numbering) -> RegisterRuleView {
    let m = yaml::field(Some(v), "match"@);
    let emission = events::emission_of(yaml::field(Some(v), "emit"@), programs);
    RegisterRuleView {
        name: or_keep(yaml::text_of(yaml::field(Some(v), "name"@)), "unnamed_register_rule"@),
        enabled: or_keep(yaml::bool_of(yaml::field(Some(v), "enabled"@)), false),
        matcher: RegisterRuleMatcherView {
            family: string_matcher_of(yaml::field(m, "family"@)),
            source_track: string_matcher_of(yaml::field(m, "source_track"@)),
            register: u8_matcher_of(yaml::field(m, "register"@)),
            data: u8_matcher_of(yaml::field(m, "data"@)),
            context: string_matcher_of(yaml::field(m, "context"@)),
        },
        emit: emission.requests,
        formulas: emission.formulas,
    }
}

/// The rules among the first `n` items of a list.
pub open spec fn register_rules_in(items: Seq<YamlView>, n: int, programs: Numbering) -> Seq<
    RegisterRuleView,
>
    decreases n,
{
    if n <= 0 || n > items.len() {
        Seq::empty()
    } else if is_mapping(Some(items[n - 1])) {
        register_rules_in(items, n - 1, programs).push(register_rule_of(items[n - 1], programs))
    } else {
        register_rules_in(items, n - 1, programs)
    }
}

#[verifier::opaque]
pub open spec fn merged_register_map(c: SmfMapConfigView, v: Option<YamlView>) -> SmfMapConfigView {
    let rules = yaml::field(v, "rules"@);
    if yaml::bool_of(yaml::field(v, "enabled"@)) == Some(false) {
        SmfMapConfigView { register_map_policy: RegisterMapPolicy::IgnoreSilently, ..c }
    } else {
        SmfMapConfigView {
            register_map_policy: or_keep(
                register_policy_of(yaml::field(v, "default_policy"@)),
                c.register_map_policy,
            ),
            register_rules: if is_list(rules) {
                listed(
                    c.register_rules,
                    register_rules_in(
                        items_of(rules),
                        items_of(rules).len() as int,
                        c.program_numbering,
                    ),
                    appends(v),
                )
            } else {
                c.register_rules
            },
            ..c
        }
    }
}

fn read_register_rule(v: &Yaml, programs: Numbering) -> (r: RegisterRule)
    ensures
        r.deep_view() == register_rule_of(v.contents(), programs),
{
    let name = match yaml_string(get_field(Some(v), "name")) {
        Some(s) => copy_text(s),
        None => copy_text("unnamed_register_rule"),
    };
    let enabled = keep(yaml_bool(get_field(Some(v), "enabled")), false);
    let m = get_field(Some(v), "match");
    let matcher = RegisterRuleMatcher {
        family: read_string_matcher(get_field(m, "family")),
        source_track: read_string_matcher(get_field(m, "source_track")),
        register: read_u8_matcher(get_field(m, "register")),
        data: read_u8_matcher(get_field(m, "data")),
        context: read_string_matcher(get_field(m, "context")),
    };
    let emission = parse_emission(get_field(Some(v), "emit"), programs);
    RegisterRule {
        name,
        enabled,
        matcher,
        emit: emission.requests,
        formulas: emission.formulas,
    }
}

fn read_register_rules(v: Option<&Yaml>, programs: Numbering) -> (r: Option<Vec<RegisterRule>>)
    ensures
        r is Some == is_list(yaml::opt_contents(v)),
        r matches Some(rules) ==> views::all_views(rules@) == register_rules_in(
            items_of(yaml::opt_contents(v)),
            items_of(yaml::opt_contents(v)).len() as int,
            programs,
        ),
{
    match v {
        Some(Yaml::Sequence(items)) => {
            let ghost all = v->0.contents()->Sequence_0;
            let mut out: Vec<RegisterRule> = Vec::new();
            let mut i: usize = 0;
            assert(views::all_views(out@) =~= Seq::empty());
            while i < items.len()
                invariant
                    i <= items@.len(),
                    all.len() == items@.len(),
                    yaml::opt_contents(v) == Some(YamlView::Sequence(all)),
                    forall|k: int|
                        0 <= k < items@.len() ==> #[trigger] all[k] == items@[k].contents(),
                    views::all_views(out@) == register_rules_in(all, i as int, programs),
                decreases items@.len() - i,
            {
                assert(all[i as int] == items@[i as int].contents());
                if yaml_is_mapping(Some(&items[i])) {
                    push_viewed(&mut out, read_register_rule(&items[i], programs));
                }
                i += 1;
            }
            Some(out)
        },
        _ => None,
    }
}

#[verifier::rlimit(60)]
fn merge_register_map(c: &mut SmfMapConfig, v: Option<&Yaml>)
    ensures
        final(c).deep_view() == merged_register_map(old(c).deep_view(), yaml::opt_contents(v)),
{
    proof {
        reveal(merged_register_map);
    }
    if let Some(false) = yaml_bool(get_field(v, "enabled")) {
        c.register_map_policy = RegisterMapPolicy::IgnoreSilently;
        return ;
    }
    c.register_map_policy =
    keep(yaml_register_policy(get_field(v, "default_policy")), c.register_map_policy);
    match read_register_rules(get_field(v, "rules"), c.program_numbering) {
        Some(rules) => {
            put_list(&mut c.register_rules, rules, yaml_appends(v));
        },
        None => {},
    }
}

// ---------------------------------------------------------------------------
// smf_macros
// ---------------------------------------------------------------------------
/// The requests of a macro: a list, or a mapping with a list of events.
pub open spec fn macro_requests(v: YamlView, programs: Numbering) -> Option<Seq<SmfRequestView>> {
    events::either(events::list_requests(yaml::field(Some(v), "events"@), programs), events::list_requests(Some(v), programs))
}

/// The macros with another.
pub open spec fn with_macro(
    macros: Map<Seq<char>, Seq<SmfRequestView>>,
    name: Seq<char>,
    events: Seq<SmfRequestView>,
    append: bool,
) -> Map<Seq<char>, Seq<SmfRequestView>> {
    let before = if macros.contains_key(name) {
        macros[name]
    } else {
        Seq::empty()
    };
    macros.insert(name, listed(before, events, append))
}

/// The macros and the depth limit after the first `n` entries.
pub open spec fn merged_macros(
    macros: Map<Seq<char>, Seq<SmfRequestView>>,
    depth: usize,
    entries: Seq<(YamlView, YamlView)>,
    n: int,
    programs: Numbering,
) -> (Map<Seq<char>, Seq<SmfRequestView>>, usize)
    decreases n,
{
    if n <= 0 || n > entries.len() {
        (macros, depth)
    } else {
        let (m, d) = merged_macros(macros, depth, entries, n - 1, programs);
        let item = entries[n - 1].1;
        match yaml::key_text(entries[n - 1].0) {
            Some(name) => if name == "max_depth"@ {
                match yaml::within(yaml::int_of(Some(item)), i32::MAX as int) {
                    Some(v) => (
                        m,
                        if v < 1 {
                            1
                        } else {
                            v as usize
                        },
                    ),
                    None => (m, d),
                }
            } else {
                match macro_requests(item, programs) {
                    Some(events) => (with_macro(m, name, events, appends(Some(item))), d),
                    None => (m, d),
                }
            },
            None => (m, d),
        }
    }
}

fn read_macro(v: &Yaml, programs: Numbering) -> (r: Option<Vec<SmfRequest>>)
    ensures
        events::opt_requests(r) == macro_requests(v.contents(), programs),
{
    match parse_events(get_field(Some(v), "events"), programs) {
        Some(e) => Some(e),
        None => parse_events(Some(v), programs),
    }
}

fn merge_macro(
    macros: &mut NameMap<SmfMacro>,
    depth: usize,
    name: &str,
    item: &Yaml,
    programs: Numbering,
) -> (r: usize)
    ensures
        (final(macros).deep_view(), r) == (if name@ == "max_depth"@ {
            match yaml::within(yaml::int_of(Some(item.contents())), i32::MAX as int) {
                Some(v) => (
                    old(macros).deep_view(),
                    if v < 1 {
                        1
                    } else {
                        v as usize
                    },
                ),
                None => (old(macros).deep_view(), depth),
            }
        } else {
            match macro_requests(item.contents(), programs) {
                Some(events) => (
                    with_macro(
                        old(macros).deep_view(),
                        name@,
                        events,
                        appends(Some(item.contents())),
                    ),
                    depth,
                ),
                None => (old(macros).deep_view(), depth),
            }
        }),
{
    if same_text(name, "max_depth") {
        match yaml_i32(Some(item)) {
            Some(d) => if d >= 1 {
                d as usize
            } else if d == 0 {
                1
            } else {
                depth
            },
            None => depth,
        }
    } else {
        match read_macro(item, programs) {
            Some(events) => {
                let mut list: Vec<SmfRequest> = match macros.get(name) {
                    Some(m) => copy_requests(&m.events),
                    None => {
                        let none: Vec<SmfRequest> = Vec::new();
                        assert(views::all_views(none@) =~= Seq::empty());
                        none
                    },
                };
                put_list(&mut list, events, yaml_appends(Some(item)));
                macros.insert(copy_text(name), SmfMacro { events: list });
            },
            None => {},
        }
        depth
    }
}

fn merge_macros(macros: &mut NameMap<SmfMacro>, depth: usize, v: Option<&Yaml>, programs: Numbering) ->
    (r: usize)
    ensures
        merged_macros(
            old(macros).deep_view(),
            depth,
            entries_of(yaml::opt_contents(v)),
            entries_of(yaml::opt_contents(v)).len() as int,
            programs,
        ) == (final(macros).deep_view(), r),
{
    let ghost entries = entries_of(yaml::opt_contents(v));
    let ghost base = macros.deep_view();
    let n = yaml_entry_count(v);
    let mut limit: usize = depth;
    let mut i: usize = 0;
    while i < n
        invariant
            i <= n == entries.len(),
            entries == entries_of(yaml::opt_contents(v)),
            base == old(macros).deep_view(),
            merged_macros(base, depth, entries, i as int, programs) == (macros.deep_view(), limit),
        decreases n - i,
    {
        match yaml_entry(v, i) {
            Some((key, item)) => {
                match yaml_key_string(key) {
                    Some(name) => {
                        limit = merge_macro(macros, limit, name, item, programs);
                    },
                    None => {},
                }
            },
            None => {},
        }
        i += 1;
    }
    limit
}

// ---------------------------------------------------------------------------
// opll_pseudo_drum_map
// ---------------------------------------------------------------------------
/// A single letter, in lower case.
pub open spec fn letter_of(v: Option<YamlView>) -> Option<char> {
    match yaml::text_of(v) {
        Some(s) => if s.len() == 1 {
            Some(text::lower(s[0]))
        } else {
            None
        },
        None => None,
    }
}

fn yaml_letter(v: Option<&Yaml>) -> (r: Option<char>)
    ensures
        r == letter_of(yaml::opt_contents(v)),
{
    match yaml_string(v) {
        Some(s) => {
            let c = chars_of(s);
            if c.len() == 1 {
                Some(char_lower(c[0]))
            } else {
                None
            }
        },
        None => None,
    }
}

/// The loudness of a drum: by name, or a fixed velocity.
pub open spec fn drum_velocity_of(v: Option<YamlView>) -> DrumVelocity {
    match yaml::u8_of(v) {
        Some(n) => DrumVelocity::Fixed(text::clamp_int(n as int, 1, 127) as u8),
        None => if yaml::text_of(v) == Some("source_or_tone"@) {
            DrumVelocity::SourceOrTone
        } else {
            DrumVelocity::SourceVolume
        },
    }
}

fn read_drum_velocity(v: Option<&Yaml>) -> (r: DrumVelocity)
    ensures
        r == drum_velocity_of(yaml::opt_contents(v)),
{
    match yaml_u8(v) {
        Some(n) => DrumVelocity::Fixed(clamp_i64(n as i64, 1, 127) as u8),
        None => match yaml_string(v) {
            Some(s) => if same_text(s, "source_or_tone") {
                DrumVelocity::SourceOrTone
            } else {
                DrumVelocity::SourceVolume
            },
            None => DrumVelocity::SourceVolume,
        },
    }
}

/// The tests of a drum rule.
pub open spec fn drum_matcher_of(m: Option<YamlView>) -> OpllPseudoDrumMatcherView {
    OpllPseudoDrumMatcherView {
        macro_symbol: letter_of(yaml::field(m, "macro_symbol"@)),
        source_track: string_matcher_of(events::either(yaml::field(m, "track"@), yaml::field(m, "source_track"@))),
        envelope: u8_matcher_of(yaml::field(m, "envelope"@)),
        source_tone: u8_matcher_of(yaml::field(m, "source_tone"@)),
        effective_tone: u8_matcher_of(
            events::either(yaml::field(m, "effective_tone"@), yaml::field(m, "effective_rom_tone"@)),
        ),
        note_name: letter_of(yaml::field(m, "note_name"@)),
        octave: match yaml::int_of(yaml::field(m, "octave"@)) {
            Some(n) => Some(n as i32),
            None => None,
        },
        source_midi_note: u8_matcher_of(yaml::field(m, "source_midi_note"@)),
    }
}

/// A drum rule; one that names no drum note is none.
pub open spec fn drum_rule_of(v: YamlView) -> Option<OpllPseudoDrumRuleView> {
    let drum = yaml::field(Some(v), "drum"@);
    match yaml::u8_of(yaml::field(drum, "note"@)) {
        Some(note) => Some(
            OpllPseudoDrumRuleView {
                name: yaml::text_of(yaml::field(Some(v), "name"@)),
                matcher: drum_matcher_of(yaml::field(Some(v), "match"@)),
                drum: DrumHit {
                    note: text::min_int(note as int, 127) as u8,
                    velocity: drum_velocity_of(yaml::field(drum, "velocity"@)),
                },
            },
        ),
        None => None,
    }
}

/// The drum rules among the first `n` items of a list.
pub open spec fn drum_rules_in(items: Seq<YamlView>, n: int) -> Seq<OpllPseudoDrumRuleView>
    decreases n,
{
    if n <= 0 || n > items.len() {
        Seq::empty()
    } else {
        match drum_rule_of(items[n - 1]) {
            Some(r) => drum_rules_in(items, n - 1).push(r),
            None => drum_rules_in(items, n - 1),
        }
    }
}

pub open spec fn merged_drum_output(o: DrumOutput, v: Option<YamlView>) -> DrumOutput {
    DrumOutput {
        midi_channel: events::either(yaml::u8_of(yaml::field(v, "midi_channel"@)), o.midi_channel),
        mode: or_keep(drum_mode_of(yaml::field(v, "mode"@)), o.mode),
        unmatched: or_keep(unmatched_policy_of(yaml::field(v, "unmatched"@)), o.unmatched),
        suppress_tone_map: or_keep(yaml::bool_of(yaml::field(v, "suppress_tone_map"@)), o.suppress_tone_map),
        suppress_program_change: or_keep(
            yaml::bool_of(yaml::field(v, "suppress_program_change"@)),
            o.suppress_program_change,
        ),
    }
}

/// The grouping of hits; a list of continuations sets which ones are suppressed.
pub open spec fn merged_hit_grouping(g: DrumHitGrouping, v: Option<YamlView>) -> DrumHitGrouping {
    let list = yaml::field(v, "suppress_continuations"@);
    let names = texts_in(items_of(list), items_of(list).len() as int);
    DrumHitGrouping {
        enabled: or_keep(yaml::bool_of(yaml::field(v, "enabled"@)), g.enabled),
        suppress_macro_continuation: if is_list(list) {
            names.contains("macro_continuation"@)
        } else {
            g.suppress_macro_continuation
        },
        suppress_slur_ampersand: if is_list(list) {
            names.contains("slur_ampersand"@)
        } else {
            g.suppress_slur_ampersand
        },
    }
}

impl OpllPseudoDrumMapView {
    pub open spec fn unset() -> Self {
        OpllPseudoDrumMapView {
            output: DrumOutput::initial(),
            hit_grouping: DrumHitGrouping {
                enabled: false,
                suppress_macro_continuation: false,
                suppress_slur_ampersand: false,
            },
            rules: Seq::empty(),
        }
    }

    pub open spec fn merged(self, v: Option<YamlView>) -> Self {
        let rules = yaml::field(v, "rules"@);
        OpllPseudoDrumMapView {
            output: merged_drum_output(self.output, yaml::field(v, "output"@)),
            hit_grouping: merged_hit_grouping(self.hit_grouping, yaml::field(v, "hit_grouping"@)),
            rules: if is_list(rules) {
                listed(
                    self.rules,
                    drum_rules_in(items_of(rules), items_of(rules).len() as int),
                    appends(v),
                )
            } else {
                self.rules
            },
        }
    }
}

fn read_drum_matcher(m: Option<&Yaml>) -> (r: OpllPseudoDrumMatcher)
    ensures
        r.deep_view() == drum_matcher_of(yaml::opt_contents(m)),
{
    let track = match get_field(m, "track") {
        Some(t) => Some(t),
        None => get_field(m, "source_track"),
    };
    let tone = match get_field(m, "effective_tone") {
        Some(t) => Some(t),
        None => get_field(m, "effective_rom_tone"),
    };
    OpllPseudoDrumMatcher {
        macro_symbol: yaml_letter(get_field(m, "macro_symbol")),
        source_track: read_string_matcher(track),
        envelope: read_u8_matcher(get_field(m, "envelope")),
        source_tone: read_u8_matcher(get_field(m, "source_tone")),
        effective_tone: read_u8_matcher(tone),
        note_name: yaml_letter(get_field(m, "note_name")),
        octave: yaml_i32(get_field(m, "octave")),
        source_midi_note: read_u8_matcher(get_field(m, "source_midi_note")),
    }
}

fn read_drum_rule(v: &Yaml) -> (r: Option<OpllPseudoDrumRule>)
    ensures
        r.deep_view() == drum_rule_of(v.contents()),
{
    let drum = get_field(Some(v), "drum");
    match yaml_u8_at_most(get_field(drum, "note"), 127) {
        Some(note) => Some(
            OpllPseudoDrumRule {
                name: match yaml_string(get_field(Some(v), "name")) {
                    Some(s) => Some(copy_text(s)),
                    None => None,
                },
                matcher: read_drum_matcher(get_field(Some(v), "match")),
                drum: DrumHit { note, velocity: read_drum_velocity(get_field(drum, "velocity")) },
            },
        ),
        None => None,
    }
}

fn read_drum_rules(v: Option<&Yaml>) -> (r: Option<Vec<OpllPseudoDrumRule>>)
    ensures
        r is Some == is_list(yaml::opt_contents(v)),
        r matches Some(rules) ==> views::all_views(rules@) == drum_rules_in(
            items_of(yaml::opt_contents(v)),
            items_of(yaml::opt_contents(v)).len() as int,
        ),
{
    match v {
        Some(Yaml::Sequence(items)) => {
            let ghost all = v->0.contents()->Sequence_0;
            let mut out: Vec<OpllPseudoDrumRule> = Vec::new();
            let mut i: usize = 0;
            assert(views::all_views(out@) =~= Seq::empty());
            while i < items.len()
                invariant
                    i <= items@.len(),
                    all.len() == items@.len(),
                    yaml::opt_contents(v) == Some(YamlView::Sequence(all)),
                    forall|k: int|
                        0 <= k < items@.len() ==> #[trigger] all[k] == items@[k].contents(),
                    views::all_views(out@) == drum_rules_in(all, i as int),
                decreases items@.len() - i,
            {
                assert(all[i as int] == items@[i as int].contents());
                match read_drum_rule(&items[i]) {
                    Some(rule) => {
                        push_viewed(&mut out, rule);
                    },
                    None => {},
                }
                i += 1;
            }
            Some(out)
        },
        _ => None,
    }
}

/// Whether a list names a continuation; nothing where there is no list.
fn read_continuation(v: Option<&Yaml>, name: &str) -> (r: Option<bool>)
    ensures
        r == (if is_list(yaml::opt_contents(v)) {
            Some(
                texts_in(items_of(yaml::opt_contents(v)), items_of(yaml::opt_contents(v)).len() as int).contains(
                    name@,
                ),
            )
        } else {
            None
        }),
{
    match v {
        Some(Yaml::Sequence(items)) => {
            let ghost all = v->0.contents()->Sequence_0;
            let mut found: bool = false;
            let mut i: usize = 0;
            while i < items.len()
                invariant
                    i <= items@.len(),
                    all.len() == items@.len(),
                    yaml::opt_contents(v) == Some(YamlView::Sequence(all)),
                    forall|k: int|
                        0 <= k < items@.len() ==> #[trigger] all[k] == items@[k].contents(),
                    found == texts_in(all, i as int).contains(name@),
                decreases items@.len() - i,
            {
                assert(all[i as int] == items@[i as int].contents());
                let ghost before = texts_in(all, i as int);
                match yaml_string(Some(&items[i])) {
                    Some(s) => {
                        if same_text(s, name) {
                            found = true;
                            assert(before.push(s@)[before.len() as int] == name@);
                        } else {
                            proof {
                                if before.contains(name@) {
                                    let k = choose|k: int|
                                        0 <= k < before.len() && before[k] == name@;
                                    assert(before.push(s@)[k] == name@);
                                }
                                if before.push(s@).contains(name@) {
                                    let k = choose|k: int|
                                        0 <= k < before.push(s@).len() && before.push(s@)[k]
                                            == name@;
                                    assert(before[k] == name@);
                                }
                            }
                        }
                    },
                    None => {},
                }
                i += 1;
            }
            Some(found)
        },
        _ => None,
    }
}

fn copy_string_matcher(m: &StringMatcher) -> (r: StringMatcher)
    ensures
        r.deep_view() == m.deep_view(),
{
    match m {
        StringMatcher::Any => StringMatcher::Any,
        StringMatcher::One(s) => StringMatcher::One(copy_text(s.as_str())),
        StringMatcher::Many(v) => {
            let mut out: Vec<String> = Vec::new();
            let mut i: usize = 0;
            while i < v.len()
                invariant
                    i <= v@.len(),
                    views::all_views(out@) == views::all_views(v@).take(i as int),
                decreases v@.len() - i,
            {
                push_viewed(&mut out, copy_text(v[i].as_str()));
                assert(views::all_views(v@).take(i + 1) =~= views::all_views(v@).take(i as int).push(
                    v@[i as int].deep_view(),
                ));
                i += 1;
            }
            assert(views::all_views(v@).take(v@.len() as int) =~= views::all_views(v@));
            StringMatcher::Many(out)
        },
    }
}

fn copy_u8_matcher(m: &U8Matcher) -> (r: U8Matcher)
    ensures
        r.deep_view() == m.deep_view(),
{
    match m {
        U8Matcher::Any => U8Matcher::Any,
        U8Matcher::One(n) => U8Matcher::One(*n),
        U8Matcher::Many(v) => {
            let mut out: Vec<u8> = Vec::new();
            let mut i: usize = 0;
            while i < v.len()
                invariant
                    i <= v@.len(),
                    out@ == v@.take(i as int),
                decreases v@.len() - i,
            {
                out.push(v[i]);
                assert(v@.take(i + 1) =~= v@.take(i as int).push(v@[i as int]));
                i += 1;
            }
            assert(v@.take(v@.len() as int) =~= v@);
            U8Matcher::Many(out)
        },
        U8Matcher::Range { min, max } => U8Matcher::Range { min: *min, max: *max },
    }
}

fn copy_drum_rule(rule: &OpllPseudoDrumRule) -> (r: OpllPseudoDrumRule)
    ensures
        r.deep_view() == rule.deep_view(),
{
    let m = &rule.matcher;
    OpllPseudoDrumRule {
        name: copy_opt(&rule.name),
        matcher: OpllPseudoDrumMatcher {
            macro_symbol: m.macro_symbol,
            source_track: copy_string_matcher(&m.source_track),
            envelope: copy_u8_matcher(&m.envelope),
            source_tone: copy_u8_matcher(&m.source_tone),
            effective_tone: copy_u8_matcher(&m.effective_tone),
            note_name: m.note_name,
            octave: m.octave,
            source_midi_note: copy_u8_matcher(&m.source_midi_note),
        },
        drum: rule.drum,
    }
}

impl Clone for OpllPseudoDrumMap {
    fn clone(&self) -> (r: Self)
        ensures
            r.deep_view() == self.deep_view(),
    {
        let mut rules: Vec<OpllPseudoDrumRule> = Vec::new();
        let ghost all = views::all_views(self.rules@);
        let mut i: usize = 0;
        while i < self.rules.len()
            invariant
                i <= self.rules@.len(),
                all == views::all_views(self.rules@),
                views::all_views(rules@) == all.take(i as int),
            decreases self.rules@.len() - i,
        {
            push_viewed(&mut rules, copy_drum_rule(&self.rules[i]));
            assert(all.take(i + 1) =~= all.take(i as int).push(self.rules@[i as int].deep_view()));
            i += 1;
        }
        assert(all.take(all.len() as int) =~= all);
        OpllPseudoDrumMap { output: self.output, hit_grouping: self.hit_grouping, rules }
    }
}

impl Default for OpllPseudoDrumMap {
    fn default() -> (r: Self)
        ensures
            r.deep_view() == OpllPseudoDrumMapView::unset(),
    {
        let r = OpllPseudoDrumMap {
            output: DrumOutput::default(),
            hit_grouping: DrumHitGrouping {
                enabled: false,
                suppress_macro_continuation: false,
                suppress_slur_ampersand: false,
            },
            rules: Vec::new(),
        };
        assert(views::all_views(r.rules@) =~= Seq::empty());
        r
    }
}

fn merge_drum_map(map: &mut OpllPseudoDrumMap, v: Option<&Yaml>)
    ensures
        final(map).deep_view() == old(map).deep_view().merged(yaml::opt_contents(v)),
{
    let o = get_field(v, "output");
    map.output =
    DrumOutput {
        midi_channel: first(yaml_u8(get_field(o, "midi_channel")), map.output.midi_channel),
        mode: keep(yaml_drum_mode(get_field(o, "mode")), map.output.mode),
        unmatched: keep(yaml_unmatched_policy(get_field(o, "unmatched")), map.output.unmatched),
        suppress_tone_map: keep(
            yaml_bool(get_field(o, "suppress_tone_map")),
            map.output.suppress_tone_map,
        ),
        suppress_program_change: keep(
            yaml_bool(get_field(o, "suppress_program_change")),
            map.output.suppress_program_change,
        ),
    };
    let g = get_field(v, "hit_grouping");
    let list = get_field(g, "suppress_continuations");
    map.hit_grouping =
    DrumHitGrouping {
        enabled: keep(yaml_bool(get_field(g, "enabled")), map.hit_grouping.enabled),
        suppress_macro_continuation: keep(
            read_continuation(list, "macro_continuation"),
            map.hit_grouping.suppress_macro_continuation,
        ),
        suppress_slur_ampersand: keep(
            read_continuation(list, "slur_ampersand"),
            map.hit_grouping.suppress_slur_ampersand,
        ),
    };
    match read_drum_rules(get_field(v, "rules")) {
        Some(rules) => {
            put_list(&mut map.rules, rules, yaml_appends(v));
        },
        None => {},
    }
}

/// The drum maps after the first `n` entries.
pub open spec fn merged_drum_maps(
    maps: Map<Seq<char>, OpllPseudoDrumMapView>,
    entries: Seq<(YamlView, YamlView)>,
    n: int,
) -> Map<Seq<char>, OpllPseudoDrumMapView>
    decreases n,
{
    if n <= 0 || n > entries.len() {
        maps
    } else {
        let before = merged_drum_maps(maps, entries, n - 1);
        let item = Some(entries[n - 1].1);
        match yaml::key_text(entries[n - 1].0) {
            Some(name) => if is_mapping(item) {
                let old = if before.contains_key(name) {
                    before[name]
                } else {
                    OpllPseudoDrumMapView::unset()
                };
                before.insert(name, old.merged(item))
            } else {
                before
            },
            None => before,
        }
    }
}

#[verifier::opaque]
pub open spec fn merged_pseudo_drums(c: SmfMapConfigView, v: Option<YamlView>) -> SmfMapConfigView {
    let entries = entries_of(yaml::field(v, "maps"@));
    SmfMapConfigView {
        opll_pseudo_drum_enabled: or_keep(
            yaml::bool_of(yaml::field(v, "enabled"@)),
            c.opll_pseudo_drum_enabled,
        ),
        opll_pseudo_drum_maps: merged_drum_maps(
            c.opll_pseudo_drum_maps,
            entries,
            entries.len() as int,
        ),
        ..c
    }
}

fn merge_drum_maps(maps: &mut NameMap<OpllPseudoDrumMap>, v: Option<&Yaml>)
    ensures
        final(maps).deep_view() == merged_drum_maps(
            old(maps).deep_view(),
            entries_of(yaml::opt_contents(v)),
            entries_of(yaml::opt_contents(v)).len() as int,
        ),
{
    let ghost entries = entries_of(yaml::opt_contents(v));
    let ghost base = maps.deep_view();
    let n = yaml_entry_count(v);
    let mut i: usize = 0;
    while i < n
        invariant
            i <= n == entries.len(),
            entries == entries_of(yaml::opt_contents(v)),
            base == old(maps).deep_view(),
            maps.deep_view() == merged_drum_maps(base, entries, i as int),
        decreases n - i,
    {
        match yaml_entry(v, i) {
            Some((key, item)) => {
                match yaml_key_string(key) {
                    Some(name) => {
                        if yaml_is_mapping(Some(item)) {
                            let mut map = match maps.get(name) {
                                Some(m) => m.clone(),
                                None => OpllPseudoDrumMap::default(),
                            };
                            merge_drum_map(&mut map, Some(item));
                            maps.insert(copy_text(name), map);
                        }
                    },
                    None => {},
                }
            },
            None => {},
        }
        i += 1;
    }
}

fn merge_pseudo_drums(c: &mut SmfMapConfig, v: Option<&Yaml>)
    ensures
        final(c).deep_view() == merged_pseudo_drums(old(c).deep_view(), yaml::opt_contents(v)),
{
    proof {
        reveal(merged_pseudo_drums);
    }
    c.opll_pseudo_drum_enabled =
    keep(yaml_bool(get_field(v, "enabled")), c.opll_pseudo_drum_enabled);
    merge_drum_maps(&mut c.opll_pseudo_drum_maps, get_field(v, "maps"));
}

// ---------------------------------------------------------------------------
// pitch_glide
// ---------------------------------------------------------------------------
#[verifier::opaque]
pub open spec fn merged_pitch_glide(g: PitchGlideConfig, v: Option<YamlView>) -> PitchGlideConfig {
    let curve = yaml::field(v, "curve"@);
    let reset = yaml::field(v, "reset"@);
    PitchGlideConfig {
        enabled: or_keep(yaml::bool_of(yaml::field(v, "enabled"@)), g.enabled),
        pitch_bend_range_semitones: or_keep(
            yaml::u8_of(yaml::field(v, "pitch_bend_range_semitones"@)),
            g.pitch_bend_range_semitones,
        ),
        pitch_bend_range_cents: or_keep(
            yaml::u8_of(yaml::field(v, "pitch_bend_range_cents"@)),
            g.pitch_bend_range_cents,
        ),
        emit_rpn_pitch_bend_range: or_keep(
            yaml::bool_of(yaml::field(v, "emit_rpn_pitch_bend_range"@)),
            g.emit_rpn_pitch_bend_range,
        ),
        emit_rpn_null_after_setting: or_keep(
            yaml::bool_of(yaml::field(v, "emit_rpn_null_after_setting"@)),
            g.emit_rpn_null_after_setting,
        ),
        curve: PitchGlideCurve {
            event_rate_hz: or_keep(yaml::u16_of(yaml::field(curve, "event_rate_hz"@)), g.curve.event_rate_hz),
            min_delta_cents: or_keep(
                yaml::u16_of(yaml::field(curve, "min_delta_cents"@)),
                g.curve.min_delta_cents,
            ),
            include_start_point: or_keep(
                yaml::bool_of(yaml::field(curve, "include_start_point"@)),
                g.curve.include_start_point,
            ),
            include_end_point: or_keep(
                yaml::bool_of(yaml::field(curve, "include_end_point"@)),
                g.curve.include_end_point,
            ),
        },
        reset: PitchGlideReset {
            at_note_end: or_keep(yaml::bool_of(yaml::field(reset, "at_note_end"@)), g.reset.at_note_end),
            before_next_note_on: or_keep(
                yaml::bool_of(yaml::field(reset, "before_next_note_on"@)),
                g.reset.before_next_note_on,
            ),
            at_track_end: or_keep(yaml::bool_of(yaml::field(reset, "at_track_end"@)), g.reset.at_track_end),
        },
        shared_channel_policy: or_keep(
            shared_policy_of(yaml::field(v, "shared_channel_policy"@)),
            g.shared_channel_policy,
        ),
        range_policy: or_keep(range_policy_of(yaml::field(v, "range_policy"@)), g.range_policy),
    }
}

fn merge_pitch_glide(g: PitchGlideConfig, v: Option<&Yaml>) -> (r: PitchGlideConfig)
    ensures
        r == merged_pitch_glide(g, yaml::opt_contents(v)),
{
    proof {
        reveal(merged_pitch_glide);
    }
    let curve = get_field(v, "curve");
    let reset = get_field(v, "reset");
    PitchGlideConfig {
        enabled: keep(yaml_bool(get_field(v, "enabled")), g.enabled),
        pitch_bend_range_semitones: keep(
            yaml_u8(get_field(v, "pitch_bend_range_semitones")),
            g.pitch_bend_range_semitones,
        ),
        pitch_bend_range_cents: keep(
            yaml_u8(get_field(v, "pitch_bend_range_cents")),
            g.pitch_bend_range_cents,
        ),
        emit_rpn_pitch_bend_range: keep(
            yaml_bool(get_field(v, "emit_rpn_pitch_bend_range")),
            g.emit_rpn_pitch_bend_range,
        ),
        emit_rpn_null_after_setting: keep(
            yaml_bool(get_field(v, "emit_rpn_null_after_setting")),
            g.emit_rpn_null_after_setting,
        ),
        curve: PitchGlideCurve {
            event_rate_hz: keep(yaml_u16(get_field(curve, "event_rate_hz")), g.curve.event_rate_hz),
            min_delta_cents: keep(
                yaml_u16(get_field(curve, "min_delta_cents")),
                g.curve.min_delta_cents,
            ),
            include_start_point: keep(
                yaml_bool(get_field(curve, "include_start_point")),
                g.curve.include_start_point,
            ),
            include_end_point: keep(
                yaml_bool(get_field(curve, "include_end_point")),
                g.curve.include_end_point,
            ),
        },
        reset: PitchGlideReset {
            at_note_end: keep(yaml_bool(get_field(reset, "at_note_end")), g.reset.at_note_end),
            before_next_note_on: keep(
                yaml_bool(get_field(reset, "before_next_note_on")),
                g.reset.before_next_note_on,
            ),
            at_track_end: keep(yaml_bool(get_field(reset, "at_track_end")), g.reset.at_track_end),
        },
        shared_channel_policy: keep(
            yaml_shared_policy(get_field(v, "shared_channel_policy")),
            g.shared_channel_policy,
        ),
        range_policy: keep(yaml_range_policy(get_field(v, "range_policy")), g.range_policy),
    }
}

// ---------------------------------------------------------------------------
// Whole files
// ---------------------------------------------------------------------------
#[verifier::opaque]
pub open spec fn merged_track_section(c: SmfMapConfigView, v: Option<YamlView>) -> SmfMapConfigView {
    let tracks = entries_of(v);
    SmfMapConfigView {
        tracks: merged_tracks(c.tracks, tracks, tracks.len() as int, c.program_numbering),
        ..c
    }
}

fn merge_track_section(c: &mut SmfMapConfig, v: Option<&Yaml>)
    ensures
        final(c).deep_view() == merged_track_section(old(c).deep_view(), yaml::opt_contents(v)),
{
    proof {
        reveal(merged_track_section);
    }
    merge_tracks(&mut c.tracks, v, c.program_numbering);
}

#[verifier::opaque]
pub open spec fn merged_macro_section(c: SmfMapConfigView, v: Option<YamlView>) -> SmfMapConfigView {
    let macros = entries_of(v);
    let (m, d) = merged_macros(
        c.macros,
        c.macro_max_depth,
        macros,
        macros.len() as int,
        c.program_numbering,
    );
    SmfMapConfigView { macros: m, macro_max_depth: d, ..c }
}

fn merge_macro_section(c: &mut SmfMapConfig, v: Option<&Yaml>)
    ensures
        final(c).deep_view() == merged_macro_section(old(c).deep_view(), yaml::opt_contents(v)),
{
    proof {
        reveal(merged_macro_section);
    }
    c.macro_max_depth = merge_macros(&mut c.macros, c.macro_max_depth, v, c.program_numbering);
}

#[verifier::opaque]
pub open spec fn merged_glide_section(c: SmfMapConfigView, v: Option<YamlView>) -> SmfMapConfigView {
    SmfMapConfigView { pitch_glide: merged_pitch_glide(c.pitch_glide, v), ..c }
}

fn merge_glide_section(c: &mut SmfMapConfig, v: Option<&Yaml>)
    ensures
        final(c).deep_view() == merged_glide_section(old(c).deep_view(), yaml::opt_contents(v)),
{
    proof {
        reveal(merged_glide_section);
    }
    c.pitch_glide = merge_pitch_glide(c.pitch_glide, v);
}

#[verifier::opaque]
pub open spec fn merged_detail_settings(c: SmfMapConfigView, v: Option<YamlView>) ->
    SmfMapConfigView {
    SmfMapConfigView { details: details::merged_details(c.details, v), ..c }
}

fn merge_detail_settings(c: &mut SmfMapConfig, v: Option<&Yaml>)
    ensures
        final(c).deep_view() == merged_detail_settings(old(c).deep_view(), yaml::opt_contents(v)),
{
    proof {
        reveal(merged_detail_settings);
    }
    c.details.merge(v);
}

/// The configuration after a document, section by section.
pub open spec fn merged_config(c: SmfMapConfigView, root: YamlView) -> SmfMapConfigView {
    let v = Some(root);
    let c1 = merged_smf(c, yaml::field(v, "smf"@));
    let c2 = merged_manual_smf(c1, yaml::field(v, "manual_smf"@));
    let c3 = merged_track_section(c2, yaml::field(v, "tracks"@));
    let c4 = merged_psg_envelope_map(c3, yaml::field(v, "psg_envelope_map"@));
    let c5 = merged_psg_noise_map(c4, yaml::field(v, "psg_noise_map"@));
    let c6 = merged_envelope_map(c5, yaml::field(v, "envelope_map"@));
    let c7 = merged_tone_map(c6, yaml::field(v, "tone_map"@));
    let c8 = merged_register_map(c7, yaml::field(v, "opll_register_map"@));
    let c9 = merged_macro_section(c8, yaml::field(v, "smf_macros"@));
    let c10 = merged_pseudo_drums(c9, yaml::field(v, "opll_pseudo_drum_map"@));
    let c11 = merged_glide_section(c10, yaml::field(v, "pitch_glide"@));
    merged_detail_settings(c11, v)
}

/// What the configuration is after the text of a file was read, or why it was
/// not.
pub open spec fn merge_outcome(c: SmfMapConfigView, document: Result<YamlView, Seq<char>>) -> (
    SmfMapConfigView,
    Result<(), Seq<char>>,
) {
    match document {
        Ok(root) => (merged_config(c, root), Ok(())),
        Err(e) => (c, Err(e)),
    }
}

impl SmfMapConfig {
    /// Takes over what a document sets.
    pub fn merge_yaml(&mut self, root: &Yaml)
        ensures
            final(self).deep_view() == merged_config(old(self).deep_view(), root.contents()),
    {
        let v = Some(root);
        merge_smf(self, get_field(v, "smf"));
        merge_manual_smf(self, get_field(v, "manual_smf"));
        merge_track_section(self, get_field(v, "tracks"));
        merge_psg_envelope_map(self, get_field(v, "psg_envelope_map"));
        merge_psg_noise_map(self, get_field(v, "psg_noise_map"));
        merge_envelope_map(self, get_field(v, "envelope_map"));
        merge_tone_map(self, get_field(v, "tone_map"));
        merge_register_map(self, get_field(v, "opll_register_map"));
        merge_macro_section(self, get_field(v, "smf_macros"));
        merge_pseudo_drums(self, get_field(v, "opll_pseudo_drum_map"));
        merge_glide_section(self, get_field(v, "pitch_glide"));
        merge_detail_settings(self, v);
    }

    /// Takes over what the text of a configuration file sets. A text that is no
    /// YAML document changes nothing.
    pub fn merge_yaml_str(&mut self, text: &str) -> (r: Result<(), String>)
        ensures
            merge_outcome(old(self).deep_view(), yaml::yaml_document(text@)) == (
                final(self).deep_view(),
                match r {
                    Ok(_) => Ok::<(), Seq<char>>(()),
                    Err(e) => Err(e@),
                },
            ),
    {
        match read_document(text) {
            Ok(root) => {
                self.merge_yaml(&root);
                Ok(())
            },
            Err(e) => Err(e),
        }
    }
}

// ---------------------------------------------------------------------------
// Laws
// ---------------------------------------------------------------------------
proof fn empty_file_sections_change_nothing(c: SmfMapConfigView)
    ensures
        merged_smf(c, None) == c,
        merged_manual_smf(c, None) == c,
{
    reveal(merged_smf);
    reveal(merged_manual_smf);
}

proof fn empty_envelope_sections_change_nothing(c: SmfMapConfigView)
    ensures
        merged_psg_envelope_map(c, None) == c,
        merged_envelope_map(c, None) == c,
{
    reveal(merged_psg_envelope_map);
    reveal(merged_envelope_map);
}

#[verifier::rlimit(40)]
proof fn no_glide_settings_change_nothing(g: PitchGlideConfig)
    ensures
        merged_pitch_glide(g, None) == g,
{
    reveal(merged_pitch_glide);
    assert(merged_pitch_glide(g, None).curve == g.curve);
    assert(merged_pitch_glide(g, None).reset == g.reset);
}

proof fn empty_glide_section_changes_nothing(c: SmfMapConfigView)
    ensures
        merged_glide_section(c, None) == c,
{
    no_glide_settings_change_nothing(c.pitch_glide);
    reveal(merged_glide_section);
}

proof fn empty_lists_change_nothing(c: SmfMapConfigView)
    ensures
        merged_psg_noise_map(c, None) == c,
        merged_tone_map(c, None) == c,
        merged_register_map(c, None) == c,
        merged_pseudo_drums(c, None) == c,
        merged_track_section(c, None) == c,
        merged_macro_section(c, None) == c,
{
    reveal(merged_track_section);
    reveal(merged_macro_section);
    reveal(merged_psg_noise_map);
    reveal(merged_tone_map);
    reveal(merged_register_map);
    reveal(merged_pseudo_drums);
}

proof fn no_details_change_nothing(c: SmfMapConfigView, root: YamlView)
    requires
        !(root is Mapping) || root == YamlView::Mapping(Seq::empty()),
    ensures
        merged_detail_settings(c, Some(root)) == c,
{
    reveal(merged_detail_settings);
    assert forall|key: Seq<char>| #[trigger] yaml::field(Some(root), key) is None by {
        if let YamlView::Mapping(entries) = root {
            assert(entries.len() == 0);
        }
    }
    details::no_settings_change_no_details(c.details, Some(root));
}

/// A document that sets nothing changes nothing.
pub proof fn empty_document_changes_nothing(c: SmfMapConfigView, root: YamlView)
    requires
        !(root is Mapping) || root == YamlView::Mapping(Seq::empty()),
    ensures
        merged_config(c, root) == c,
{
    empty_file_sections_change_nothing(c);
    empty_envelope_sections_change_nothing(c);
    empty_glide_section_changes_nothing(c);
    no_details_change_nothing(c, root);
    empty_lists_change_nothing(c);
}

/// The rules of a later document take the place of those before, or, where it
/// says so, are added behind them.
pub proof fn lists_are_replaced_or_extended(c: SmfMapConfigView, v: Option<YamlView>)
    requires
        is_list(yaml::field(v, "rules"@)),
        yaml::bool_of(yaml::field(v, "enabled"@)) != Some(false),
    ensures
        ({
            let rules = items_of(yaml::field(v, "rules"@));
            let new = register_rules_in(rules, rules.len() as int, c.program_numbering);
            merged_register_map(c, v).register_rules == if appends(v) {
                c.register_rules + new
            } else {
                new
            }
        }),
{
    reveal(merged_register_map);
}

/// A range tests for the bytes between its ends, both of them in it.
pub proof fn ranges_test_for_their_bytes(v: YamlView, min: u8, max: u8, value: u8)
    requires
        v is Mapping,
        yaml::u8_of(yaml::field(Some(v), "min"@)) == Some(min),
        yaml::u8_of(yaml::field(Some(v), "max"@)) == Some(max),
    ensures
        u8_matcher_of(Some(v)).accepts(value) <==> min <= value <= max,
{
}

/// What a later document sets counts, whatever earlier ones set; what it does not
/// set stays as they left it.
pub proof fn later_settings_count(c: SmfMapConfigView, root: YamlView)
    ensures
        ({
            let v = Some(root);
            let smf = yaml::field(v, "smf"@);
            let noise = yaml::field(v, "psg_noise_map"@);
            let glide = yaml::field(v, "pitch_glide"@);
            let r = merged_config(c, root);
            &&& r.smf_ppq == events::either(yaml::u16_of(yaml::field(smf, "ppq"@)), c.smf_ppq)
            &&& r.program_numbering == or_keep(
                numbering_of(yaml::field(smf, "program_numbering"@)),
                c.program_numbering,
            )
            &&& r.channel_numbering == or_keep(
                numbering_of(yaml::field(smf, "channel_numbering"@)),
                c.channel_numbering,
            )
            &&& r.manual_smf_enabled == or_keep(
                yaml::bool_of(yaml::field(yaml::field(v, "manual_smf"@), "enabled"@)),
                c.manual_smf_enabled,
            )
            &&& r.psg_envelope_map_enabled == or_keep(
                yaml::bool_of(yaml::field(yaml::field(v, "psg_envelope_map"@), "enabled"@)),
                c.psg_envelope_map_enabled,
            )
            &&& r.psg_noise_enabled == or_keep(
                yaml::bool_of(yaml::field(noise, "enabled"@)),
                c.psg_noise_enabled,
            )
            &&& r.psg_noise_drum_map_enabled == or_keep(
                yaml::bool_of(yaml::field(yaml::field(noise, "drum_map"@), "enabled"@)),
                c.psg_noise_drum_map_enabled,
            )
            &&& r.envelope_mode == events::either(
                envelope_mode_of(yaml::field(yaml::field(v, "envelope_map"@), "default_mode"@)),
                c.envelope_mode,
            )
            &&& r.opll_pseudo_drum_enabled == or_keep(
                yaml::bool_of(yaml::field(yaml::field(v, "opll_pseudo_drum_map"@), "enabled"@)),
                c.opll_pseudo_drum_enabled,
            )
            &&& r.pitch_glide.enabled == or_keep(
                yaml::bool_of(yaml::field(glide, "enabled"@)),
                c.pitch_glide.enabled,
            )
        }),
{
    reveal(merged_detail_settings);
    reveal(merged_track_section);
    reveal(merged_macro_section);
    reveal(merged_glide_section);
    reveal(merged_smf);
    reveal(merged_manual_smf);
    reveal(merged_psg_envelope_map);
    reveal(merged_psg_noise_map);
    reveal(merged_envelope_map);
    reveal(merged_tone_map);
    reveal(merged_register_map);
    reveal(merged_pseudo_drums);
    reveal(merged_pitch_glide);
}

} // verus!
