//! What a configuration takes over from the sections of a document.

use vstd::prelude::*;

use crate::ir;
use crate::ir::{SmfRequestView, SourceFamily};
use crate::smfmap::{
    DrumHitGrouping, DrumOutput, Numbering, PitchGlideConfig, SmfMapConfigView, ToneMapEntryView,
    TrackMapConfigView,
};
use crate::smfmap::events;
use crate::smfmap::merge;
use crate::smfmap::stated;
use crate::yaml;
use crate::yaml::YamlView;

verus! {

/// A truth value under a key.
pub open spec fn says(v: YamlView, key: Seq<char>, on: bool) -> bool {
    stated::has_field(v, key, YamlView::Bool(on))
}

/// A number under a key.
pub open spec fn counts(v: YamlView, key: Seq<char>, n: int) -> bool {
    exists|x: YamlView| #[trigger] stated::has_field(v, key, x) && stated::is_number(x, n)
}

/// A word under a key.
pub open spec fn reads(v: YamlView, key: Seq<char>, word: Seq<char>) -> bool {
    stated::has_field(v, key, YamlView::Text(word))
}

proof fn said(v: YamlView, key: Seq<char>, on: bool)
    ensures
        says(v, key, on) ==> yaml::bool_of(yaml::field(Some(v), key)) == Some(on),
{
    if says(v, key, on) {
        stated::fields_are_found(v, key, YamlView::Bool(on));
    }
}

proof fn counted_up(v: YamlView, key: Seq<char>, n: int)
    ensures
        counts(v, key, n) && 0 <= n <= 255 ==> yaml::u8_of(yaml::field(Some(v), key)) == Some(n as u8),
        counts(v, key, n) && 0 <= n <= 65535 ==> yaml::u16_of(yaml::field(Some(v), key)) == Some(n as u16),
{
    if counts(v, key, n) {
        let x = choose|x: YamlView| #[trigger] stated::has_field(v, key, x) && stated::is_number(x, n);
        stated::fields_are_found(v, key, x);
        stated::numbers_count(x, n, 0);
    }
}

proof fn worded(v: YamlView, key: Seq<char>, word: Seq<char>)
    ensures
        reads(v, key, word) ==> yaml::text_of(yaml::field(Some(v), key)) == Some(word),
{
    if reads(v, key, word) {
        stated::fields_are_found(v, key, YamlView::Text(word));
    }
}

// ---------------------------------------------------------------------------
// The file
// ---------------------------------------------------------------------------
/// The section of the file sets the ticks of a quarter note and the type of the
/// file; the channel of the drums stands in its own part.
pub proof fn file_settings_are_taken(
    c: SmfMapConfigView,
    v: YamlView,
    allocation: YamlView,
    n: int,
)
    ensures
        counts(v, "ppq"@, n) && 0 <= n <= 65535 ==> merge::merged_smf(c, Some(v)).smf_ppq == Some(n as u16),
        counts(v, "type"@, n) && 0 <= n <= 1 ==> merge::merged_smf(c, Some(v)).smf_type == n,
        stated::has_field(v, "channel_allocation"@, allocation) && counts(
            allocation,
            "rhythm_channel_zero_based"@,
            n,
        ) && 0 <= n <= 15 ==> merge::merged_smf(c, Some(v)).rhythm_channel == n,
{
    reveal(merge::merged_smf);
    counted_up(v, "ppq"@, n);
    counted_up(v, "type"@, n);
    counted_up(allocation, "rhythm_channel_zero_based"@, n);
    if stated::has_field(v, "channel_allocation"@, allocation) {
        stated::fields_are_found(v, "channel_allocation"@, allocation);
    }
}

// ---------------------------------------------------------------------------
// Envelopes and noise
// ---------------------------------------------------------------------------
/// Envelopes are sent to the controllers that their sections name, and switched
/// by family.
pub proof fn envelope_settings_are_taken(
    c: SmfMapConfigView,
    v: YamlView,
    part: YamlView,
    inner: YamlView,
    n: int,
    on: bool,
)
    requires
        0 <= n <= 127,
    ensures
        says(v, "enabled"@, on) ==> merge::merged_psg_envelope_map(c, Some(v)).psg_envelope_map_enabled
            == on && merge::merged_envelope_map(c, Some(v)).envelope_map_enabled == on,
        stated::has_field(v, "default"@, part) && counts(part, "expression_cc"@, n)
            ==> merge::merged_psg_envelope_map(c, Some(v)).psg_expression_cc == n,
        stated::has_field(v, "midi_cc"@, part) && counts(part, "expression"@, n) ==> merge::merged_envelope_map(
            c,
            Some(v),
        ).envelope_expression_cc == n,
        stated::has_field(v, "midi_cc"@, part) && counts(part, "volume"@, n) ==> merge::merged_envelope_map(
            c,
            Some(v),
        ).envelope_volume_cc == n,
        stated::has_field(v, "families"@, part) && stated::has_field(part, "scc"@, inner) && says(
            inner,
            "enabled"@,
            on,
        ) ==> merge::merged_envelope_map(c, Some(v)).envelope_scc_enabled == on,
        stated::has_field(v, "families"@, part) && stated::has_field(part, "opll"@, inner) && says(
            inner,
            "enabled"@,
            on,
        ) ==> merge::merged_envelope_map(c, Some(v)).envelope_opll_enabled == on,
{
    reveal(merge::merged_psg_envelope_map);
    reveal(merge::merged_envelope_map);
    said(v, "enabled"@, on);
    counted_up(part, "expression_cc"@, n);
    counted_up(part, "expression"@, n);
    counted_up(part, "volume"@, n);
    said(inner, "enabled"@, on);
    if stated::has_field(v, "default"@, part) {
        stated::fields_are_found(v, "default"@, part);
    }
    if stated::has_field(v, "midi_cc"@, part) {
        stated::fields_are_found(v, "midi_cc"@, part);
    }
    if stated::has_field(v, "families"@, part) {
        stated::fields_are_found(v, "families"@, part);
    }
    if stated::has_field(part, "scc"@, inner) {
        stated::fields_are_found(part, "scc"@, inner);
    }
    if stated::has_field(part, "opll"@, inner) {
        stated::fields_are_found(part, "opll"@, inner);
    }
}

/// The drums of noise are switched in their own part, which also names their
/// channel, counted as channels are.
pub proof fn noise_settings_are_taken(
    c: SmfMapConfigView,
    v: YamlView,
    drums: YamlView,
    n: int,
    on: bool,
)
    requires
        stated::has_field(v, "drum_map"@, drums),
    ensures
        says(v, "enabled"@, on) ==> merge::merged_psg_noise_map(c, Some(v)).psg_noise_enabled == on,
        says(drums, "enabled"@, on) ==> merge::merged_psg_noise_map(
            c,
            Some(v),
        ).psg_noise_drum_map_enabled == on,
        counts(drums, "channel"@, n) && c.channel_numbering == Numbering::ZeroBased && 0 <= n <= 15
            ==> merge::merged_psg_noise_map(c, Some(v)).psg_noise_drum_channel == n,
        counts(drums, "channel"@, n) && c.channel_numbering == Numbering::OneBased && 1 <= n <= 16
            ==> merge::merged_psg_noise_map(c, Some(v)).psg_noise_drum_channel == n - 1,
{
    reveal(merge::merged_psg_noise_map);
    stated::fields_are_found(v, "drum_map"@, drums);
    said(v, "enabled"@, on);
    said(drums, "enabled"@, on);
    counted_up(drums, "channel"@, n);
}

// ---------------------------------------------------------------------------
// Glides
// ---------------------------------------------------------------------------
/// The range of the bend wheel and how it is told.
pub proof fn range_settings_are_taken(g: PitchGlideConfig, v: YamlView, n: int, on: bool)
    requires
        0 <= n <= 255,
    ensures
        says(v, "enabled"@, on) ==> merge::merged_pitch_glide(g, Some(v)).enabled == on,
        counts(v, "pitch_bend_range_semitones"@, n) ==> merge::merged_pitch_glide(
            g,
            Some(v),
        ).pitch_bend_range_semitones == n,
        counts(v, "pitch_bend_range_cents"@, n) ==> merge::merged_pitch_glide(
            g,
            Some(v),
        ).pitch_bend_range_cents == n,
        says(v, "emit_rpn_pitch_bend_range"@, on) ==> merge::merged_pitch_glide(
            g,
            Some(v),
        ).emit_rpn_pitch_bend_range == on,
        says(v, "emit_rpn_null_after_setting"@, on) ==> merge::merged_pitch_glide(
            g,
            Some(v),
        ).emit_rpn_null_after_setting == on,
{
    reveal(merge::merged_pitch_glide);
    said(v, "enabled"@, on);
    counted_up(v, "pitch_bend_range_semitones"@, n);
    counted_up(v, "pitch_bend_range_cents"@, n);
    said(v, "emit_rpn_pitch_bend_range"@, on);
    said(v, "emit_rpn_null_after_setting"@, on);
}

/// How densely a glide is drawn, and when the wheel is set back.
pub proof fn curve_settings_are_taken(
    g: PitchGlideConfig,
    v: YamlView,
    part: YamlView,
    n: int,
    on: bool,
)
    requires
        0 <= n <= 65535,
    ensures
        ({
            let r = merge::merged_pitch_glide(g, Some(v));
            &&& stated::has_field(v, "curve"@, part) && counts(part, "event_rate_hz"@, n)
                ==> r.curve.event_rate_hz == n
            &&& stated::has_field(v, "curve"@, part) && counts(part, "min_delta_cents"@, n)
                ==> r.curve.min_delta_cents == n
            &&& stated::has_field(v, "curve"@, part) && says(part, "include_start_point"@, on)
                ==> r.curve.include_start_point == on
            &&& stated::has_field(v, "curve"@, part) && says(part, "include_end_point"@, on)
                ==> r.curve.include_end_point == on
            &&& stated::has_field(v, "reset"@, part) && says(part, "at_note_end"@, on)
                ==> r.reset.at_note_end == on
            &&& stated::has_field(v, "reset"@, part) && says(part, "before_next_note_on"@, on)
                ==> r.reset.before_next_note_on == on
            &&& stated::has_field(v, "reset"@, part) && says(part, "at_track_end"@, on)
                ==> r.reset.at_track_end == on
        }),
{
    reveal(merge::merged_pitch_glide);
    counted_up(part, "event_rate_hz"@, n);
    counted_up(part, "min_delta_cents"@, n);
    said(part, "include_start_point"@, on);
    said(part, "include_end_point"@, on);
    said(part, "at_note_end"@, on);
    said(part, "before_next_note_on"@, on);
    said(part, "at_track_end"@, on);
    if stated::has_field(v, "curve"@, part) {
        stated::fields_are_found(v, "curve"@, part);
    }
    if stated::has_field(v, "reset"@, part) {
        stated::fields_are_found(v, "reset"@, part);
    }
}

// ---------------------------------------------------------------------------
// Drums and tracks
// ---------------------------------------------------------------------------
/// Where the drums of a map go, what they leave out, and which notes belong to
/// one hit.
pub proof fn drum_settings_are_taken(
    o: DrumOutput,
    g: DrumHitGrouping,
    v: YamlView,
    n: int,
    on: bool,
)
    requires
        0 <= n <= 255,
    ensures
        counts(v, "midi_channel"@, n) ==> merge::merged_drum_output(o, Some(v)).midi_channel == Some(
            n as u8,
        ),
        says(v, "suppress_tone_map"@, on) ==> merge::merged_drum_output(o, Some(v)).suppress_tone_map
            == on,
        says(v, "suppress_program_change"@, on) ==> merge::merged_drum_output(
            o,
            Some(v),
        ).suppress_program_change == on,
        says(v, "enabled"@, on) ==> merge::merged_hit_grouping(g, Some(v)).enabled == on,
{
    counted_up(v, "midi_channel"@, n);
    said(v, "suppress_tone_map"@, on);
    said(v, "suppress_program_change"@, on);
    said(v, "enabled"@, on);
}

/// A track has the channel, the port, the family and the drum map that are stated
/// for it; what is not stated stays.
pub proof fn track_settings_are_taken(
    t: TrackMapConfigView,
    v: YamlView,
    programs: Numbering,
    n: int,
    name: Seq<char>,
    family: SourceFamily,
)
    requires
        0 <= n <= 255,
    ensures
        counts(v, "midi_channel"@, n) ==> t.merged(Some(v), programs).midi_channel == Some(n as u8),
        counts(v, "midi_port"@, n) ==> t.merged(Some(v), programs).midi_port == Some(n as u8),
        reads(v, "drum_map"@, name) ==> t.merged(Some(v), programs).drum_map == Some(name),
        reads(v, "source_family"@, family.name()) ==> t.merged(Some(v), programs).family == Some(
            family,
        ),
        yaml::field(Some(v), "midi_channel"@) is None ==> t.merged(Some(v), programs).midi_channel
            == t.midi_channel,
        yaml::field(Some(v), "drum_map"@) is None ==> t.merged(Some(v), programs).drum_map == t.drum_map,
{
    counted_up(v, "midi_channel"@, n);
    counted_up(v, "midi_port"@, n);
    worded(v, "drum_map"@, name);
    worded(v, "source_family"@, family.name());
    ir::family_name_round_trip(family);
}

/// A tone has the events of its last entry that states any, and a family that was
/// switched off has no tones.
pub proof fn tone_settings_are_taken(
    tones: Map<u8, ToneMapEntryView>,
    entries: Seq<(YamlView, YamlView)>,
    n: int,
    programs: Numbering,
    id: u8,
    list: YamlView,
    events: Seq<SmfRequestView>,
    v: YamlView,
)
    requires
        0 < n <= entries.len(),
        merge::byte_key(entries[n - 1].0) == Some(id),
        stated::has_field(entries[n - 1].1, "events"@, list),
        events::list_requests(Some(list), programs) == Some(events),
        !merge::appends(Some(entries[n - 1].1)),
        says(v, "enabled"@, false),
    ensures
        merge::merged_tones(Some(tones), entries, n, programs) matches Some(r) && r.contains_key(id)
            && r[id].events == events,
        merge::merged_family_tones(Some(tones), Some(v), programs) is None,
{
    stated::fields_are_found(entries[n - 1].1, "events"@, list);
    said(v, "enabled"@, false);
}

/// A macro is what its last entry states, or, where that is asked for, what it was
/// with that behind it; `max_depth` says how deep macros may call each other.
pub proof fn macro_settings_are_taken(
    macros: Map<Seq<char>, Seq<SmfRequestView>>,
    depth: usize,
    entries: Seq<(YamlView, YamlView)>,
    n: int,
    programs: Numbering,
    name: Seq<char>,
    events: Seq<SmfRequestView>,
    d: int,
)
    requires
        0 < n <= entries.len(),
        entries[n - 1].0 == YamlView::Text(name),
    ensures
        name != "max_depth"@ && merge::macro_requests(entries[n - 1].1, programs) == Some(events)
            && !merge::appends(Some(entries[n - 1].1)) ==> merge::merged_macros(
            macros,
            depth,
            entries,
            n,
            programs,
        ).0.contains_key(name) && merge::merged_macros(macros, depth, entries, n, programs).0[name]
            == events,
        name == "max_depth"@ && stated::is_number(entries[n - 1].1, d) && 1 <= d <= 0x7fff_ffff
            ==> merge::merged_macros(macros, depth, entries, n, programs).1 == d,
{
    if stated::is_number(entries[n - 1].1, d) {
        stated::numbers_count(entries[n - 1].1, d, 0);
    }
}

} // verus!
