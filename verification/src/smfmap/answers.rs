//! What a configuration says of tracks, tones and envelopes.

use vstd::prelude::*;

use crate::ir::{
    EnvelopeMode, EnvelopeRef, RegisterContext, RhythmMap, SmfRequestView, SourceFamily,
    TrackKind,
};
use crate::parser::statements;
use crate::smfmap;
use crate::smfmap::{
    DrumContextView, DrumVelocity, Numbering, PsgNoiseDefaultAction, RegisterRuleMatcherView,
    RenderRole, SmfMapConfigView, StringMatcherView, ToneMapEntryView, TrackMapConfigView,
    U8MatcherView,
};

verus! {

// ---------------------------------------------------------------------------
// Numbers
// ---------------------------------------------------------------------------
/// Counted from one, a number means the one below it; counted from zero, itself.
pub proof fn numberings_count(value: u8)
    ensures
        Numbering::ZeroBased.base_zero(value) == value,
        value > 0 ==> Numbering::OneBased.base_zero(value) == value - 1,
        Numbering::OneBased.base_zero(0) == 0,
{
}

/// A test for one value passes that value, a test for several any of them, and a
/// range what is between its ends, both in it.
pub proof fn tests_pass_what_they_name(value: u8, a: u8, b: u8, many: Seq<u8>)
    ensures
        U8MatcherView::Any.accepts(value),
        U8MatcherView::One(a).accepts(value) <==> a == value,
        U8MatcherView::Many(many).accepts(value) <==> (exists|i: int|
            0 <= i < many.len() && #[trigger] many[i] == value),
        (U8MatcherView::Range { min: a, max: b }).accepts(value) <==> (a <= value && value <= b),
        U8MatcherView::Any.accepts_opt(None),
        !U8MatcherView::One(a).accepts_opt(None),
{
}

/// A test for texts passes the texts that it names.
pub proof fn tests_pass_texts_that_they_name(
    value: Seq<char>,
    a: Seq<char>,
    many: Seq<Seq<char>>,
)
    ensures
        StringMatcherView::Any.accepts(value),
        StringMatcherView::One(a).accepts(value) <==> a == value,
        StringMatcherView::Many(many).accepts(value) <==> (exists|i: int|
            0 <= i < many.len() && #[trigger] many[i] == value),
{
}

/// Every test of a register rule must pass.
pub proof fn register_rules_test_everything(
    m: RegisterRuleMatcherView,
    family: SourceFamily,
    track: Seq<char>,
    register: u8,
    data: u8,
    context: RegisterContext,
)
    ensures
        m.accepts(family, track, register, data, context) <==> (m.family.accepts(family.name())
            && m.source_track.accepts(track) && m.register.accepts(register) && m.data.accepts(data)
            && m.context.accepts(context.name())),
{
}

// ---------------------------------------------------------------------------
// Tracks
// ---------------------------------------------------------------------------
/// Without a setting the first two tracks are PSG tones, the third is noise, the
/// next five are SCC tracks and the others OPLL tracks; in the mode with drums the
/// tracks `f` and `r` are rhythm tracks.
pub proof fn tracks_have_their_families(c: char, opll_mode: i32)
    ensures
        '1' <= c <= '2' ==> smfmap::default_family(seq![c], opll_mode, TrackKind::Melodic)
            == SourceFamily::Psg,
        c == '3' ==> smfmap::default_family(seq![c], opll_mode, TrackKind::Melodic)
            == SourceFamily::PsgNoise,
        '4' <= c <= '8' ==> smfmap::default_family(seq![c], opll_mode, TrackKind::Melodic)
            == SourceFamily::Scc,
        (c == '9' || 'a' <= c <= 'h') && (opll_mode != 1 || c != 'f') ==> smfmap::default_family(
            seq![c],
            opll_mode,
            TrackKind::Melodic,
        ) == SourceFamily::Opll,
        (c == 'f' || c == 'r') && opll_mode == 1 ==> smfmap::default_family(
            seq![c],
            opll_mode,
            TrackKind::Melodic,
        ) == SourceFamily::Rhythm,
        smfmap::default_family(seq![c], opll_mode, TrackKind::Rhythm) == SourceFamily::Rhythm,
{
    one_letter(c);
}

proof fn one_letter(c: char)
    ensures
        seq![c] == "1"@ <==> c == '1',
        seq![c] == "2"@ <==> c == '2',
        seq![c] == "3"@ <==> c == '3',
        seq![c] == "4"@ <==> c == '4',
        seq![c] == "5"@ <==> c == '5',
        seq![c] == "6"@ <==> c == '6',
        seq![c] == "7"@ <==> c == '7',
        seq![c] == "8"@ <==> c == '8',
        seq![c] == "9"@ <==> c == '9',
        seq![c] == "a"@ <==> c == 'a',
        seq![c] == "b"@ <==> c == 'b',
        seq![c] == "c"@ <==> c == 'c',
        seq![c] == "d"@ <==> c == 'd',
        seq![c] == "e"@ <==> c == 'e',
        seq![c] == "f"@ <==> c == 'f',
        seq![c] == "g"@ <==> c == 'g',
        seq![c] == "h"@ <==> c == 'h',
        seq![c] == "r"@ <==> c == 'r',
{
    reveal_strlit("1");
    reveal_strlit("2");
    reveal_strlit("3");
    reveal_strlit("4");
    reveal_strlit("5");
    reveal_strlit("6");
    reveal_strlit("7");
    reveal_strlit("8");
    reveal_strlit("9");
    reveal_strlit("a");
    reveal_strlit("b");
    reveal_strlit("c");
    reveal_strlit("d");
    reveal_strlit("e");
    reveal_strlit("f");
    reveal_strlit("g");
    reveal_strlit("h");
    reveal_strlit("r");
    assert(seq![c][0] == c);
    assert(c == '1' ==> seq![c] =~= "1"@);
    assert(c == '2' ==> seq![c] =~= "2"@);
    assert(c == '3' ==> seq![c] =~= "3"@);
    assert(c == '4' ==> seq![c] =~= "4"@);
    assert(c == '5' ==> seq![c] =~= "5"@);
    assert(c == '6' ==> seq![c] =~= "6"@);
    assert(c == '7' ==> seq![c] =~= "7"@);
    assert(c == '8' ==> seq![c] =~= "8"@);
    assert(c == '9' ==> seq![c] =~= "9"@);
    assert(c == 'a' ==> seq![c] =~= "a"@);
    assert(c == 'b' ==> seq![c] =~= "b"@);
    assert(c == 'c' ==> seq![c] =~= "c"@);
    assert(c == 'd' ==> seq![c] =~= "d"@);
    assert(c == 'e' ==> seq![c] =~= "e"@);
    assert(c == 'f' ==> seq![c] =~= "f"@);
    assert(c == 'g' ==> seq![c] =~= "g"@);
    assert(c == 'h' ==> seq![c] =~= "h"@);
    assert(c == 'r' ==> seq![c] =~= "r"@);
}

/// The tracks `f` and `r` are played as drums in the mode with drums, where the
/// drums of General MIDI are asked for, and no others are.
pub proof fn drums_have_their_tracks(c: char, opll_mode: i32)
    ensures
        statements::selector_kind(seq![c], opll_mode, RhythmMap::Gm) == TrackKind::Rhythm <==> (opll_mode == 1
            && (c == 'f' || c == 'r')),
        statements::selector_kind(seq![c], opll_mode, RhythmMap::Off) == TrackKind::Melodic,
{
    one_letter(c);
}

/// A track has the family, the channel and the port that its settings give it;
/// channels are counted as is set, and a track without settings has none.
pub proof fn tracks_have_their_settings(
    m: SmfMapConfigView,
    track: Seq<char>,
    opll_mode: i32,
    kind: TrackKind,
    family: SourceFamily,
    channel: u8,
    port: u8,
)
    ensures
        m.tracks.contains_key(track) && m.tracks[track].family == Some(family) && family
            != SourceFamily::Rhythm ==> m.family(track, opll_mode, kind) == family,
        m.tracks.contains_key(track) && m.tracks[track].midi_channel == Some(channel)
            && m.channel_numbering == Numbering::ZeroBased && channel <= 15 ==> m.midi_channel(track)
            == Some(channel),
        m.tracks.contains_key(track) && m.tracks[track].midi_channel == Some(channel)
            && m.channel_numbering == Numbering::OneBased && 1 <= channel <= 16 ==> m.midi_channel(
            track,
        ) == Some((channel - 1) as u8),
        m.tracks.contains_key(track) && m.tracks[track].midi_port == Some(port) ==> m.midi_port(
            track,
        ) == Some(port),
        !m.tracks.contains_key(track) ==> m.midi_channel(track) is None && m.midi_port(track)
            is None && m.family(track, opll_mode, kind) == smfmap::default_family(track, opll_mode, kind),
{
}

// ---------------------------------------------------------------------------
// Tones, envelopes, drums
// ---------------------------------------------------------------------------
/// A tone has the events of its own entry, in the list of its own family; without
/// a tone map no tone has any.
pub proof fn tones_have_their_events(
    m: SmfMapConfigView,
    tone: u8,
    tones: Map<u8, ToneMapEntryView>,
)
    ensures
        m.tone_map_enabled && m.tone_map.scc == Some(tones) && tones.contains_key(tone) ==> m.tone(
            SourceFamily::Scc,
            tone,
        ) == Some(tones[tone].events),
        m.tone_map_enabled && m.tone_map.opll == Some(tones) && tones.contains_key(tone)
            ==> m.tone(SourceFamily::Opll, tone) == Some(tones[tone].events),
        m.tone_map.opll == Some(tones) && !tones.contains_key(tone) ==> m.tone(
            SourceFamily::Opll,
            tone,
        ) is None,
        !m.tone_map_enabled ==> m.tone(SourceFamily::Scc, tone) is None && m.tone(
            SourceFamily::Opll,
            tone,
        ) is None,
        m.tone(SourceFamily::Psg, tone) is None && m.tone(SourceFamily::PsgNoise, tone) is None
            && m.tone(SourceFamily::Rhythm, tone) is None,
{
}

/// Envelopes are switched off by family; where they are on, the configured mode
/// counts before the one asked for. Rhythm tracks have none.
pub proof fn envelopes_have_their_modes(m: SmfMapConfigView, asked: EnvelopeMode, set: EnvelopeMode)
    ensures
        m.envelope_mode_of(SourceFamily::Rhythm, asked) == EnvelopeMode::Off,
        m.psg_envelope_map_enabled ==> m.envelope_mode_of(SourceFamily::Psg, asked) == asked
            && m.envelope_mode_of(SourceFamily::PsgNoise, asked) == asked,
        !m.psg_envelope_map_enabled ==> m.envelope_mode_of(SourceFamily::Psg, asked)
            == EnvelopeMode::Off && m.envelope_mode_of(SourceFamily::PsgNoise, asked)
            == EnvelopeMode::Off,
        !m.envelope_map_enabled ==> m.envelope_mode_of(SourceFamily::Scc, asked)
            == EnvelopeMode::Off && m.envelope_mode_of(SourceFamily::Opll, asked)
            == EnvelopeMode::Off,
        !m.envelope_scc_enabled ==> m.envelope_mode_of(SourceFamily::Scc, asked)
            == EnvelopeMode::Off,
        !m.envelope_opll_enabled ==> m.envelope_mode_of(SourceFamily::Opll, asked)
            == EnvelopeMode::Off,
        m.envelope_map_enabled && m.envelope_scc_enabled && m.envelope_mode == Some(set)
            ==> m.envelope_mode_of(SourceFamily::Scc, asked) == set,
        m.envelope_map_enabled && m.envelope_opll_enabled && m.envelope_mode == Some(set)
            ==> m.envelope_mode_of(SourceFamily::Opll, asked) == set,
        m.envelope_map_enabled && m.envelope_scc_enabled && m.envelope_mode is None
            ==> m.envelope_mode_of(SourceFamily::Scc, asked) == asked,
        m.envelope_map_enabled && m.envelope_opll_enabled && m.envelope_mode is None
            ==> m.envelope_mode_of(SourceFamily::Opll, asked) == asked,
{
}

/// Drums stand for the envelopes of noise where all of it is switched on: each
/// for its own number, whichever kind of envelope has it.
pub proof fn noise_drums_have_their_envelopes(m: SmfMapConfigView, id: u8)
    ensures
        ({
            let on = m.psg_noise_enabled && m.psg_noise_drum_map_enabled
                && m.psg_noise_default_action == PsgNoiseDefaultAction::DrumMap;
            &&& on && m.psg_noise_drums.contains_key(id) ==> m.noise_drum(Some(EnvelopeRef::E(id)))
                == Some(m.psg_noise_drums[id]) && m.noise_drum(Some(EnvelopeRef::R(id))) == Some(
                m.psg_noise_drums[id],
            )
            &&& on && !m.psg_noise_drums.contains_key(id) ==> m.noise_drum(
                Some(EnvelopeRef::E(id)),
            ) is None
            &&& !on ==> m.noise_drum(Some(EnvelopeRef::E(id))) is None && m.noise_drum(
                Some(EnvelopeRef::R(id)),
            ) is None
            &&& m.noise_drum(None) is None
        }),
{
}

/// An OPLL track is played as drums by the map that it names where its role says
/// so, or where its settings call it a rhythm track and name no role.
pub proof fn drum_tracks_have_their_maps(
    m: SmfMapConfigView,
    track: Seq<char>,
    t: TrackMapConfigView,
    name: Seq<char>,
)
    requires
        m.opll_pseudo_drum_enabled,
        m.tracks.contains_key(track),
        m.tracks[track] == t,
        smfmap::default_family(track, 0, TrackKind::Melodic) == SourceFamily::Opll,
        t.family is None || t.family == Some(SourceFamily::Opll) || t.family == Some(
            SourceFamily::Rhythm,
        ),
        t.drum_map == Some(name),
        m.opll_pseudo_drum_maps.contains_key(name),
    ensures
        t.render_role == Some(RenderRole::Drum) ==> m.drum_map(track, TrackKind::Melodic) == Some(
            m.opll_pseudo_drum_maps[name],
        ),
        t.render_role is None && t.family == Some(SourceFamily::Rhythm) ==> m.drum_map(
            track,
            TrackKind::Melodic,
        ) == Some(m.opll_pseudo_drum_maps[name]),
        t.render_role is Some && t.render_role != Some(RenderRole::Drum) ==> m.drum_map(
            track,
            TrackKind::Melodic,
        ) is None,
        t.render_role is None && t.family != Some(SourceFamily::Rhythm) ==> m.drum_map(
            track,
            TrackKind::Melodic,
        ) is None,
{
}

// ---------------------------------------------------------------------------
// What holds from the start
// ---------------------------------------------------------------------------
/// An instrument and its program in General MIDI, counted from zero.
pub open spec fn general_midi(name: Seq<char>, program: u8) -> bool {
    ||| name == "violin"@ && program == 40
    ||| name == "guitar"@ && program == 24
    ||| name == "piano"@ && program == 0
    ||| name == "flute"@ && program == 73
    ||| name == "clarinet"@ && program == 71
    ||| name == "oboe"@ && program == 68
    ||| name == "trumpet"@ && program == 56
    ||| name == "organ"@ && program == 16
    ||| name == "horn"@ && program == 60
    ||| name == "synthesizer"@ && program == 80
    ||| name == "harpsichord"@ && program == 6
    ||| name == "vibraphone"@ && program == 11
    ||| name == "synth_bass"@ && program == 38
    ||| name == "wood_bass"@ && program == 32
    ||| name == "electric_bass"@ && program == 33
}

/// Every built-in tone is an instrument of General MIDI and sends its program, and
/// no two are the same.
pub proof fn built_in_tones_are_instruments(tone: u8, other: u8)
    requires
        tone <= 14,
        other <= 14,
    ensures
        smfmap::built_in_program(tone) matches Some((name, program)) && general_midi(name, program)
            && smfmap::built_in_tones().contains_key(tone) && smfmap::built_in_tones()[tone].name == Some(name)
            && smfmap::built_in_tones()[tone].events == seq![SmfRequestView::Pc { program }],
        tone != other ==> smfmap::built_in_program(tone) != smfmap::built_in_program(other),
{
}

/// The drum map that exists from the start plays macros called by `b`, `s`, `h`
/// and `o` as bass drum, snare, closed and open hi-hat on the tenth channel, as
/// loud as the source.
pub proof fn built_in_drums_are_a_kit(c: DrumContextView, symbol: char, key: u8)
    requires
        c.macro_symbol == Some(symbol),
        (symbol == 'b' && key == 36) || (symbol == 's' && key == 38) || (symbol == 'h' && key == 42)
            || (symbol == 'o' && key == 46),
    ensures
        smfmap::drum_rule_from(smfmap::built_in_drum_map().rules, 0, c) matches Some(r) && r.drum.note == key
            && r.drum.velocity == DrumVelocity::SourceVolume,
        smfmap::built_in_drum_map().output.midi_channel == Some(9u8),
{
    reveal_with_fuel(smfmap::drum_rule_from, 5);
}

} // verus!
