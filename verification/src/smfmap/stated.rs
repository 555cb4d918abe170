//! What the documents of a configuration state.

use vstd::prelude::*;

use crate::ir::SmfRequestView;
use crate::parser::asked;
use crate::smfmap::{DrumVelocity, Numbering, PsgNoiseDrumEntryView, U8MatcherView};
use crate::smfmap::events;
use crate::smfmap::merge;
use crate::text;
use crate::yaml;
use crate::yaml::YamlView;

verus! {

// ---------------------------------------------------------------------------
// Fields and numbers
// ---------------------------------------------------------------------------
/// A mapping has a value under a key: the first one with this key.
pub open spec fn has_field(v: YamlView, key: Seq<char>, x: YamlView) -> bool {
    v matches YamlView::Mapping(entries) && exists|i: int|
        0 <= i < entries.len() && #[trigger] entries[i] == (YamlView::Text(key), x) && forall|j: int|
            0 <= j < i ==> (#[trigger] entries[j]).0 != YamlView::Text(key)
}

proof fn entry_is_found(
    entries: Seq<(YamlView, YamlView)>,
    from: int,
    i: int,
    key: Seq<char>,
    x: YamlView,
)
    requires
        0 <= from <= i < entries.len(),
        entries[i] == (YamlView::Text(key), x),
        forall|j: int| from <= j < i ==> (#[trigger] entries[j]).0 != YamlView::Text(key),
    ensures
        yaml::entry_from(entries, from, key) == Some(x),
    decreases i - from,
{
    if from < i {
        entry_is_found(entries, from + 1, i, key, x);
    }
}

/// A field of a mapping is the value under its key.
pub proof fn fields_are_found(v: YamlView, key: Seq<char>, x: YamlView)
    requires
        has_field(v, key, x),
    ensures
        yaml::field(Some(v), key) == Some(x),
{
    let entries = v->Mapping_0;
    let i = choose|i: int|
        0 <= i < entries.len() && #[trigger] entries[i] == (YamlView::Text(key), x) && forall|j: int|
            0 <= j < i ==> (#[trigger] entries[j]).0 != YamlView::Text(key);
    entry_is_found(entries, 0, i, key, x);
}

/// A number of a document.
pub open spec fn is_number(x: YamlView, n: int) -> bool {
    x matches YamlView::Number { value: Some(k), .. } && k == n
}

/// A number counts as itself where it is in range, and as nothing where it is
/// not; a text counts as the number that it spells.
pub proof fn numbers_count(x: YamlView, n: int, m: nat)
    requires
        is_number(x, n),
        m <= 0x7fff_ffff,
    ensures
        0 <= n <= 255 ==> yaml::u8_of(Some(x)) == Some(n as u8),
        !(0 <= n <= 255) ==> yaml::u8_of(Some(x)) is None,
        0 <= n <= 65535 ==> yaml::u16_of(Some(x)) == Some(n as u16),
        !(0 <= n <= 65535) ==> yaml::u16_of(Some(x)) is None,
        i32::MIN <= n <= i32::MAX ==> yaml::int_of(Some(x)) == Some(n),
        yaml::int_of(Some(YamlView::Text(text::decimal(m)))) == Some(m as int),
{
    asked::request_numbers_are_read(m);
    let s = text::decimal(m);
    assert(!text::is_space(s[0]));
    assert(!text::is_space(s[s.len() - 1]));
    assert(s.last() == s[s.len() - 1]);
    assert(text::ws_end(s, 0) == 0);
    assert(s.skip(0) =~= s);
    assert(text::trim(s) == s);
}

// ---------------------------------------------------------------------------
// Requests
// ---------------------------------------------------------------------------
/// A program, counted as is set, and a bend may be given by their number alone.
pub proof fn single_requests_are_stated(x: YamlView, n: int)
    requires
        is_number(x, n),
    ensures
        0 <= n <= 255 ==> events::request_of("pc"@, x, Numbering::ZeroBased) == Some(
            SmfRequestView::Pc { program: n as u8 },
        ),
        1 <= n <= 255 ==> events::request_of("pc"@, x, Numbering::OneBased) == Some(
            SmfRequestView::Pc { program: (n - 1) as u8 },
        ),
        i32::MIN <= n <= i32::MAX ==> events::request_of("pb"@, x, Numbering::ZeroBased) == Some(
            SmfRequestView::PitchBend { value: n as i32 },
        ),
{
    asked::request_names_differ();
    numbers_count(x, n, 0);
}

/// A bank, a controller and a parameter are given by the values under their
/// names.
pub proof fn named_requests_are_stated(
    v: YamlView,
    x: YamlView,
    y: YamlView,
    z: YamlView,
    a: u8,
    b: u8,
    c: u16,
    programs: Numbering,
)
    requires
        is_number(x, a as int),
        is_number(y, b as int),
        is_number(z, c as int),
    ensures
        has_field(v, "msb"@, x) && has_field(v, "lsb"@, y) ==> events::request_of("bank"@, v, programs)
            == Some(SmfRequestView::Bank { msb: a, lsb: b }),
        has_field(v, "controller"@, x) && has_field(v, "value"@, y) ==> events::request_of(
            "cc"@,
            v,
            programs,
        ) == Some(SmfRequestView::Cc { controller: a, value: b }),
        has_field(v, "msb"@, x) && has_field(v, "lsb"@, y) && has_field(v, "value"@, z)
            ==> events::request_of("rpn"@, v, programs) == Some(
            SmfRequestView::Rpn { msb: a, lsb: b, value: c },
        ) && events::request_of("nrpn"@, v, programs) == Some(
            SmfRequestView::Nrpn { msb: a, lsb: b, value: c },
        ),
{
    asked::request_names_differ();
    numbers_count(x, a as int, 0);
    numbers_count(y, b as int, 0);
    numbers_count(z, c as int, 0);
    if has_field(v, "msb"@, x) {
        fields_are_found(v, "msb"@, x);
    }
    if has_field(v, "lsb"@, y) {
        fields_are_found(v, "lsb"@, y);
    }
    if has_field(v, "controller"@, x) {
        fields_are_found(v, "controller"@, x);
    }
    if has_field(v, "value"@, y) {
        fields_are_found(v, "value"@, y);
    }
    if has_field(v, "value"@, z) {
        fields_are_found(v, "value"@, z);
    }
}

// ---------------------------------------------------------------------------
// Drums
// ---------------------------------------------------------------------------
/// The drum of a noise envelope has the note and the velocity that are stated for
/// it.
pub proof fn noise_drums_are_stated(v: YamlView, x: YamlView, y: YamlView, note: u8, velocity: u8)
    requires
        has_field(v, "note"@, x),
        has_field(v, "velocity"@, y),
        is_number(x, note as int),
        is_number(y, velocity as int),
        note <= 127,
        1 <= velocity <= 127,
    ensures
        merge::noise_drum_entry(Some(v)).note == note,
        merge::noise_drum_entry(Some(v)).velocity == Some(velocity),
{
    fields_are_found(v, "note"@, x);
    fields_are_found(v, "velocity"@, y);
    numbers_count(x, note as int, 0);
    numbers_count(y, velocity as int, 0);
}

/// Each noise envelope has the drum of its last entry; an envelope without an
/// entry keeps the one that it had.
pub proof fn last_noise_drums_count(
    drums: Map<u8, PsgNoiseDrumEntryView>,
    entries: Seq<(YamlView, YamlView)>,
    n: int,
    id: u8,
    k: int,
)
    requires
        0 <= n <= entries.len(),
        -1 <= k < n,
        k >= 0 ==> merge::byte_key(entries[k].0) == Some(id) && entries[k].1 is Mapping,
        forall|i: int| k < i < n ==> merge::byte_key((#[trigger] entries[i]).0) != Some(id),
    ensures
        ({
            let r = merge::merged_noise_drums(drums, entries, n);
            &&& k >= 0 ==> r.contains_key(id) && r[id] == merge::noise_drum_entry(Some(entries[k].1))
            &&& k < 0 ==> r.contains_key(id) == drums.contains_key(id) && (drums.contains_key(id)
                ==> r[id] == drums[id])
        }),
    decreases n,
{
    if n > 0 && k < n - 1 {
        last_noise_drums_count(drums, entries, n - 1, id, k);
        assert(merge::byte_key(entries[n - 1].0) != Some(id));
    }
}

/// A drum rule plays the note that is stated for it; a stated number is its
/// velocity.
pub proof fn drum_rules_are_stated(
    v: YamlView,
    drum: YamlView,
    x: YamlView,
    y: YamlView,
    note: u8,
    velocity: u8,
)
    requires
        has_field(v, "drum"@, drum),
        has_field(drum, "note"@, x),
        has_field(drum, "velocity"@, y),
        is_number(x, note as int),
        is_number(y, velocity as int),
        note <= 127,
        1 <= velocity <= 127,
    ensures
        merge::drum_rule_of(v) matches Some(r) && r.drum.note == note && r.drum.velocity
            == DrumVelocity::Fixed(velocity),
{
    fields_are_found(v, "drum"@, drum);
    fields_are_found(drum, "note"@, x);
    fields_are_found(drum, "velocity"@, y);
    numbers_count(x, note as int, 0);
    numbers_count(y, velocity as int, 0);
}

/// What a drum rule tests for stands under the names of its tests; a letter may
/// be written large or small.
pub proof fn drum_tests_are_stated(
    m: YamlView,
    symbol: YamlView,
    c: char,
    e: YamlView,
    envelope: u8,
    o: YamlView,
    octave: int,
    t: YamlView,
    tone: u8,
    k: YamlView,
    key: u8,
)
    requires
        symbol == YamlView::Text(seq![c]),
        is_number(e, envelope as int),
        is_number(o, octave),
        i32::MIN <= octave <= i32::MAX,
        is_number(t, tone as int),
        is_number(k, key as int),
    ensures
        has_field(m, "macro_symbol"@, symbol) ==> merge::drum_matcher_of(Some(m)).macro_symbol == Some(
            text::lower(c),
        ),
        has_field(m, "note_name"@, symbol) ==> merge::drum_matcher_of(Some(m)).note_name == Some(text::lower(c)),
        has_field(m, "envelope"@, e) ==> merge::drum_matcher_of(Some(m)).envelope == U8MatcherView::One(
            envelope,
        ),
        has_field(m, "octave"@, o) ==> merge::drum_matcher_of(Some(m)).octave == Some(octave as i32),
        has_field(m, "source_tone"@, t) ==> merge::drum_matcher_of(Some(m)).source_tone
            == U8MatcherView::One(tone),
        has_field(m, "effective_tone"@, t) ==> merge::drum_matcher_of(Some(m)).effective_tone
            == U8MatcherView::One(tone),
        has_field(m, "source_midi_note"@, k) ==> merge::drum_matcher_of(Some(m)).source_midi_note
            == U8MatcherView::One(key),
{
    numbers_count(e, envelope as int, 0);
    numbers_count(o, octave, 0);
    numbers_count(t, tone as int, 0);
    numbers_count(k, key as int, 0);
    assert(seq![c][0] == c);
    if has_field(m, "macro_symbol"@, symbol) {
        fields_are_found(m, "macro_symbol"@, symbol);
    }
    if has_field(m, "note_name"@, symbol) {
        fields_are_found(m, "note_name"@, symbol);
    }
    if has_field(m, "envelope"@, e) {
        fields_are_found(m, "envelope"@, e);
    }
    if has_field(m, "octave"@, o) {
        fields_are_found(m, "octave"@, o);
    }
    if has_field(m, "source_tone"@, t) {
        fields_are_found(m, "source_tone"@, t);
    }
    if has_field(m, "effective_tone"@, t) {
        fields_are_found(m, "effective_tone"@, t);
    }
    if has_field(m, "source_midi_note"@, k) {
        fields_are_found(m, "source_midi_note"@, k);
    }
}

// ---------------------------------------------------------------------------
// Register rules and ranges
// ---------------------------------------------------------------------------
/// A register rule tests for what stands under the names of its tests; it counts
/// only where it is switched on.
pub proof fn register_rules_are_stated(
    v: YamlView,
    m: YamlView,
    x: YamlView,
    register: u8,
    y: YamlView,
    data: u8,
    programs: Numbering,
)
    requires
        has_field(v, "match"@, m),
        has_field(m, "register"@, x),
        has_field(m, "data"@, y),
        is_number(x, register as int),
        is_number(y, data as int),
    ensures
        merge::register_rule_of(v, programs).matcher.register == U8MatcherView::One(register),
        merge::register_rule_of(v, programs).matcher.data == U8MatcherView::One(data),
        has_field(v, "enabled"@, YamlView::Bool(true)) ==> merge::register_rule_of(v, programs).enabled,
        has_field(v, "enabled"@, YamlView::Bool(false)) ==> !merge::register_rule_of(v, programs).enabled,
        yaml::field(Some(v), "enabled"@) is None ==> !merge::register_rule_of(v, programs).enabled,
{
    fields_are_found(v, "match"@, m);
    fields_are_found(m, "register"@, x);
    fields_are_found(m, "data"@, y);
    numbers_count(x, register as int, 0);
    numbers_count(y, data as int, 0);
    if has_field(v, "enabled"@, YamlView::Bool(true)) {
        fields_are_found(v, "enabled"@, YamlView::Bool(true));
    }
    if has_field(v, "enabled"@, YamlView::Bool(false)) {
        fields_are_found(v, "enabled"@, YamlView::Bool(false));
    }
}

proof fn dots_are_found(a: Seq<char>, s: Seq<char>, i: int)
    requires
        0 <= i <= a.len(),
        a.len() + 1 < s.len(),
        forall|j: int| 0 <= j < a.len() ==> #[trigger] a[j] != '.' && a[j] == s[j],
        s[a.len() as int] == '.',
        s[a.len() as int + 1] == '.',
    ensures
        merge::find_dots(s, i) == Some(a.len() as int),
    decreases a.len() - i,
{
    if i < a.len() {
        assert(a[i] != '.');
        dots_are_found(a, s, i + 1);
    }
}

/// A range may be written with two full stops between its ends: it tests for what
/// is between them, both in it, whichever stands first.
pub proof fn ranges_are_stated(a: nat, b: nat, value: u8)
    requires
        a <= 255,
        b <= 255,
    ensures
        merge::u8_matcher_of(Some(YamlView::Text(text::decimal(a) + seq!['.', '.'] + text::decimal(b)))).accepts(value)
            <==> ((a <= value && value <= b) || (b <= value && value <= a)),
{
    let s = text::decimal(a) + seq!['.', '.'] + text::decimal(b);
    let n = text::decimal(a).len() as int;
    asked::request_numbers_are_read(a);
    asked::request_numbers_are_read(b);
    bare_digits(a);
    bare_digits(b);
    assert forall|j: int| 0 <= j < n implies #[trigger] text::decimal(a)[j] != '.' && text::decimal(a)[j]
        == s[j] by {}
    assert(s[n] == '.');
    assert(s[n + 1] == '.');
    dots_are_found(text::decimal(a), s, 0);
    assert(s.take(n) =~= text::decimal(a));
    assert(s.skip(n + 2) =~= text::decimal(b));
    reveal_strlit("*");
    assert(s != "*"@) by {
        assert(s.len() >= 2);
    }
}

proof fn bare_digits(n: nat)
    ensures
        text::decimal(n).len() > 0,
        forall|i: int| 0 <= i < text::decimal(n).len() ==> text::is_digit(#[trigger] text::decimal(n)[i]),
        text::trim(text::decimal(n)) == text::decimal(n),
    decreases n,
{
    if n >= 10 {
        bare_digits(n / 10);
    }
    let s = text::decimal(n);
    assert forall|i: int| 0 <= i < s.len() implies text::is_digit(#[trigger] s[i]) by {
        if n >= 10 && i < text::decimal(n / 10).len() {
            assert(s[i] == text::decimal(n / 10)[i]);
        }
    }
    assert(text::is_digit(s[0]));
    assert(text::is_digit(s[s.len() - 1]));
    assert(text::ws_end(s, 0) == 0);
    assert(s.skip(0) =~= s);
}

} // verus!
