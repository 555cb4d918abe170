//! What the `;@smf` requests of a source ask for.

use vstd::prelude::*;

use crate::fraction::Frac;
use crate::ir::{IrEventView, SmfRequestView};
use crate::parser::smf;
use crate::smfmap::Numbering;
use crate::text;
use crate::text::CharClass;

verus! {

// ---------------------------------------------------------------------------
// Words
// ---------------------------------------------------------------------------
/// A word: no white space in it, and no quote before it.
pub open spec fn is_word(w: Seq<char>) -> bool {
    w.len() > 0 && w[0] != '"' && forall|i: int| 0 <= i < w.len() ==> !text::is_space(#[trigger] w[i])
}

/// A word stands at `pos`, and a space or the end of the text after it.
pub open spec fn word_stands_at(s: Seq<char>, pos: int, w: Seq<char>) -> bool {
    let end = pos + w.len();
    &&& is_word(w)
    &&& 0 <= pos
    &&& end <= s.len()
    &&& s.subrange(pos, end) == w
    &&& end < s.len() ==> s[end] == ' '
}

/// Two words stand at `pos`, with a space between them.
pub open spec fn two_stand_at(s: Seq<char>, pos: int, v: Seq<char>, w: Seq<char>) -> bool {
    word_stands_at(s, pos, v) && text::at(s, pos + v.len(), ' ') && word_stands_at(s, pos + v.len() + 1, w)
}

/// Three words stand at `pos`, with a space between any two.
pub open spec fn three_stand_at(
    s: Seq<char>,
    pos: int,
    u: Seq<char>,
    v: Seq<char>,
    w: Seq<char>,
) -> bool {
    two_stand_at(s, pos, u, v) && text::at(s, pos + u.len() + 1 + v.len(), ' ') && word_stands_at(
        s,
        pos + u.len() + 1 + v.len() + 1,
        w,
    )
}

proof fn word_ends(s: Seq<char>, pos: int, w: Seq<char>, i: int)
    requires
        word_stands_at(s, pos, w),
        0 <= i <= w.len(),
    ensures
        text::run_end(s, pos + i, CharClass::Word) == pos + w.len(),
    decreases w.len() - i,
{
    if i < w.len() {
        assert(s.subrange(pos, pos + w.len())[i] == s[pos + i]);
        word_ends(s, pos, w, i + 1);
    }
}

/// A word is read as it stands, with or without a space before it.
pub proof fn words_are_read(s: Seq<char>, pos: int, w: Seq<char>)
    requires
        word_stands_at(s, pos, w),
    ensures
        smf::token_at(s, pos) == Some((w, pos + w.len())),
        pos > 0 && s[pos - 1] == ' ' ==> smf::token_at(s, pos - 1) == Some((w, pos + w.len())),
{
    word_ends(s, pos, w, 0);
    assert(s.subrange(pos, pos + w.len())[0] == s[pos]);
    assert(text::ws_end(s, pos) == pos);
    if pos > 0 && s[pos - 1] == ' ' {
        assert(text::ws_end(s, pos - 1) == pos);
    }
}

/// A text between quotes: a backslash stands before each quote and each
/// backslash of it.
pub open spec fn quotable(t: Seq<char>) -> Seq<char>
    decreases t.len(),
{
    if t.len() == 0 {
        Seq::empty()
    } else if t.last() == '"' || t.last() == '\\' {
        quotable(t.drop_last()).push('\\').push(t.last())
    } else {
        quotable(t.drop_last()).push(t.last())
    }
}

proof fn escaped_is_read(s: Seq<char>, pos: int, t: Seq<char>)
    requires
        0 <= pos,
        pos + quotable(t).len() <= s.len(),
        s.subrange(pos, pos + quotable(t).len()) == quotable(t),
    ensures
        smf::quoted_rest(s, pos, Seq::empty()) == smf::quoted_rest(s, pos + quotable(t).len(), t),
    decreases t.len(),
{
    let e = quotable(t);
    let end = pos + e.len();
    let part = s.subrange(pos, end);
    if t.len() > 0 {
        let u = t.drop_last();
        let f = quotable(u);
        let mid = pos + f.len();
        assert(t =~= u.push(t.last()));
        assert(s.subrange(pos, mid) =~= f) by {
            assert forall|i: int| 0 <= i < f.len() implies s.subrange(pos, mid)[i] == f[i] by {
                assert(part[i] == s[pos + i]);
                assert(e[i] == f[i]);
            }
        }
        escaped_is_read(s, pos, u);
        assert(part[f.len() as int] == s[mid]);
        if t.last() == '"' || t.last() == '\\' {
            assert(part[f.len() as int + 1] == s[mid + 1]);
            assert(smf::quoted_rest(s, mid, u) == smf::quoted_rest(s, mid + 2, t));
        } else {
            assert(smf::quoted_rest(s, mid, u) == smf::quoted_rest(s, mid + 1, t));
        }
    } else {
        assert(t =~= Seq::empty());
    }
}

/// A text between quotes is read as what was quoted, spaces and all.
pub proof fn quoted_texts_are_read(t: Seq<char>)
    ensures
        smf::token_at(seq!['"'] + quotable(t) + seq!['"'], 0) == Some((t, quotable(t).len() as int + 2)),
{
    let s = seq!['"'] + quotable(t) + seq!['"'];
    let end = 1 + quotable(t).len() as int;
    assert(s.subrange(1, end) =~= quotable(t));
    escaped_is_read(s, 1, t);
    assert(s[end] == '"');
    assert(smf::quoted_rest(s, end, t) == (t, end + 1));
    assert(text::ws_end(s, 0) == 0);
}

// ---------------------------------------------------------------------------
// Numbers
// ---------------------------------------------------------------------------
proof fn decimal_has_its_value(n: nat)
    ensures
        text::radix_value(text::decimal(n), 10) == Some(n as int),
        text::decimal(n).len() > 0,
        forall|i: int| 0 <= i < text::decimal(n).len() ==> text::is_digit(#[trigger] text::decimal(n)[i]),
    decreases n,
{
    let s = text::decimal(n);
    if n < 10 {
        assert(s.drop_last() =~= Seq::empty());
        assert(text::radix_value(s.drop_last(), 10) == Some(0int));
        assert(s.last() == text::digit_char(n));
    } else {
        decimal_has_its_value(n / 10);
        assert(s.drop_last() =~= text::decimal(n / 10));
        assert(s.last() == text::digit_char(n % 10));
    }
}

/// A number of a request is what it says; a minus makes it negative.
pub proof fn request_numbers_are_read(n: nat)
    requires
        n <= 0x7fff_ffff,
    ensures
        smf::smf_number(text::decimal(n)) == Some(n as int),
        smf::smf_number(seq!['-'] + text::decimal(n)) == Some(-(n as int)),
        is_word(text::decimal(n)),
        is_word(seq!['-'] + text::decimal(n)),
{
    decimal_has_its_value(n);
    let s = text::decimal(n);
    assert(text::is_digit(s[0]));
    reveal_strlit("0x");
    assert(!"0x"@.is_prefix_of(s)) by {
        if "0x"@.is_prefix_of(s) {
            assert("0x"@[1] == s[1]);
            assert(text::is_digit(s[1]));
        }
    }
    let t = seq!['-'] + s;
    assert(t.skip(1) =~= s);
    assert(t[0] == '-');
    assert forall|i: int| 0 <= i < t.len() implies !text::is_space(#[trigger] t[i]) by {
        if i > 0 {
            assert(t[i] == s[i - 1]);
        }
    }
}

/// The value of a hexadecimal digit.
pub open spec fn is_hex(c: char, d: int) -> bool {
    (0 <= d < 10 && c as int == '0' as int + d) || (10 <= d < 16 && (c as int == 'a' as int + d - 10
        || c as int == 'A' as int + d - 10))
}

proof fn prefixed_number(prefix: Seq<char>, t: Seq<char>)
    requires
        prefix == "0x"@ || prefix == seq!['$'] || prefix == seq!['%'],
    ensures
        smf::smf_number(prefix + t) == text::whole_number(
            t,
            if prefix == seq!['%'] {
                2
            } else {
                16
            },
            true,
            i32::MIN as int,
            i32::MAX as int,
        ),
{
    reveal_strlit("0x");
    let s = prefix + t;
    assert(s.skip(prefix.len() as int) =~= t);
    assert(s[0] == prefix[0]);
    assert("0x"@.len() == 2);
    if prefix == "0x"@ {
        assert("0x"@.is_prefix_of(s)) by {
            assert("0x"@ =~= s.subrange(0, 2));
        }
    } else {
        assert(!"0x"@.is_prefix_of(s)) by {
            if "0x"@.is_prefix_of(s) {
                assert("0x"@[0] == s[0]);
            }
        }
        assert(seq!['$'][0] == '$');
        assert(seq!['%'][0] == '%');
    }
}

/// Behind `0x` or `$` each digit counts sixteen times what the next one does,
/// behind `%` twice.
pub proof fn request_numbers_have_bases(t: Seq<char>, v: int, c: char, d: int)
    requires
        t.len() > 0 ==> t[0] != '+' && t[0] != '-',
    ensures
        t.len() == 0 && is_hex(c, d) ==> smf::smf_number("0x"@ + seq![c]) == Some(d) && smf::smf_number(
            seq!['$'] + seq![c],
        ) == Some(d),
        t.len() == 0 && is_hex(c, d) && d < 2 ==> smf::smf_number(seq!['%'] + seq![c]) == Some(d),
        t.len() > 0 && is_hex(c, d) && smf::smf_number("0x"@ + t) == Some(v) && 16 * v + d
            <= 0x7fff_ffff ==> smf::smf_number("0x"@ + t.push(c)) == Some(16 * v + d),
        t.len() > 0 && is_hex(c, d) && smf::smf_number(seq!['$'] + t) == Some(v) && 16 * v + d
            <= 0x7fff_ffff ==> smf::smf_number(seq!['$'] + t.push(c)) == Some(16 * v + d),
        t.len() > 0 && is_hex(c, d) && d < 2 && smf::smf_number(seq!['%'] + t) == Some(v) && 2 * v + d
            <= 0x7fff_ffff ==> smf::smf_number(seq!['%'] + t.push(c)) == Some(2 * v + d),
{
    let one = seq![c];
    assert(one.drop_last() =~= Seq::empty());
    assert(one.last() == c);
    assert(text::radix_value(Seq::<char>::empty(), 16) == Some(0int));
    assert(text::radix_value(Seq::<char>::empty(), 2) == Some(0int));
    prefixed_number("0x"@, one);
    prefixed_number(seq!['$'], one);
    prefixed_number(seq!['%'], one);
    prefixed_number("0x"@, t);
    prefixed_number(seq!['$'], t);
    prefixed_number(seq!['%'], t);
    prefixed_number("0x"@, t.push(c));
    prefixed_number(seq!['$'], t.push(c));
    prefixed_number(seq!['%'], t.push(c));
    reveal_strlit("0x");
    assert("0x"@ != seq!['%']) by {
        assert("0x"@.len() == 2);
    }
    assert(seq!['$'] != seq!['%']) by {
        assert(seq!['$'][0] != seq!['%'][0]);
    }
    assert(t.push(c).drop_last() =~= t);
    assert(t.push(c).last() == c);
    if t.len() > 0 {
        assert(t.push(c)[0] == t[0]);
        digits_are_not_negative(t, 16);
        digits_are_not_negative(t, 2);
    }
}

proof fn digits_are_not_negative(t: Seq<char>, radix: int)
    requires
        radix == 2 || radix == 16,
    ensures
        text::radix_value(t, radix) matches Some(v) ==> v >= 0,
    decreases t.len(),
{
    if t.len() > 0 {
        digits_are_not_negative(t.drop_last(), radix);
    }
}

// ---------------------------------------------------------------------------
// Requests
// ---------------------------------------------------------------------------
/// A request on a track: what it asks for, on the track that it stands on, at the
/// position that it stands at.
pub open spec fn asks(
    r: Result<IrEventView, Seq<char>>,
    track: Option<Seq<char>>,
    channel: Option<u8>,
    at: Frac,
    request: SmfRequestView,
) -> bool {
    r matches Ok(IrEventView::ManualSmf { track: t, channel: c, at: a, request: q, .. }) && t
        == track && c == channel && a == at && q == request
}

proof fn first_words(s: Seq<char>, name: Seq<char>)
    requires
        word_stands_at(s, 0, name),
        name == "pc"@ || name == "bank"@ || name == "cc"@ || name == "pb"@ || name == "rpn"@ || name
            == "nrpn"@,
    ensures
        smf::token_at(s, 0) == Some((name, name.len() as int)),
        text::lower_all(name) == name,
        name != "conductor"@,
        !"track="@.is_prefix_of(name),
        !"channel="@.is_prefix_of(name),
{
    words_are_read(s, 0, name);
    names_are_plain(name);
}

proof fn names_are_plain(name: Seq<char>)
    requires
        name == "pc"@ || name == "bank"@ || name == "cc"@ || name == "pb"@ || name == "rpn"@ || name
            == "nrpn"@,
    ensures
        text::lower_all(name) == name,
        name != "conductor"@,
        !"track="@.is_prefix_of(name),
        !"channel="@.is_prefix_of(name),
{
    reveal_strlit("pc");
    reveal_strlit("bank");
    reveal_strlit("cc");
    reveal_strlit("pb");
    reveal_strlit("rpn");
    reveal_strlit("nrpn");
    reveal_strlit("conductor");
    reveal_strlit("track=");
    reveal_strlit("channel=");
    assert(name.len() <= 4);
    assert(text::lower_all(name) =~= name);
}

/// No two requests have the same name.
pub proof fn request_names_differ()
    ensures
        "pc"@ != "bank"@,
        "pc"@ != "cc"@,
        "bank"@ != "cc"@,
        "pc"@ != "pb"@,
        "bank"@ != "pb"@,
        "cc"@ != "pb"@,
        "pc"@ != "rpn"@,
        "bank"@ != "rpn"@,
        "cc"@ != "rpn"@,
        "pb"@ != "rpn"@,
        "pc"@ != "nrpn"@,
        "bank"@ != "nrpn"@,
        "cc"@ != "nrpn"@,
        "pb"@ != "nrpn"@,
        "rpn"@ != "nrpn"@,
{
    reveal_strlit("pc");
    reveal_strlit("bank");
    reveal_strlit("cc");
    reveal_strlit("pb");
    reveal_strlit("rpn");
    reveal_strlit("nrpn");
    assert("pc"@[0] != "cc"@[0]);
    assert("pc"@[1] != "pb"@[1]);
    assert("cc"@[0] != "pb"@[0]);
    assert("bank"@[0] != "nrpn"@[0]);
}

/// `pc` asks for a program, counted from zero or from one as is set; `pb` for a
/// bend, which may be negative.
pub proof fn single_requests_are_read(
    s: Seq<char>,
    track: Seq<char>,
    place: Frac,
    line: usize,
    programs: Numbering,
    channels: Numbering,
    n: nat,
)
    ensures
        two_stand_at(s, 0, "pc"@, text::decimal(n)) && n <= 127 && programs == Numbering::ZeroBased
            ==> asks(
            smf::smf_directive(s, Some(track), place, line, programs, channels),
            Some(text::lower_all(track)),
            None,
            place,
            SmfRequestView::Pc { program: n as u8 },
        ),
        two_stand_at(s, 0, "pc"@, text::decimal(n)) && 1 <= n <= 127 && programs == Numbering::OneBased
            ==> asks(
            smf::smf_directive(s, Some(track), place, line, programs, channels),
            Some(text::lower_all(track)),
            None,
            place,
            SmfRequestView::Pc { program: (n - 1) as u8 },
        ),
        two_stand_at(s, 0, "pc"@, text::decimal(n)) && 127 < n <= 0x7fff_ffff ==> smf::smf_directive(
            s,
            Some(track),
            place,
            line,
            programs,
            channels,
        ) is Err,
        two_stand_at(s, 0, "pb"@, text::decimal(n)) && n <= 16383 ==> asks(
            smf::smf_directive(s, Some(track), place, line, programs, channels),
            Some(text::lower_all(track)),
            None,
            place,
            SmfRequestView::PitchBend { value: n as i32 },
        ),
        two_stand_at(s, 0, "pb"@, seq!['-'] + text::decimal(n)) && n <= 8192 ==> asks(
            smf::smf_directive(s, Some(track), place, line, programs, channels),
            Some(text::lower_all(track)),
            None,
            place,
            SmfRequestView::PitchBend { value: (-n) as i32 },
        ),
{
    request_names_differ();
    if n <= 0x7fff_ffff {
        request_numbers_are_read(n);
        if two_stand_at(s, 0, "pc"@, text::decimal(n)) {
            first_words(s, "pc"@);
            words_are_read(s, "pc"@.len() as int + 1, text::decimal(n));
        }
        if two_stand_at(s, 0, "pb"@, text::decimal(n)) {
            first_words(s, "pb"@);
            words_are_read(s, "pb"@.len() as int + 1, text::decimal(n));
        }
        if two_stand_at(s, 0, "pb"@, seq!['-'] + text::decimal(n)) {
            first_words(s, "pb"@);
            words_are_read(s, "pb"@.len() as int + 1, seq!['-'] + text::decimal(n));
        }
    }
}

/// `bank` asks for a bank by its two bytes, the higher one first; `cc` for a
/// controller and its value.
pub proof fn paired_requests_are_read(
    s: Seq<char>,
    track: Seq<char>,
    place: Frac,
    line: usize,
    programs: Numbering,
    channels: Numbering,
    x: nat,
    y: nat,
)
    requires
        x <= 127,
        y <= 127,
    ensures
        three_stand_at(s, 0, "bank"@, text::decimal(x), text::decimal(y)) ==> asks(
            smf::smf_directive(s, Some(track), place, line, programs, channels),
            Some(text::lower_all(track)),
            None,
            place,
            SmfRequestView::Bank { msb: x as u8, lsb: y as u8 },
        ),
        three_stand_at(s, 0, "cc"@, text::decimal(x), text::decimal(y)) ==> asks(
            smf::smf_directive(s, Some(track), place, line, programs, channels),
            Some(text::lower_all(track)),
            None,
            place,
            SmfRequestView::Cc { controller: x as u8, value: y as u8 },
        ),
{
    request_names_differ();
    request_numbers_are_read(x);
    request_numbers_are_read(y);
    if three_stand_at(s, 0, "bank"@, text::decimal(x), text::decimal(y)) {
        first_words(s, "bank"@);
        words_are_read(s, "bank"@.len() as int + 1, text::decimal(x));
        words_are_read(s, "bank"@.len() as int + 1 + text::decimal(x).len() + 1, text::decimal(y));
    }
    if three_stand_at(s, 0, "cc"@, text::decimal(x), text::decimal(y)) {
        first_words(s, "cc"@);
        words_are_read(s, "cc"@.len() as int + 1, text::decimal(x));
        words_are_read(s, "cc"@.len() as int + 1 + text::decimal(x).len() + 1, text::decimal(y));
    }
}

/// `rpn` and `nrpn` ask for a parameter by its two bytes, the higher one first,
/// and its value of fourteen bits.
pub proof fn parameter_requests_are_read(
    s: Seq<char>,
    track: Seq<char>,
    place: Frac,
    line: usize,
    programs: Numbering,
    channels: Numbering,
    x: nat,
    y: nat,
    z: nat,
)
    requires
        x <= 127,
        y <= 127,
        z <= 16383,
    ensures
        three_stand_at(s, 0, "rpn"@, text::decimal(x), text::decimal(y)) && two_stand_at(
            s,
            "rpn"@.len() as int + 1 + text::decimal(x).len() + 1,
            text::decimal(y),
            text::decimal(z),
        ) ==> asks(
            smf::smf_directive(s, Some(track), place, line, programs, channels),
            Some(text::lower_all(track)),
            None,
            place,
            SmfRequestView::Rpn { msb: x as u8, lsb: y as u8, value: z as u16 },
        ),
        three_stand_at(s, 0, "nrpn"@, text::decimal(x), text::decimal(y)) && two_stand_at(
            s,
            "nrpn"@.len() as int + 1 + text::decimal(x).len() + 1,
            text::decimal(y),
            text::decimal(z),
        ) ==> asks(
            smf::smf_directive(s, Some(track), place, line, programs, channels),
            Some(text::lower_all(track)),
            None,
            place,
            SmfRequestView::Nrpn { msb: x as u8, lsb: y as u8, value: z as u16 },
        ),
{
    request_names_differ();
    request_numbers_are_read(x);
    request_numbers_are_read(y);
    request_numbers_are_read(z);
    let p = "rpn"@.len() as int + 1 + text::decimal(x).len() as int + 1;
    if three_stand_at(s, 0, "rpn"@, text::decimal(x), text::decimal(y)) && two_stand_at(
        s,
        p,
        text::decimal(y),
        text::decimal(z),
    ) {
        first_words(s, "rpn"@);
        words_are_read(s, "rpn"@.len() as int + 1, text::decimal(x));
        words_are_read(s, p, text::decimal(y));
        words_are_read(s, p + text::decimal(y).len() + 1, text::decimal(z));
    }
    let q = "nrpn"@.len() as int + 1 + text::decimal(x).len() as int + 1;
    if three_stand_at(s, 0, "nrpn"@, text::decimal(x), text::decimal(y)) && two_stand_at(
        s,
        q,
        text::decimal(y),
        text::decimal(z),
    ) {
        first_words(s, "nrpn"@);
        words_are_read(s, "nrpn"@.len() as int + 1, text::decimal(x));
        words_are_read(s, q, text::decimal(y));
        words_are_read(s, q + text::decimal(y).len() + 1, text::decimal(z));
    }
}

// ---------------------------------------------------------------------------
// Targets
// ---------------------------------------------------------------------------
/// `track=` sends a request to the track that it names, wherever it is written;
/// `conductor` to no track at all.
pub proof fn targets_are_followed(
    s: Seq<char>,
    default_track: Option<Seq<char>>,
    place: Frac,
    line: usize,
    channels: Numbering,
    name: Seq<char>,
    n: nat,
)
    requires
        n <= 127,
        name.len() > 0,
    ensures
        three_stand_at(s, 0, "track="@ + name, "pc"@, text::decimal(n)) ==> asks(
            smf::smf_directive(s, default_track, place, line, Numbering::ZeroBased, channels),
            Some(text::lower_all(name)),
            None,
            place,
            SmfRequestView::Pc { program: n as u8 },
        ),
        three_stand_at(s, 0, "conductor"@, "pc"@, text::decimal(n)) ==> asks(
            smf::smf_directive(s, default_track, place, line, Numbering::ZeroBased, channels),
            None,
            None,
            place,
            SmfRequestView::Pc { program: n as u8 },
        ),
{
    request_names_differ();
    names_are_plain("pc"@);
    request_numbers_are_read(n);
    reveal_strlit("conductor");
    reveal_strlit("track=");
    reveal_with_fuel(smf::smf_target, 2);
    let target = "track="@ + name;
    if three_stand_at(s, 0, target, "pc"@, text::decimal(n)) {
        words_are_read(s, 0, target);
        words_are_read(s, target.len() as int + 1, "pc"@);
        words_are_read(s, target.len() as int + 1 + "pc"@.len() + 1, text::decimal(n));
        assert("track="@.is_prefix_of(target)) by {
            assert("track="@ =~= target.subrange(0, "track="@.len() as int));
        }
        assert(target.skip("track="@.len() as int) =~= name);
        assert(text::lower_all(target)[0] == 't');
        assert(text::lower_all(target) != "conductor"@);
    }
    if three_stand_at(s, 0, "conductor"@, "pc"@, text::decimal(n)) {
        words_are_read(s, 0, "conductor"@);
        words_are_read(s, "conductor"@.len() as int + 1, "pc"@);
        words_are_read(s, "conductor"@.len() as int + 1 + "pc"@.len() + 1, text::decimal(n));
        assert(text::lower_all("conductor"@) =~= "conductor"@);
    }
}

/// `channel=` sends a request to a MIDI channel, counted from zero or from one as
/// is set.
pub proof fn channels_are_followed(
    s: Seq<char>,
    track: Seq<char>,
    place: Frac,
    line: usize,
    channels: Numbering,
    c: nat,
    n: nat,
)
    requires
        n <= 127,
        three_stand_at(s, 0, "channel="@ + text::decimal(c), "pc"@, text::decimal(n)),
        match channels {
            Numbering::ZeroBased => c <= 15,
            Numbering::OneBased => 1 <= c <= 16,
        },
    ensures
        asks(
            smf::smf_directive(s, Some(track), place, line, Numbering::ZeroBased, channels),
            Some(text::lower_all(track)),
            Some(
                match channels {
                    Numbering::ZeroBased => c as u8,
                    Numbering::OneBased => (c - 1) as u8,
                },
            ),
            place,
            SmfRequestView::Pc { program: n as u8 },
        ),
{
    request_names_differ();
    names_are_plain("pc"@);
    request_numbers_are_read(n);
    request_numbers_are_read(c);
    reveal_strlit("conductor");
    reveal_strlit("track=");
    reveal_strlit("channel=");
    reveal_with_fuel(smf::smf_target, 2);
    let target = "channel="@ + text::decimal(c);
    words_are_read(s, 0, target);
    words_are_read(s, target.len() as int + 1, "pc"@);
    words_are_read(s, target.len() as int + 1 + "pc"@.len() + 1, text::decimal(n));
    assert("channel="@.is_prefix_of(target)) by {
        assert("channel="@ =~= target.subrange(0, "channel="@.len() as int));
    }
    assert(target.skip("channel="@.len() as int) =~= text::decimal(c));
    assert(text::lower_all(target)[1] == 'h');
    assert(text::lower_all(target) != "conductor"@);
    assert(!"track="@.is_prefix_of(target)) by {
        if "track="@.is_prefix_of(target) {
            assert("track="@[0] == target[0]);
        }
    }
    assert(!"channel="@.is_prefix_of(text::decimal(c))) by {
        if "channel="@.is_prefix_of(text::decimal(c)) {
            assert("channel="@[0] == text::decimal(c)[0]);
            decimal_has_its_value(c);
        }
    }
    reveal_with_fuel(smf::without_channel_words, 3);
}

} // verus!
