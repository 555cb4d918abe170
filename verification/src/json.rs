//! How a JSON text is read, and that what the report writes reads back.

use vstd::prelude::*;

use crate::fraction::Frac;
use crate::ir;
use crate::report;
use crate::report::JsonItem;
use crate::text;

verus! {

// ---------------------------------------------------------------------------
// Reading
// ---------------------------------------------------------------------------
/// A JSON value. The report holds no other numbers than whole ones, and neither
/// `true` nor `false`.
pub enum Json {
    Null,
    Number(int),
    Text(Seq<char>),
    List(Seq<Json>),
    Object(Seq<(Seq<char>, Json)>),
}

pub open spec fn is_blank(c: char) -> bool {
    c == ' ' || c == '\n' || c == '\r' || c == '\t'
}

/// A text without the white space in front.
pub open spec fn ws(s: Seq<char>) -> Seq<char>
    decreases s.len(),
{
    if s.len() > 0 && is_blank(s[0]) {
        ws(s.skip(1))
    } else {
        s
    }
}

/// The value of a hexadecimal digit.
pub open spec fn hex_value(c: char) -> int {
    if c <= '9' {
        (c as u32) as int - 48
    } else {
        (c as u32) as int - 87
    }
}

/// The character that a letter after a backslash stands for.
pub open spec fn read_letter(c: char) -> char {
    if c == 'n' {
        '\n'
    } else if c == 'r' {
        '\r'
    } else if c == 't' {
        '\t'
    } else {
        c
    }
}

/// A text up to its closing quote, and what follows.
pub open spec fn read_text(s: Seq<char>) -> Option<(Seq<char>, Seq<char>)>
    decreases s.len(),
{
    if s.len() == 0 {
        None
    } else if s[0] == '"' {
        Some((Seq::empty(), s.skip(1)))
    } else {
        let (c, n) = if s[0] == '\\' && s.len() >= 6 && s[1] == 'u' {
            (
                ((hex_value(s[2]) * 4096 + hex_value(s[3]) * 256 + hex_value(s[4]) * 16 + hex_value(
                    s[5],
                )) as u32) as char,
                6int,
            )
        } else if s[0] == '\\' && s.len() >= 2 {
            (read_letter(s[1]), 2int)
        } else {
            (s[0], 1int)
        };
        match read_text(s.skip(n)) {
            Some((t, r)) => Some((seq![c] + t, r)),
            None => None,
        }
    }
}

/// How many digits stand in front.
pub open spec fn digits_in_front(s: Seq<char>) -> nat
    decreases s.len(),
{
    if s.len() > 0 && text::is_digit(s[0]) {
        1 + digits_in_front(s.skip(1))
    } else {
        0
    }
}

/// The number that the first `n` digits of a text stand for.
pub open spec fn number_of(s: Seq<char>, n: int) -> int
    decreases n,
{
    if n <= 0 {
        0
    } else {
        number_of(s, n - 1) * 10 + ((s[n - 1] as u32) as int - 48)
    }
}

/// A number without a needless zero in front, and what follows.
pub open spec fn read_digits(s: Seq<char>) -> Option<(int, Seq<char>)> {
    let n = digits_in_front(s) as int;
    if n == 0 || (n > 1 && s[0] == '0') {
        None
    } else {
        Some((number_of(s, n), s.skip(n)))
    }
}

pub proof fn ws_is_no_longer(s: Seq<char>)
    ensures
        ws(s).len() <= s.len(),
    decreases s.len(),
{
    if s.len() > 0 && is_blank(s[0]) {
        ws_is_no_longer(s.skip(1));
    }
}

pub proof fn rest_is_shorter(s: Seq<char>)
    ensures
        read_text(s) matches Some((_, r)) ==> r.len() < s.len(),
    decreases s.len(),
{
    if s.len() > 0 && s[0] != '"' {
        if s[0] == '\\' && s.len() >= 6 && s[1] == 'u' {
            rest_is_shorter(s.skip(6));
        } else if s[0] == '\\' && s.len() >= 2 {
            rest_is_shorter(s.skip(2));
        } else {
            rest_is_shorter(s.skip(1));
        }
    }
}

/// The value in front of a text, and what follows it.
pub open spec fn read_value(s: Seq<char>) -> Option<(Json, Seq<char>)>
    decreases s.len(), 0int,
{
    let t = ws(s);
    proof {
        ws_is_no_longer(s);
    }
    if t.len() == 0 {
        None
    } else if t[0] == '"' {
        match read_text(t.skip(1)) {
            Some((x, r)) => Some((Json::Text(x), r)),
            None => None,
        }
    } else if t[0] == '[' {
        let u = ws(t.skip(1));
        if u.len() > 0 && u[0] == ']' {
            Some((Json::List(Seq::empty()), u.skip(1)))
        } else {
            read_items(t.skip(1), Seq::empty())
        }
    } else if t[0] == '{' {
        let u = ws(t.skip(1));
        if u.len() > 0 && u[0] == '}' {
            Some((Json::Object(Seq::empty()), u.skip(1)))
        } else {
            read_members(t.skip(1), Seq::empty())
        }
    } else if "null"@.is_prefix_of(t) {
        Some((Json::Null, t.skip("null"@.len() as int)))
    } else if t[0] == '-' {
        match read_digits(t.skip(1)) {
            Some((n, r)) => Some((Json::Number(-n), r)),
            None => None,
        }
    } else {
        match read_digits(t) {
            Some((n, r)) => Some((Json::Number(n), r)),
            None => None,
        }
    }
}

/// The items of a list up to its end, after those already read.
pub open spec fn read_items(s: Seq<char>, done: Seq<Json>) -> Option<(Json, Seq<char>)>
    decreases s.len(), 1int,
{
    proof {
        ws_is_no_longer(s);
    }
    match read_value(s) {
        Some((v, q)) => {
            let e = ws(q);
            if e.len() > 0 && e[0] == ',' && e.len() <= ws(s).len() {
                read_items(e.skip(1), done.push(v))
            } else if e.len() > 0 && e[0] == ']' {
                Some((Json::List(done.push(v)), e.skip(1)))
            } else {
                None
            }
        },
        None => None,
    }
}

/// The members of an object up to its end, after those already read.
pub open spec fn read_members(s: Seq<char>, done: Seq<(Seq<char>, Json)>) -> Option<
    (Json, Seq<char>),
>
    decreases s.len(), 1int,
{
    let t = ws(s);
    proof {
        ws_is_no_longer(s);
        rest_is_shorter(t.skip(1));
    }
    if t.len() > 0 && t[0] == '"' {
        match read_text(t.skip(1)) {
            Some((name, r)) => {
                let c = ws(r);
                proof {
                    ws_is_no_longer(r);
                }
                if c.len() > 0 && c[0] == ':' {
                    match read_value(c.skip(1)) {
                        Some((v, q)) => {
                            let e = ws(q);
                            if e.len() > 0 && e[0] == ',' && e.len() <= t.len() {
                                read_members(e.skip(1), done.push((name, v)))
                            } else if e.len() > 0 && e[0] == '}' {
                                Some((Json::Object(done.push((name, v))), e.skip(1)))
                            } else {
                                None
                            }
                        },
                        None => None,
                    }
                } else {
                    None
                }
            },
            None => None,
        }
    } else {
        None
    }
}

/// The value of a whole text.
pub open spec fn read_json(s: Seq<char>) -> Option<Json> {
    match read_value(s) {
        Some((v, r)) => if ws(r).len() == 0 {
            Some(v)
        } else {
            None
        },
        None => None,
    }
}

// ---------------------------------------------------------------------------
// White space
// ---------------------------------------------------------------------------
pub open spec fn all_blank(s: Seq<char>, n: int) -> bool
    decreases n,
{
    n <= 0 || (is_blank(s[n - 1]) && all_blank(s, n - 1))
}

proof fn blank_at(s: Seq<char>, n: int, i: int)
    requires
        all_blank(s, n),
        0 <= i < n,
    ensures
        is_blank(s[i]),
    decreases n,
{
    if i < n - 1 {
        blank_at(s, n - 1, i);
    }
}

proof fn blank_rest(s: Seq<char>, n: int)
    requires
        all_blank(s, n),
        0 < n <= s.len(),
    ensures
        all_blank(s.skip(1), n - 1),
    decreases n,
{
    if n > 1 {
        blank_rest(s, n - 1);
        assert(s.skip(1)[n - 2] == s[n - 1]);
    }
}

/// White space in front does not count.
pub proof fn blanks_go(a: Seq<char>, b: Seq<char>)
    requires
        all_blank(a, a.len() as int),
    ensures
        ws(a + b) == ws(b),
    decreases a.len(),
{
    if a.len() > 0 {
        blank_at(a, a.len() as int, 0);
        blank_rest(a, a.len() as int);
        assert((a + b).skip(1) =~= a.skip(1) + b);
        blanks_go(a.skip(1), b);
    } else {
        assert(a + b =~= b);
    }
}

pub proof fn more_text_is_no_shorter(a: Seq<char>, b: Seq<char>)
    ensures
        ws(a + b).len() >= ws(b).len(),
    decreases a.len(),
{
    if a.len() > 0 {
        assert((a + b)[0] == a[0]);
        assert((a + b).skip(1) =~= a.skip(1) + b);
        ws_is_no_longer(b);
        more_text_is_no_shorter(a.skip(1), b);
    } else {
        assert(a + b =~= b);
    }
}

// ---------------------------------------------------------------------------
// Values
// ---------------------------------------------------------------------------
/// What can follow a number.
pub open spec fn ends_value(r: Seq<char>) -> bool {
    r.len() == 0 || !text::is_digit(r[0])
}

/// A text reads as a value, whatever follows it.
pub open spec fn reads_as(text: Seq<char>, v: Json) -> bool {
    forall|r: Seq<char>| ends_value(r) ==> #[trigger] read_value(text + r) == Some((v, r))
}

/// The value that a text stands for.
pub open spec fn raw_value(text: Seq<char>) -> Json {
    (read_value(text)->0).0
}

pub proof fn raw_value_is_read(text: Seq<char>, v: Json)
    requires
        reads_as(text, v),
    ensures
        raw_value(text) == v,
{
    assert(text + Seq::<char>::empty() =~= text);
    assert(read_value(text + Seq::<char>::empty()) == Some((v, Seq::<char>::empty())));
}

proof fn escaped_from_front(s: Seq<char>, n: int)
    requires
        0 < n <= s.len(),
    ensures
        report::escaped(s, n) == report::escaped_char(s[0]) + report::escaped(s.skip(1), n - 1),
    decreases n,
{
    if n > 1 {
        escaped_from_front(s, n - 1);
        assert(s.skip(1)[n - 2] == s[n - 1]);
        assert(report::escaped(s, n) =~= report::escaped_char(s[0]) + report::escaped(s.skip(1), n - 1));
    } else {
        assert(report::escaped(s, 0) =~= Seq::empty());
        assert(report::escaped(s.skip(1), 0) =~= Seq::empty());
        assert(report::escaped(s, 1) =~= report::escaped_char(s[0]) + report::escaped(s.skip(1), 0));
    }
}

proof fn character_reads_back(c: char, rest: Seq<char>)
    ensures
        read_text(report::escaped_char(c) + rest) == match read_text(rest) {
            Some((t, r)) => Some((seq![c] + t, r)),
            None => None,
        },
{
    reveal_strlit("\\\"");
    reveal_strlit("\\\\");
    reveal_strlit("\\n");
    reveal_strlit("\\r");
    reveal_strlit("\\t");
    reveal_strlit("\\u00");
    let e = report::escaped_char(c) + rest;
    if c == '"' || c == '\\' || c == '\n' || c == '\r' || c == '\t' {
        assert(e.skip(2) =~= rest);
    } else if text::is_control(c) {
        let n = (c as u32) as int;
        assert(e.skip(6) =~= rest);
        assert(e[2] == '0' && e[3] == '0');
        assert(e[4] == report::hex_digit(n / 16) && e[5] == report::hex_digit(n % 16));
        assert(0 <= n / 16 < 16 && 0 <= n % 16 < 16);
        assert(n / 16 * 16 + n % 16 == n);
        assert(hex_value(e[4]) == n / 16);
        assert(hex_value(e[5]) == n % 16);
    } else {
        assert(e.skip(1) =~= rest);
    }
}

/// An escaped text in front of its closing quote reads back as the text.
pub proof fn escaped_reads_back(s: Seq<char>, rest: Seq<char>)
    ensures
        read_text(report::escaped(s, s.len() as int) + (seq!['"'] + rest)) == Some((s, rest)),
    decreases s.len(),
{
    let more = seq!['"'] + rest;
    if s.len() > 0 {
        let tail = s.skip(1);
        escaped_from_front(s, s.len() as int);
        let e = report::escaped(tail, tail.len() as int);
        assert(report::escaped(s, s.len() as int) + more =~= report::escaped_char(s[0]) + (e + more));
        character_reads_back(s[0], e + more);
        escaped_reads_back(tail, rest);
        assert(seq![s[0]] + tail =~= s);
    } else {
        assert(report::escaped(s, 0) + more =~= more);
        assert(more.skip(1) =~= rest);
        assert(s =~= Seq::<char>::empty());
    }
}

/// A quoted text reads back.
pub proof fn quoted_reads_back(s: Seq<char>)
    ensures
        reads_as(report::quoted(s), Json::Text(s)),
{
    reveal_strlit("\"");
    assert forall|r: Seq<char>| ends_value(r) implies #[trigger] read_value(report::quoted(s) + r) == Some(
        (Json::Text(s), r),
    ) by {
        let t = report::quoted(s) + r;
        escaped_reads_back(s, r);
        assert(t.skip(1) =~= report::escaped(s, s.len() as int) + (seq!['"'] + r));
        assert(t[0] == '"');
    }
}

pub proof fn null_reads_back()
    ensures
        reads_as("null"@, Json::Null),
{
    reveal_strlit("null");
    assert forall|r: Seq<char>| ends_value(r) implies #[trigger] read_value("null"@ + r) == Some(
        (Json::Null, r),
    ) by {
        let t = "null"@ + r;
        assert(t[0] == 'n');
        assert(t.skip(4) =~= r);
    }
}

proof fn number_rests_on_its_digits(a: Seq<char>, b: Seq<char>, n: int)
    requires
        0 <= n <= a.len(),
    ensures
        number_of(a + b, n) == number_of(a, n),
    decreases n,
{
    if n > 0 {
        number_rests_on_its_digits(a, b, n - 1);
    }
}

pub open spec fn all_digits(s: Seq<char>) -> bool {
    forall|i: int| 0 <= i < s.len() ==> text::is_digit(#[trigger] s[i])
}

proof fn decimal_is_a_number(n: nat)
    ensures
        all_digits(text::decimal(n)),
        text::decimal(n).len() > 0,
        number_of(text::decimal(n), text::decimal(n).len() as int) == n,
        n > 0 ==> text::decimal(n)[0] != '0',
        n < 10 ==> text::decimal(n).len() == 1,
    decreases n,
{
    if n < 10 {
        assert(number_of(text::decimal(n), 0) == 0);
    } else {
        let front = text::decimal(n / 10);
        decimal_is_a_number(n / 10);
        number_rests_on_its_digits(front, seq![text::digit_char(n % 10)], front.len() as int);
        assert(front + seq![text::digit_char(n % 10)] =~= text::decimal(n));
        assert(text::decimal(n)[0] == front[0]);
    }
}

proof fn digits_stop(a: Seq<char>, r: Seq<char>)
    requires
        all_digits(a),
        ends_value(r),
    ensures
        digits_in_front(a + r) == a.len(),
    decreases a.len(),
{
    if a.len() > 0 {
        assert((a + r)[0] == a[0]);
        assert((a + r).skip(1) =~= a.skip(1) + r);
        digits_stop(a.skip(1), r);
    } else {
        assert(a + r =~= r);
    }
}

proof fn digits_read_back(n: nat, r: Seq<char>)
    requires
        ends_value(r),
    ensures
        read_digits(text::decimal(n) + r) == Some((n as int, r)),
        (text::decimal(n) + r).len() > 0,
        text::is_digit((text::decimal(n) + r)[0]),
{
    let d = text::decimal(n);
    decimal_is_a_number(n);
    digits_stop(d, r);
    number_rests_on_its_digits(d, r, d.len() as int);
    assert((d + r)[0] == d[0]);
    assert((d + r).skip(d.len() as int) =~= r);
}

/// A number reads back.
pub proof fn number_reads_back(n: int)
    ensures
        reads_as(text::signed_decimal(n), Json::Number(n)),
{
    reveal_strlit("null");
    assert forall|r: Seq<char>| ends_value(r) implies #[trigger] read_value(text::signed_decimal(n) + r)
        == Some((Json::Number(n), r)) by {
        let t = text::signed_decimal(n) + r;
        if n < 0 {
            digits_read_back((-n) as nat, r);
            assert(t[0] == '-');
            assert(t.skip(1) =~= text::decimal((-n) as nat) + r);
        } else {
            digits_read_back(n as nat, r);
        }
        if "null"@.is_prefix_of(t) {
            assert("null"@[0] == t[0]);
        }
        assert(ws(t) == t);
    }
}

pub proof fn natural_reads_back(n: nat)
    ensures
        reads_as(text::decimal(n), Json::Number(n as int)),
{
    number_reads_back(n as int);
}

pub open spec fn text_or_null(x: Option<Seq<char>>) -> Json {
    match x {
        Some(s) => Json::Text(s),
        None => Json::Null,
    }
}

pub proof fn optional_text_reads_back(x: Option<Seq<char>>)
    ensures
        reads_as(report::quoted_or_null(x), text_or_null(x)),
{
    match x {
        Some(s) => {
            quoted_reads_back(s);
        },
        None => {
            null_reads_back();
        },
    }
}

pub open spec fn number_or_null(x: Option<usize>) -> Json {
    match x {
        Some(n) => Json::Number(n as int),
        None => Json::Null,
    }
}

pub open spec fn decimal_or_null(x: Option<usize>) -> Seq<char> {
    match x {
        Some(n) => text::decimal(n as nat),
        None => "null"@,
    }
}

pub proof fn optional_number_reads_back(x: Option<usize>)
    ensures
        reads_as(decimal_or_null(x), number_or_null(x)),
{
    match x {
        Some(n) => {
            natural_reads_back(n as nat);
        },
        None => {
            null_reads_back();
        },
    }
}

/// The value of a count of steps: a number, or a fraction as a text.
pub open spec fn step_value(f: Frac) -> Json {
    if f.den == 1 {
        Json::Number(f.num)
    } else {
        Json::Text(text::signed_decimal(f.num) + "/"@ + text::signed_decimal(f.den))
    }
}

/// Characters that need no escape.
pub open spec fn all_plain(s: Seq<char>, n: int) -> bool
    decreases n,
{
    n <= 0 || (report::escaped_char(s[n - 1]) == seq![s[n - 1]] && all_plain(s, n - 1))
}

proof fn plain_stays(s: Seq<char>, n: int)
    requires
        0 <= n <= s.len(),
        all_plain(s, n),
    ensures
        report::escaped(s, n) == s.take(n),
    decreases n,
{
    if n > 0 {
        plain_stays(s, n - 1);
        assert(s.take(n) =~= s.take(n - 1) + seq![s[n - 1]]);
    } else {
        assert(s.take(0) =~= Seq::<char>::empty());
    }
}

proof fn numerals_are_plain(s: Seq<char>, n: int)
    requires
        0 <= n <= s.len(),
        forall|i: int| 0 <= i < s.len() ==> text::is_digit(#[trigger] s[i]) || s[i] == '-' || s[i] == '/',
    ensures
        all_plain(s, n),
    decreases n,
{
    if n > 0 {
        numerals_are_plain(s, n - 1);
        assert(text::is_digit(s[n - 1]) || s[n - 1] == '-' || s[n - 1] == '/');
    }
}

/// A count of steps reads back.
pub proof fn steps_read_back(f: Frac)
    ensures
        reads_as(ir::step_json(f), step_value(f)),
{
    reveal_strlit("/");
    reveal_strlit("\"");
    if f.den == 1 {
        number_reads_back(f.num);
    } else {
        let a = text::signed_decimal(f.num);
        let b = text::signed_decimal(f.den);
        let t = a + "/"@ + b;
        decimal_is_a_number(if f.num < 0 {
            (-f.num) as nat
        } else {
            f.num as nat
        });
        decimal_is_a_number(if f.den < 0 {
            (-f.den) as nat
        } else {
            f.den as nat
        });
        assert forall|i: int| 0 <= i < t.len() implies text::is_digit(#[trigger] t[i]) || t[i] == '-'
            || t[i] == '/' by {
            if i < a.len() {
                assert(t[i] == a[i]);
            } else if i > a.len() {
                assert(t[i] == b[i - a.len() - 1]);
            }
        }
        numerals_are_plain(t, t.len() as int);
        plain_stays(t, t.len() as int);
        assert(t.take(t.len() as int) =~= t);
        assert(ir::step_json(f) =~= report::quoted(t));
        quoted_reads_back(t);
    }
}

// ---------------------------------------------------------------------------
// Members and lists
// ---------------------------------------------------------------------------
/// A member reads back: reading goes on behind its comma.
pub proof fn member_reads_back(
    indent: Seq<char>,
    name: Seq<char>,
    text: Seq<char>,
    v: Json,
    rest: Seq<char>,
    done: Seq<(Seq<char>, Json)>,
)
    requires
        all_blank(indent, indent.len() as int),
        all_plain(name, name.len() as int),
        reads_as(text, v),
    ensures
        read_members((indent + report::key(name) + text + report::line_end(true)) + rest, done) == read_members(
            rest,
            done.push((name, v)),
        ),
        begins_with_quote((indent + report::key(name) + text + report::line_end(true)) + rest),
{
    reveal_strlit(",\n");
    let x = ",\n"@ + rest;
    member_is_read(indent, name, text, v, x, done);
    let s = (indent + report::key(name) + text + report::line_end(true)) + rest;
    assert(s =~= indent + report::key(name) + text + x);
    assert(ws(x) == x);
    more_text_is_no_shorter(indent + report::key(name) + text, x);
    let more = x.skip(1);
    assert(more =~= seq!['\n'] + rest);
    assert(all_blank(seq!['\n'], 1)) by {
        reveal_with_fuel(all_blank, 2);
    }
    blanks_go(seq!['\n'], rest);
    members_ignore_blanks(more, rest, done.push((name, v)));
}

/// The last member reads back: the object ends behind it.
pub proof fn last_member_reads_back(
    indent: Seq<char>,
    name: Seq<char>,
    text: Seq<char>,
    v: Json,
    gap: Seq<char>,
    rest: Seq<char>,
    done: Seq<(Seq<char>, Json)>,
)
    requires
        all_blank(indent, indent.len() as int),
        all_plain(name, name.len() as int),
        all_blank(gap, gap.len() as int),
        reads_as(text, v),
    ensures
        read_members(
            (indent + report::key(name) + text + report::line_end(false)) + (gap + (seq!['}'] + rest)),
            done,
        ) == Some((Json::Object(done.push((name, v))), rest)),
{
    reveal_strlit("\n");
    let close = seq!['}'] + rest;
    let x = "\n"@ + (gap + close);
    member_is_read(indent, name, text, v, x, done);
    let s = (indent + report::key(name) + text + report::line_end(false)) + (gap + close);
    assert(s =~= indent + report::key(name) + text + x);
    assert(all_blank("\n"@, 1)) by {
        reveal_with_fuel(all_blank, 2);
    }
    blanks_go("\n"@, gap + close);
    blanks_go(gap, close);
    assert(close.skip(1) =~= rest);
}

pub open spec fn begins_with_quote(s: Seq<char>) -> bool {
    ws(s).len() > 0 && ws(s)[0] == '"'
}

proof fn members_ignore_blanks(a: Seq<char>, b: Seq<char>, done: Seq<(Seq<char>, Json)>)
    requires
        ws(a) == ws(b),
    ensures
        read_members(a, done) == read_members(b, done),
{
}

pub proof fn values_ignore_blanks(a: Seq<char>, b: Seq<char>)
    requires
        ws(a) == ws(b),
    ensures
        read_value(a) == read_value(b),
{
}

/// What is read of a member up to what follows its value.
proof fn member_is_read(
    indent: Seq<char>,
    name: Seq<char>,
    text: Seq<char>,
    v: Json,
    x: Seq<char>,
    done: Seq<(Seq<char>, Json)>,
)
    requires
        all_blank(indent, indent.len() as int),
        all_plain(name, name.len() as int),
        reads_as(text, v),
        x.len() > 0 && (x[0] == ',' || x[0] == '\n'),
    ensures
        ({
            let s = indent + report::key(name) + text + x;
            let e = ws(x);
            &&& begins_with_quote(s)
            &&& read_members(s, done) == if e.len() > 0 && e[0] == ',' && e.len() <= ws(s).len() {
                read_members(e.skip(1), done.push((name, v)))
            } else if e.len() > 0 && e[0] == '}' {
                Some((Json::Object(done.push((name, v))), e.skip(1)))
            } else {
                None
            }
        }),
{
    reveal_strlit("\"");
    reveal_strlit("\": ");
    let s = indent + report::key(name) + text + x;
    let after = seq![':', ' '] + (text + x);
    let t = seq!['"'] + (name + (seq!['"'] + after));
    assert(s =~= indent + t);
    blanks_go(indent, t);
    assert(ws(t) == t);
    assert(t.skip(1) =~= name + (seq!['"'] + after));
    plain_stays(name, name.len() as int);
    assert(name.take(name.len() as int) =~= name);
    escaped_reads_back(name, after);
    assert(read_text(t.skip(1)) == Some((name, after)));
    assert(ws(after) == after);
    let c = after.skip(1);
    assert(c =~= seq![' '] + (text + x));
    assert(all_blank(seq![' '], 1)) by {
        reveal_with_fuel(all_blank, 2);
    }
    blanks_go(seq![' '], text + x);
    values_ignore_blanks(c, text + x);
    assert(read_value(text + x) == Some((v, x)));
}

/// An object reads back, once its members do.
pub proof fn object_reads_back(indent: Seq<char>, members: Seq<char>)
    requires
        all_blank(indent, indent.len() as int),
        begins_with_quote(members),
    ensures
        read_value(indent + ("{\n"@ + members)) == read_members(members, Seq::empty()),
{
    reveal_strlit("{\n");
    let t = "{\n"@ + members;
    blanks_go(indent, t);
    assert(ws(t) == t);
    values_ignore_blanks(indent + t, t);
    assert(t.skip(1) =~= seq!['\n'] + members);
    assert(all_blank(seq!['\n'], 1)) by {
        reveal_with_fuel(all_blank, 2);
    }
    blanks_go(seq!['\n'], members);
    members_ignore_blanks(t.skip(1), members, Seq::empty());
}

pub proof fn joined_in_turn(a: Seq<char>, b: Seq<char>, c: Seq<char>)
    ensures
        (a + b) + c == a + (b + c),
{
    assert((a + b) + c =~= a + (b + c));
}

pub proof fn nothing_in_front(a: Seq<char>)
    ensures
        Seq::<char>::empty() + a == a,
{
    assert(Seq::<char>::empty() + a =~= a);
}

/// How an item of a list begins and ends.
pub proof fn item_frame(r: Seq<char>)
    ensures
        "    {\n"@ == "    "@ + "{\n"@,
        "\n    }"@ + r == "\n    "@ + (seq!['}'] + r),
        all_blank("    "@, "    "@.len() as int),
        all_blank("      "@, "      "@.len() as int),
        all_blank("\n    "@, "\n    "@.len() as int),
{
    reveal_strlit("    {\n");
    reveal_strlit("    ");
    reveal_strlit("{\n");
    reveal_strlit("\n    }");
    reveal_strlit("\n    ");
    reveal_strlit("      ");
    reveal_with_fuel(all_blank, 8);
    assert("    {\n"@ =~= "    "@ + "{\n"@);
    assert("\n    }"@ + r =~= "\n    "@ + (seq!['}'] + r));
}

/// The values of the items of a list.
pub open spec fn list_values<T: JsonItem>(items: Seq<T::V>) -> Seq<Json> {
    Seq::new(items.len(), |i: int| T::value(items[i]))
}

/// The items from `i` on, with a comma between each two.
spec fn items_behind<T: JsonItem>(items: Seq<T::V>, i: int) -> Seq<char>
    decreases items.len() - i,
{
    if i < 0 || i >= items.len() {
        Seq::empty()
    } else if i == items.len() - 1 {
        T::json(items[i])
    } else {
        T::json(items[i]) + (",\n"@ + items_behind::<T>(items, i + 1))
    }
}

proof fn items_from_front<T: JsonItem>(items: Seq<T::V>, n: int)
    requires
        0 < n <= items.len(),
    ensures
        items_behind::<T>(items, 0) == if n == items.len() {
            report::items_json::<T>(items, n)
        } else {
            report::items_json::<T>(items, n) + (",\n"@ + items_behind::<T>(items, n))
        },
    decreases n,
{
    if n > 1 {
        items_from_front::<T>(items, n - 1);
        let before = report::items_json::<T>(items, n - 1);
        let item = T::json(items[n - 1]);
        joined_in_turn(before, ",\n"@, item);
        if n < items.len() {
            let more = ",\n"@ + items_behind::<T>(items, n);
            joined_in_turn(before + ",\n"@, item, more);
            joined_in_turn(before, ",\n"@, item + more);
        }
    }
}

proof fn no_value_begins_with_a_bracket(s: Seq<char>)
    requires
        ws(s).len() > 0,
        ws(s)[0] == ']',
    ensures
        read_value(s) is None,
{
    reveal_strlit("null");
    let t = ws(s);
    if "null"@.is_prefix_of(t) {
        assert("null"@[0] == t[0]);
    }
}

proof fn items_read_back<T: JsonItem>(items: Seq<T::V>, i: int, r: Seq<char>, done: Seq<Json>)
    requires
        0 <= i < items.len(),
        forall|k: int| 0 <= k < items.len() ==> T::sound(#[trigger] items[k]),
        done == list_values::<T>(items).take(i),
    ensures
        read_items(items_behind::<T>(items, i) + ("\n  ]"@ + r), done) == Some(
            (Json::List(list_values::<T>(items)), r),
        ),
        ws(items_behind::<T>(items, i) + ("\n  ]"@ + r)).len() > 0,
        ws(items_behind::<T>(items, i) + ("\n  ]"@ + r))[0] != ']',
    decreases items.len() - i,
{
    reveal_strlit("\n  ]");
    reveal_strlit(",\n");
    let end = "\n  ]"@ + r;
    let item = T::json(items[i]);
    let v = T::value(items[i]);
    let values = list_values::<T>(items);
    assert(T::sound(items[i]));
    T::item_reads(items[i]);
    assert(values.take(i + 1) =~= done.push(v));
    let s = items_behind::<T>(items, i) + end;
    if i == items.len() - 1 {
        assert(read_value(item + end) == Some((v, end)));
        let blank = "\n  "@;
        reveal_strlit("\n  ");
        assert(all_blank(blank, 3)) by {
            reveal_with_fuel(all_blank, 4);
        }
        assert(end =~= blank + (seq![']'] + r));
        blanks_go(blank, seq![']'] + r);
        let e = ws(end);
        assert(e == seq![']'] + r);
        assert(e.skip(1) =~= r);
        assert(values.take(i + 1) =~= values);
    } else {
        let more = items_behind::<T>(items, i + 1) + end;
        let x = ",\n"@ + more;
        joined_in_turn(item, ",\n"@ + items_behind::<T>(items, i + 1), end);
        joined_in_turn(",\n"@, items_behind::<T>(items, i + 1), end);
        assert(s == item + x);
        assert(read_value(item + x) == Some((v, x)));
        assert(ws(x) == x);
        more_text_is_no_shorter(item, x);
        assert(x.skip(1) =~= seq!['\n'] + more);
        assert(all_blank(seq!['\n'], 1)) by {
            reveal_with_fuel(all_blank, 2);
        }
        blanks_go(seq!['\n'], more);
        items_ignore_blanks(x.skip(1), more, done.push(v));
        items_read_back::<T>(items, i + 1, r, done.push(v));
    }
    assert(read_value(s) is Some);
    if ws(s).len() > 0 && ws(s)[0] == ']' {
        no_value_begins_with_a_bracket(s);
    }
}

proof fn items_ignore_blanks(a: Seq<char>, b: Seq<char>, done: Seq<Json>)
    requires
        ws(a) == ws(b),
    ensures
        read_items(a, done) == read_items(b, done),
{
    values_ignore_blanks(a, b);
}

/// The text of a list.
pub open spec fn list_text<T: JsonItem>(items: Seq<T::V>) -> Seq<char> {
    "[\n"@ + report::items_json::<T>(items, items.len() as int) + "\n  ]"@
}

/// A list reads back, item by item.
pub proof fn list_reads_back<T: JsonItem>(items: Seq<T::V>)
    requires
        forall|k: int| 0 <= k < items.len() ==> T::sound(#[trigger] items[k]),
    ensures
        reads_as(list_text::<T>(items), Json::List(list_values::<T>(items))),
{
    reveal_strlit("[\n");
    reveal_strlit("\n  ]");
    let n = items.len() as int;
    let v = Json::List(list_values::<T>(items));
    assert forall|r: Seq<char>| ends_value(r) implies #[trigger] read_value(
        list_text::<T>(items) + r,
    ) == Some((v, r)) by {
        let inner = report::items_json::<T>(items, n) + ("\n  ]"@ + r);
        let t = list_text::<T>(items) + r;
        assert(t =~= "[\n"@ + inner);
        assert(ws(t) == t);
        assert(t.skip(1) =~= seq!['\n'] + inner);
        assert(all_blank(seq!['\n'], 1)) by {
            reveal_with_fuel(all_blank, 2);
        }
        blanks_go(seq!['\n'], inner);
        if n == 0 {
            let blank = "\n  "@;
            reveal_strlit("\n  ");
            assert(all_blank(blank, 3)) by {
                reveal_with_fuel(all_blank, 4);
            }
            assert(inner =~= blank + (seq![']'] + r));
            blanks_go(blank, seq![']'] + r);
            let u = ws(inner);
            assert(u == seq![']'] + r);
            assert(u.skip(1) =~= r);
            assert(list_values::<T>(items) =~= Seq::<Json>::empty());
        } else {
            items_from_front::<T>(items, n);
            assert(list_values::<T>(items).take(0) =~= Seq::<Json>::empty());
            items_read_back::<T>(items, 0, r, Seq::empty());
            items_ignore_blanks(t.skip(1), inner, Seq::empty());
        }
    }
}

/// A section is a member whose value is a list.
pub proof fn section_is_a_member<T: JsonItem>(name: Seq<char>, items: Seq<T::V>, comma: bool)
    ensures
        report::section::<T>(name, items, comma) == "  "@ + report::key(name) + list_text::<T>(items) + report::line_end(
            comma,
        ),
{
    reveal_strlit("  \"");
    reveal_strlit("  ");
    reveal_strlit("\"");
    reveal_strlit("\": ");
    reveal_strlit("\": [\n");
    reveal_strlit("[\n");
    assert(report::section::<T>(name, items, comma) =~= "  "@ + report::key(name) + list_text::<T>(items)
        + report::line_end(comma));
}

} // verus!
