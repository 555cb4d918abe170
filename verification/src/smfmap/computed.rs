//! What formulas compute.

use vstd::prelude::*;

use crate::parser::changes;
use crate::smfmap::formula;
use crate::smfmap::formula::{FormulaVars, Quotient};
use crate::text;

verus! {

// ---------------------------------------------------------------------------
// Operands
// ---------------------------------------------------------------------------
/// A whole number, as formulas hold it.
pub open spec fn whole_value(v: int) -> Quotient {
    Quotient { num: v as i128, den: 1 }
}

/// An operand of a moderate size stands at `pos`, and ends before `end`.
pub open spec fn operand(s: Seq<char>, pos: int, vars: FormulaVars, v: int, end: int) -> bool {
    &&& formula::factor_at(s, pos, vars) == Some((whole_value(v), end))
    &&& 0 <= pos < end <= s.len()
    &&& -10_000 <= v <= 10_000
}

proof fn digits_of_a_number(s: Seq<char>, pos: int, n: nat)
    requires
        0 <= pos,
        pos + text::decimal(n).len() <= s.len(),
        s.subrange(pos, pos + text::decimal(n).len()) == text::decimal(n),
        n <= 10_000,
    ensures
        text::decimal(n).len() > 0,
        text::is_digit(s[pos]),
        formula::number_from(s, pos, 0, 1, false) == formula::number_from(
            s,
            pos + text::decimal(n).len(),
            n as int,
            1,
            false,
        ),
    decreases n,
{
    let t = s.subrange(pos, pos + text::decimal(n).len());
    if n < 10 {
        assert(t[0] == s[pos]);
        assert(s[pos] == text::digit_char(n));
    } else {
        let rest = text::decimal(n / 10);
        let last = pos + rest.len();
        assert(s.subrange(pos, last) =~= rest) by {
            assert forall|i: int| 0 <= i < rest.len() implies s.subrange(pos, last)[i]
                == rest[i] by {
                assert(t[i] == s[pos + i]);
            }
        }
        digits_of_a_number(s, pos, n / 10);
        assert(t[rest.len() as int] == s[last]);
        assert(s[last] == text::digit_char(n % 10));
    }
}

/// A number in a formula stands for itself.
pub proof fn numbers_stand_for_themselves(s: Seq<char>, pos: int, vars: FormulaVars, n: nat)
    requires
        changes::number_at(s, pos, n),
        n <= 10_000,
        !text::at(s, changes::after_number(pos, n), '.'),
    ensures
        operand(s, pos, vars, n as int, changes::after_number(pos, n)),
{
    digits_of_a_number(s, pos, n);
    assert(text::ws_end(s, pos) == pos);
}

/// A digit behind a decimal point counts tenths.
pub proof fn decimal_points_are_read(s: Seq<char>, pos: int, vars: FormulaVars, n: nat, d: nat)
    requires
        changes::number_at(s, pos, n),
        n <= 10_000,
        d < 10,
        text::at(s, changes::after_number(pos, n), '.'),
        changes::after_number(pos, n) + 1 < s.len(),
        s[changes::after_number(pos, n) + 1] as int == '0' as int + d,
        changes::after_number(pos, n) + 2 < s.len() ==> !text::is_digit(s[changes::after_number(pos, n) + 2]) && s[
            changes::after_number(pos, n) + 2
        ] != '.',
    ensures
        formula::factor_at(s, pos, vars) == Some(
            (
                (Quotient { num: (10 * n + d) as i128, den: 10 }),
                changes::after_number(pos, n) + 2,
            ),
        ),
{
    digits_of_a_number(s, pos, n);
    assert(text::ws_end(s, pos) == pos);
    let p = changes::after_number(pos, n);
    let v = 10 * n + d;
    assert(formula::number_from(s, p + 2, v as int, 10, true) == Some(
        ((Quotient { num: v as i128, den: 10 }), p + 2),
    ));
    assert(formula::number_from(s, p + 1, n as int, 1, true) == formula::number_from(s, p + 2, v as int, 10, true));
    assert(formula::number_from(s, p, n as int, 1, false) == formula::number_from(s, p + 1, n as int, 1, true));
}

proof fn name_is_read(s: Seq<char>, pos: int, name: Seq<char>, i: int)
    requires
        0 <= pos,
        pos + name.len() <= s.len(),
        s.subrange(pos, pos + name.len()) == name,
        forall|j: int| 0 <= j < name.len() ==> formula::is_name_char(#[trigger] name[j]),
        pos + name.len() < s.len() ==> !formula::is_name_char(s[pos + name.len()]),
        0 <= i <= name.len(),
    ensures
        formula::name_end(s, pos + i) == pos + name.len(),
    decreases name.len() - i,
{
    if i < name.len() {
        assert(s.subrange(pos, pos + name.len())[i] == s[pos + i]);
        name_is_read(s, pos, name, i + 1);
    }
}

/// A name stands at `pos`, with nothing more of a name or a call after it.
pub open spec fn name_at(s: Seq<char>, pos: int, name: Seq<char>) -> bool {
    let end = pos + name.len();
    &&& 0 <= pos
    &&& end <= s.len()
    &&& s.subrange(pos, end) == name
    &&& end < s.len() ==> !formula::is_name_char(s[end]) && s[end] != '(' && !text::is_space(s[end])
}

/// In a formula `data` and `register` are what was written, and where to; the
/// other names are what is known of the place of the write.
pub proof fn names_stand_for_values(s: Seq<char>, pos: int, vars: FormulaVars)
    ensures
        name_at(s, pos, "data"@) ==> operand(s, pos, vars, vars.data as int, pos + 4),
        name_at(s, pos, "register"@) ==> operand(s, pos, vars, vars.register as int, pos + 8),
        name_at(s, pos, "track"@) && vars.track is Some ==> operand(
            s,
            pos,
            vars,
            vars.track->0 as int,
            pos + 5,
        ),
        name_at(s, pos, "family"@) && vars.family is Some ==> operand(
            s,
            pos,
            vars,
            vars.family->0 as int,
            pos + 6,
        ),
        name_at(s, pos, "tone"@) && vars.tone is Some ==> operand(
            s,
            pos,
            vars,
            vars.tone->0 as int,
            pos + 4,
        ),
        name_at(s, pos, "envelope"@) && vars.envelope is Some ==> operand(
            s,
            pos,
            vars,
            vars.envelope->0 as int,
            pos + 8,
        ),
{
    value_names_differ();
    if name_at(s, pos, "data"@) {
        reveal_strlit("data");
        named_operand(s, pos, vars, "data"@);
    }
    if name_at(s, pos, "register"@) {
        reveal_strlit("register");
        named_operand(s, pos, vars, "register"@);
    }
    if name_at(s, pos, "track"@) {
        reveal_strlit("track");
        named_operand(s, pos, vars, "track"@);
    }
    if name_at(s, pos, "family"@) {
        reveal_strlit("family");
        named_operand(s, pos, vars, "family"@);
    }
    if name_at(s, pos, "tone"@) {
        reveal_strlit("tone");
        named_operand(s, pos, vars, "tone"@);
    }
    if name_at(s, pos, "envelope"@) {
        reveal_strlit("envelope");
        named_operand(s, pos, vars, "envelope"@);
    }
}

proof fn value_names_differ()
    ensures
        "data"@ != "tone"@,
        "register"@ != "data"@,
        "track"@ != "data"@ && "track"@ != "register"@ && "track"@ != "source_step"@ && "track"@
            != "midi_tick"@,
        "family"@ != "data"@ && "family"@ != "register"@ && "family"@ != "source_step"@ && "family"@
            != "midi_tick"@ && "family"@ != "track"@,
        "tone"@ != "register"@ && "tone"@ != "source_step"@ && "tone"@ != "midi_tick"@ && "tone"@
            != "track"@ && "tone"@ != "family"@,
        "envelope"@ != "data"@ && "envelope"@ != "register"@ && "envelope"@ != "source_step"@
            && "envelope"@ != "midi_tick"@ && "envelope"@ != "track"@ && "envelope"@ != "family"@
            && "envelope"@ != "tone"@,
{
    reveal_strlit("data");
    reveal_strlit("register");
    reveal_strlit("source_step");
    reveal_strlit("midi_tick");
    reveal_strlit("track");
    reveal_strlit("family");
    reveal_strlit("tone");
    reveal_strlit("envelope");
    assert("data"@.len() == 4 && "tone"@.len() == 4 && "track"@.len() == 5 && "family"@.len() == 6);
    assert("register"@.len() == 8 && "envelope"@.len() == 8);
    assert("source_step"@.len() == 11 && "midi_tick"@.len() == 9);
    assert("data"@[0] != "tone"@[0]);
    assert("register"@[0] != "envelope"@[0]);
}

proof fn named_operand(s: Seq<char>, pos: int, vars: FormulaVars, name: Seq<char>)
    requires
        name_at(s, pos, name),
        name.len() > 0,
        forall|j: int| 0 <= j < name.len() ==> formula::is_name_char(#[trigger] name[j]),
    ensures
        formula::factor_at(s, pos, vars) == (match formula::variable(name, vars) {
            Some(v) => Some((v, pos + name.len() as int)),
            None => None,
        }),
{
    name_is_read(s, pos, name, 0);
    assert(s.subrange(pos, pos + name.len())[0] == s[pos]);
    assert(formula::is_name_char(name[0]));
    assert(text::ws_end(s, pos) == pos);
    let e = pos + name.len();
    assert(text::ws_end(s, e) == e);
}

// ---------------------------------------------------------------------------
// Operators
// ---------------------------------------------------------------------------
proof fn moderate(x: int, y: int)
    requires
        -10_000 <= x <= 10_000,
        -10_000 <= y <= 10_000,
    ensures
        -100_000_000 <= x * y <= 100_000_000,
{
    assert(-100_000_000 <= x * y <= 100_000_000) by (nonlinear_arith)
        requires
            -10_000 <= x <= 10_000,
            -10_000 <= y <= 10_000,
    ;
}

proof fn sum_of_wholes(x: int, y: int)
    requires
        -100_010_000 <= x <= 100_010_000,
        -100_010_000 <= y <= 100_010_000,
    ensures
        formula::sum_of(whole_value(x), whole_value(y)) == Some(whole_value(x + y)),
        formula::opposite(whole_value(y)) == whole_value(-y),
        formula::nearest_whole(whole_value(x)) == x,
{
}

proof fn product_of_wholes(x: int, y: int)
    requires
        -10_000 <= x <= 10_000,
        -10_000 <= y <= 10_000,
    ensures
        formula::product_of(whole_value(x), whole_value(y)) == Some(whole_value(x * y)),
{
    moderate(x, y);
}

proof fn quotient_of_wholes(x: int, y: int)
    requires
        -10_000 <= x <= 10_000,
        0 < y <= 10_000,
    ensures
        formula::product_of(whole_value(x), formula::inverse(whole_value(y))) == Some(
            Quotient { num: x as i128, den: y as i128 },
        ),
{
    let a = whole_value(x);
    let b = formula::inverse(whole_value(y));
    assert(a.num == x && a.den == 1);
    assert(b.num == 1 && b.den == y);
    assert(a.num * b.num == x) by (nonlinear_arith)
        requires
            a.num == x,
            b.num == 1,
    ;
    assert(a.den * b.den == y) by (nonlinear_arith)
        requires
            a.den == 1,
            b.den == y,
    ;
}

proof fn factor_alone(s: Seq<char>, pos: int, vars: FormulaVars, v: int, end: int)
    requires
        operand(s, pos, vars, v, end),
        end < s.len() ==> !text::is_space(s[end]) && s[end] != '*' && s[end] != '/',
    ensures
        formula::term_at(s, pos, vars) == Some((whole_value(v), end)),
{
    assert(text::ws_end(s, end) == end);
    assert(formula::more_factors(s, end, whole_value(v), vars) == Some((whole_value(v), end)));
}

/// `+`, `-` and `*` compute what they say; `/` gives the whole number nearest to
/// the quotient, where it stands last.
pub proof fn operators_compute(
    s: Seq<char>,
    vars: FormulaVars,
    x: int,
    p: int,
    y: int,
)
    requires
        operand(s, 0, vars, x, p),
        p < s.len(),
        operand(s, p + 1, vars, y, s.len() as int),
    ensures
        s[p] == '+' ==> formula::formula_value(s, vars) == Some(x + y),
        s[p] == '-' ==> formula::formula_value(s, vars) == Some(x - y),
        s[p] == '*' ==> formula::formula_value(s, vars) == Some(x * y),
        s[p] == '/' && y == 0 ==> formula::formula_value(s, vars) is None,
        s[p] == '/' && y > 0 ==> (formula::formula_value(s, vars) matches Some(v) && -y <= 2 * (v * y - x)
            <= y),
{
    let end = s.len() as int;
    assert(text::ws_end(s, end) == end);
    factor_alone(s, p + 1, vars, y, end);
    if s[p] == '+' || s[p] == '-' {
        assert(text::ws_end(s, p) == p);
        factor_alone(s, 0, vars, x, p);
        let z = if s[p] == '+' {
            x + y
        } else {
            x - y
        };
        sum_of_wholes(x, y);
        sum_of_wholes(x, -y);
        sum_of_wholes(z, 0);
        assert(formula::more_terms(s, end, whole_value(z), vars) == Some((whole_value(z), end)));
        assert(formula::more_terms(s, p, whole_value(x), vars) == Some((whole_value(z), end)));
    } else if s[p] == '*' {
        assert(text::ws_end(s, p) == p);
        product_of_wholes(x, y);
        moderate(x, y);
        sum_of_wholes(x * y, 0);
        assert(formula::more_factors(s, end, whole_value(x * y), vars) == Some((whole_value(x * y), end)));
        assert(formula::more_factors(s, p, whole_value(x), vars) == Some((whole_value(x * y), end)));
        assert(formula::more_terms(s, end, whole_value(x * y), vars) == Some((whole_value(x * y), end)));
    } else if s[p] == '/' {
        assert(text::ws_end(s, p) == p);
        if y == 0 {
            assert(formula::more_factors(s, p, whole_value(x), vars) is None);
            assert(formula::term_at(s, 0, vars) is None);
        } else if y > 0 {
            let q = Quotient { num: x as i128, den: y as i128 };
            quotient_of_wholes(x, y);
            assert(formula::more_factors(s, end, q, vars) == Some((q, end)));
            assert(formula::more_factors(s, p, whole_value(x), vars) == Some((q, end)));
            assert(formula::more_terms(s, end, q, vars) == Some((q, end)));
            nearest_is_near(q);
        }
    }
}

proof fn nearest_is_near(q: Quotient)
    requires
        -10_000 <= q.num <= 10_000,
        0 < q.den <= 10_000,
    ensures
        -q.den <= 2 * (formula::nearest_whole(q) * q.den - q.num) <= q.den,
{
    let n = if q.num >= 0 {
        q.num as int
    } else {
        -(q.num as int)
    };
    let d = q.den as int;
    let v = (2 * n + d) / (2 * d);
    assert(-d <= 2 * (v * d - n) <= d) by (nonlinear_arith)
        requires
            v == (2 * n + d) / (2 * d),
            d > 0,
    ;
    if q.num < 0 {
        assert((-v) * d == -(v * d)) by (nonlinear_arith);
    }
}

/// Products bind before sums, and equal operators work from left to right.
pub proof fn products_come_before_sums(
    s: Seq<char>,
    vars: FormulaVars,
    x: int,
    p: int,
    y: int,
    q: int,
    z: int,
)
    requires
        operand(s, 0, vars, x, p),
        p < s.len(),
        operand(s, p + 1, vars, y, q),
        q < s.len(),
        operand(s, q + 1, vars, z, s.len() as int),
    ensures
        s[p] == '+' && s[q] == '*' ==> formula::formula_value(s, vars) == Some(x + y * z),
        s[p] == '*' && s[q] == '+' ==> formula::formula_value(s, vars) == Some(x * y + z),
        s[p] == '-' && s[q] == '-' ==> formula::formula_value(s, vars) == Some(x - y - z),
        s[p] == '-' && s[q] == '+' ==> formula::formula_value(s, vars) == Some(x - y + z),
{
    let end = s.len() as int;
    assert(text::ws_end(s, end) == end);
    factor_alone(s, q + 1, vars, z, end);
    if s[p] == '+' && s[q] == '*' {
        assert(text::ws_end(s, p) == p);
        assert(text::ws_end(s, q) == q);
        factor_alone(s, 0, vars, x, p);
        product_of_wholes(y, z);
        moderate(y, z);
        let yz = whole_value(y * z);
        assert(formula::more_factors(s, end, yz, vars) == Some((yz, end)));
        assert(formula::more_factors(s, q, whole_value(y), vars) == Some((yz, end)));
        assert(formula::term_at(s, p + 1, vars) == Some((yz, end)));
        let r = x + y * z;
        sum_of_wholes(x, y * z);
        sum_of_wholes(r, 0);
        assert(formula::more_terms(s, end, whole_value(r), vars) == Some((whole_value(r), end)));
        assert(formula::more_terms(s, p, whole_value(x), vars) == Some((whole_value(r), end)));
    } else if s[p] == '*' && s[q] == '+' {
        assert(text::ws_end(s, p) == p);
        assert(text::ws_end(s, q) == q);
        product_of_wholes(x, y);
        moderate(x, y);
        let xy = whole_value(x * y);
        assert(formula::more_factors(s, q, xy, vars) == Some((xy, q)));
        assert(formula::more_factors(s, p, whole_value(x), vars) == Some((xy, q)));
        assert(formula::term_at(s, 0, vars) == Some((xy, q)));
        let r = x * y + z;
        sum_of_wholes(x * y, z);
        sum_of_wholes(r, 0);
        assert(formula::more_terms(s, end, whole_value(r), vars) == Some((whole_value(r), end)));
        assert(formula::more_terms(s, q, xy, vars) == Some((whole_value(r), end)));
    } else if s[p] == '-' && (s[q] == '-' || s[q] == '+') {
        assert(text::ws_end(s, p) == p);
        assert(text::ws_end(s, q) == q);
        factor_alone(s, 0, vars, x, p);
        factor_alone(s, p + 1, vars, y, q);
        let d = x - y;
        let r = if s[q] == '-' {
            x - y - z
        } else {
            x - y + z
        };
        sum_of_wholes(x, y);
        sum_of_wholes(x, -y);
        sum_of_wholes(d, z);
        sum_of_wholes(d, -z);
        sum_of_wholes(r, 0);
        assert(formula::more_terms(s, end, whole_value(r), vars) == Some((whole_value(r), end)));
        assert(formula::more_terms(s, q, whole_value(d), vars) == Some((whole_value(r), end)));
        assert(formula::more_terms(s, p, whole_value(x), vars) == Some((whole_value(r), end)));
    }
}

// ---------------------------------------------------------------------------
// Functions
// ---------------------------------------------------------------------------
/// `min` and `max` are the smaller and the larger of two values, `clamp` a value
/// held between two others.
pub proof fn functions_choose(a: int, b: int, c: int)
    requires
        -10_000 <= a <= 10_000,
        -10_000 <= b <= 10_000,
        -10_000 <= c <= 10_000,
    ensures
        formula::arity("min"@) == 2,
        formula::arity("max"@) == 2,
        formula::arity("clamp"@) == 3,
        formula::applied("min"@, whole_value(a), whole_value(b), whole_value(0)) == Some(
            whole_value(
                if a <= b {
                    a
                } else {
                    b
                },
            ),
        ),
        formula::applied("max"@, whole_value(a), whole_value(b), whole_value(0)) == Some(
            whole_value(
                if a >= b {
                    a
                } else {
                    b
                },
            ),
        ),
        b <= c && b <= a <= c ==> formula::applied("clamp"@, whole_value(a), whole_value(b), whole_value(c))
            == Some(whole_value(a)),
        b <= c && a < b ==> formula::applied("clamp"@, whole_value(a), whole_value(b), whole_value(c))
            == Some(whole_value(b)),
        b <= c && c < a ==> formula::applied("clamp"@, whole_value(a), whole_value(b), whole_value(c))
            == Some(whole_value(c)),
{
    function_names_differ();
}

proof fn function_names_differ()
    ensures
        "min"@ != "clamp"@,
        "max"@ != "clamp"@,
        "min"@ != "max"@,
        "round"@ != "clamp"@ && "round"@ != "min"@ && "round"@ != "max"@,
        "floor"@ != "clamp"@ && "floor"@ != "min"@ && "floor"@ != "max"@ && "floor"@ != "round"@,
        "ceil"@ != "clamp"@ && "ceil"@ != "min"@ && "ceil"@ != "max"@ && "ceil"@ != "round"@
            && "ceil"@ != "floor"@,
{
    reveal_strlit("min");
    reveal_strlit("max");
    reveal_strlit("clamp");
    reveal_strlit("round");
    reveal_strlit("floor");
    reveal_strlit("ceil");
    assert("min"@.len() == 3 && "max"@.len() == 3 && "ceil"@.len() == 4);
    assert("clamp"@.len() == 5 && "round"@.len() == 5 && "floor"@.len() == 5);
    assert("min"@[1] != "max"@[1]);
    assert("round"@[0] != "clamp"@[0]);
    assert("floor"@[0] != "clamp"@[0]);
    assert("floor"@[0] != "round"@[0]);
}

/// `floor` is the last whole number that is not above a value, `ceil` the first
/// that is not below it, and `round` the nearest.
pub proof fn functions_round(q: Quotient)
    requires
        -10_000 <= q.num <= 10_000,
        0 < q.den <= 10_000,
    ensures
        formula::arity("floor"@) == 1 && formula::arity("ceil"@) == 1 && formula::arity("round"@) == 1,
        formula::applied("floor"@, q, whole_value(0), whole_value(0)) matches Some(v) && v.den == 1 && v.num
            * q.den <= q.num < (v.num + 1) * q.den,
        formula::applied("ceil"@, q, whole_value(0), whole_value(0)) matches Some(v) && v.den == 1 && (v.num
            - 1) * q.den < q.num <= v.num * q.den,
        formula::applied("round"@, q, whole_value(0), whole_value(0)) matches Some(v) && v.den == 1
            && -q.den <= 2 * (v.num * q.den - q.num) <= q.den,
{
    function_names_differ();
    nearest_is_near(q);
    floor_is_below(q);
    floor_is_below(formula::opposite(q));
    let d = q.den as int;
    let u = -formula::floor_of(formula::opposite(q));
    assert((u - 1) * d < q.num <= u * d) by (nonlinear_arith)
        requires
            (-u) * d <= -q.num < (-u + 1) * d,
            d == q.den,
    ;
    let v = formula::nearest_whole(q);
    assert(-20_000 <= v <= 20_000) by (nonlinear_arith)
        requires
            -d <= 2 * (v * d - q.num) <= d,
            -10_000 <= q.num <= 10_000,
            d > 0,
    ;
}

proof fn floor_is_below(q: Quotient)
    requires
        -10_000 <= q.num <= 10_000,
        0 < q.den <= 10_000,
    ensures
        formula::floor_of(q) * q.den <= q.num < (formula::floor_of(q) + 1) * q.den,
        -10_000 <= formula::floor_of(q) <= 10_000,
{
    let d = q.den as int;
    let n = q.num as int;
    let v = formula::floor_of(q);
    if n >= 0 {
        assert(v * d <= n < (v + 1) * d) by (nonlinear_arith)
            requires
                v == n / d,
                d > 0,
        ;
    } else {
        let w = (-n + d - 1) / d;
        assert((-w) * d <= n < (-w + 1) * d) by (nonlinear_arith)
            requires
                w == (-n + d - 1) / d,
                d > 0,
        ;
        assert(v == -w);
    }
    assert(-10_000 <= v <= 10_000) by (nonlinear_arith)
        requires
            v * d <= n < (v + 1) * d,
            -10_000 <= n <= 10_000,
            d > 0,
    ;
}

/// A call gives its function the values between its brackets, in their order.
pub proof fn calls_take_their_values(
    s: Seq<char>,
    vars: FormulaVars,
    name: Seq<char>,
    x: int,
    p: int,
    y: int,
    q: int,
)
    requires
        name == "min"@ || name == "max"@,
        name.len() < s.len(),
        s.take(name.len() as int) == name,
        s[name.len() as int] == '(',
        operand(s, name.len() as int + 1, vars, x, p),
        text::at(s, p, ','),
        operand(s, p + 1, vars, y, q),
        text::at(s, q, ')'),
        q + 1 == s.len(),
    ensures
        name == "min"@ ==> formula::formula_value(s, vars) == Some(
            if x <= y {
                x
            } else {
                y
            },
        ),
        name == "max"@ ==> formula::formula_value(s, vars) == Some(
            if x >= y {
                x
            } else {
                y
            },
        ),
{
    let open = name.len() as int;
    let end = s.len() as int;
    reveal_strlit("min");
    reveal_strlit("max");
    function_names_differ();
    functions_choose(x, y, 0);
    assert(s.subrange(0, open) =~= s.take(open));
    name_is_read(s, 0, name, 0);
    assert(s.take(open)[0] == s[0]);
    assert(text::ws_end(s, 0) == 0);
    assert(text::ws_end(s, open) == open);
    assert(text::ws_end(s, p) == p);
    assert(text::ws_end(s, q) == q);
    assert(text::ws_end(s, end) == end);
    factor_alone(s, open + 1, vars, x, p);
    factor_alone(s, p + 1, vars, y, q);
    let a = whole_value(x);
    let b = whole_value(y);
    let zero = whole_value(0);
    assert(formula::more_terms(s, p, a, vars) == Some((a, p)));
    assert(formula::more_terms(s, q, b, vars) == Some((b, q)));
    assert(formula::sum_at(s, open + 1, vars) == Some((a, p)));
    assert(formula::sum_at(s, p + 1, vars) == Some((b, q)));
    assert(formula::values_at(s, p + 1, 1, vars) == Some((b, zero, zero, end)));
    assert(formula::values_at(s, open + 1, 2, vars) == Some((a, b, zero, end)));
    let v = formula::applied(name, a, b, zero)->0;
    assert(formula::factor_at(s, 0, vars) == Some((v, end)));
    assert(formula::more_factors(s, end, v, vars) == Some((v, end)));
    assert(formula::term_at(s, 0, vars) == Some((v, end)));
    assert(formula::more_terms(s, end, v, vars) == Some((v, end)));
    sum_of_wholes(x, y);
    sum_of_wholes(y, x);
}

} // verus!
