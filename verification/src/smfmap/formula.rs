//! Formulas for MIDI values in register rules, such as
//! `expr: clamp(127 - round(data * 127 / 63), 0, 127)`.

use vstd::prelude::*;
use vstd::slice::slice_subrange;

use crate::text;
use crate::text::{char_at, chars_are, chars_of, skip_ws};

verus! {

// ---------------------------------------------------------------------------
// Quotients
// ---------------------------------------------------------------------------
/// The largest numerator and denominator that a formula computes with.
pub const LIMIT: i128 = 1_000_000_000_000;

/// An exact value in a formula.
#[derive(Clone, Copy, Debug, PartialEq, Eq, Structural)]
pub struct Quotient {
    pub num: i128,
    pub den: i128,
}

impl Quotient {
    /// A value that formulas compute with.
    pub open spec fn is_small(self) -> bool {
        -LIMIT <= self.num <= LIMIT && 0 < self.den <= LIMIT
    }
}

/// A value, unless it is too large.
pub open spec fn small(num: int, den: int) -> Option<Quotient> {
    if -LIMIT <= num <= LIMIT && 0 < den <= LIMIT {
        Some(Quotient { num: num as i128, den: den as i128 })
    } else {
        None
    }
}

pub open spec fn sum_of(a: Quotient, b: Quotient) -> Option<Quotient> {
    small(a.num * b.den + b.num * a.den, a.den * b.den)
}

pub open spec fn opposite(a: Quotient) -> Quotient {
    Quotient { num: (-a.num) as i128, den: a.den }
}

pub open spec fn product_of(a: Quotient, b: Quotient) -> Option<Quotient> {
    small(a.num * b.num, a.den * b.den)
}

/// The reciprocal of a value that is not zero.
pub open spec fn inverse(a: Quotient) -> Quotient {
    if a.num > 0 {
        Quotient { num: a.den, den: a.num }
    } else {
        Quotient { num: (-a.den) as i128, den: (-a.num) as i128 }
    }
}

pub open spec fn is_less(a: Quotient, b: Quotient) -> bool {
    a.num * b.den < b.num * a.den
}

pub open spec fn lesser(a: Quotient, b: Quotient) -> Quotient {
    if is_less(b, a) {
        b
    } else {
        a
    }
}

pub open spec fn greater(a: Quotient, b: Quotient) -> Quotient {
    if is_less(a, b) {
        b
    } else {
        a
    }
}

/// The largest whole number that is not above a value.
pub open spec fn floor_of(a: Quotient) -> int {
    if a.num >= 0 {
        a.num as int / a.den as int
    } else {
        -((-a.num + a.den - 1) / a.den as int)
    }
}

/// The nearest whole number; halves go away from zero.
pub open spec fn nearest_whole(a: Quotient) -> int {
    if a.num >= 0 {
        (2 * a.num + a.den) / (2 * a.den)
    } else {
        -((2 * (-a.num) + a.den) / (2 * a.den))
    }
}

fn times(a: i128, b: i128) -> (r: i128)
    requires
        -LIMIT <= a <= LIMIT,
        -LIMIT <= b <= LIMIT,
    ensures
        r == a * b,
        -1_000_000_000_000_000_000_000_000 <= r <= 1_000_000_000_000_000_000_000_000,
{
    assert(-1_000_000_000_000_000_000_000_000 <= a * b <= 1_000_000_000_000_000_000_000_000)
        by (nonlinear_arith)
        requires
            -1_000_000_000_000 <= a <= 1_000_000_000_000,
            -1_000_000_000_000 <= b <= 1_000_000_000_000,
    ;
    a * b
}

fn keep_small(num: i128, den: i128) -> (r: Option<Quotient>)
    ensures
        r == small(num as int, den as int),
        r matches Some(q) ==> q.is_small(),
{
    if -LIMIT <= num && num <= LIMIT && 0 < den && den <= LIMIT {
        Some(Quotient { num, den })
    } else {
        None
    }
}

impl Quotient {
    fn plus(self, b: Quotient) -> (r: Option<Quotient>)
        requires
            self.is_small(),
            b.is_small(),
        ensures
            r == sum_of(self, b),
            r matches Some(q) ==> q.is_small(),
    {
        let x = times(self.num, b.den);
        let y = times(b.num, self.den);
        keep_small(x + y, times(self.den, b.den))
    }

    fn negate(self) -> (r: Quotient)
        requires
            self.is_small(),
        ensures
            r == opposite(self),
            r.is_small(),
    {
        Quotient { num: -self.num, den: self.den }
    }

    fn multiply(self, b: Quotient) -> (r: Option<Quotient>)
        requires
            self.is_small(),
            b.is_small(),
        ensures
            r == product_of(self, b),
            r matches Some(q) ==> q.is_small(),
    {
        keep_small(times(self.num, b.num), times(self.den, b.den))
    }

    fn invert(self) -> (r: Quotient)
        requires
            self.is_small(),
            self.num != 0,
        ensures
            r == inverse(self),
            r.is_small(),
    {
        if self.num > 0 {
            Quotient { num: self.den, den: self.num }
        } else {
            Quotient { num: -self.den, den: -self.num }
        }
    }

    fn less(self, b: Quotient) -> (r: bool)
        requires
            self.is_small(),
            b.is_small(),
        ensures
            r == is_less(self, b),
    {
        times(self.num, b.den) < times(b.num, self.den)
    }

    fn floor(self) -> (r: i128)
        requires
            self.is_small(),
        ensures
            r == floor_of(self),
    {
        if self.num >= 0 {
            self.num / self.den
        } else {
            let n: i128 = -self.num + self.den - 1;
            let q: i128 = n / self.den;
            -q
        }
    }

    fn round(self) -> (r: i128)
        requires
            self.is_small(),
        ensures
            r == nearest_whole(self),
    {
        if self.num >= 0 {
            let n: i128 = 2 * self.num + self.den;
            n / (2 * self.den)
        } else {
            let m: i128 = -self.num;
            let n: i128 = 2 * m + self.den;
            let q: i128 = n / (2 * self.den);
            -q
        }
    }
}

// ---------------------------------------------------------------------------
// Names and numbers
// ---------------------------------------------------------------------------
/// What the names in a formula stand for.
#[derive(Clone, Copy, Debug, PartialEq, Eq, Structural)]
pub struct FormulaVars {
    pub register: u8,
    pub data: u8,
    pub source_step: Option<Quotient>,
    pub midi_tick: Option<u64>,
    pub track: Option<u8>,
    pub family: Option<u8>,
    pub tone: Option<u8>,
    pub envelope: Option<u8>,
}

impl FormulaVars {
    /// A register write of which nothing more is known.
    pub open spec fn bare(register: u8, data: u8) -> Self {
        FormulaVars {
            register,
            data,
            source_step: None,
            midi_tick: None,
            track: None,
            family: None,
            tone: None,
            envelope: None,
        }
    }

    pub fn of_write(register: u8, data: u8) -> (r: Self)
        ensures
            r == Self::bare(register, data),
    {
        FormulaVars {
            register,
            data,
            source_step: None,
            midi_tick: None,
            track: None,
            family: None,
            tone: None,
            envelope: None,
        }
    }
}

/// A number of a byte, if it is known.
pub open spec fn byte_value(n: Option<u8>) -> Option<Quotient> {
    match n {
        Some(n) => Some(Quotient { num: n as i128, den: 1 }),
        None => None,
    }
}

/// What a name stands for. One whose value is not known, or too large, stands for
/// nothing.
pub open spec fn variable(name: Seq<char>, vars: FormulaVars) -> Option<Quotient> {
    if name == "data"@ {
        byte_value(Some(vars.data))
    } else if name == "register"@ {
        byte_value(Some(vars.register))
    } else if name == "source_step"@ {
        match vars.source_step {
            Some(q) => small(q.num as int, q.den as int),
            None => None,
        }
    } else if name == "midi_tick"@ {
        match vars.midi_tick {
            Some(tick) => small(tick as int, 1),
            None => None,
        }
    } else if name == "track"@ {
        byte_value(vars.track)
    } else if name == "family"@ {
        byte_value(vars.family)
    } else if name == "tone"@ {
        byte_value(vars.tone)
    } else if name == "envelope"@ {
        byte_value(vars.envelope)
    } else {
        None
    }
}

/// A value, unless it is too large.
pub fn small_value(num: i128, den: i128) -> (r: Option<Quotient>)
    ensures
        r == small(num as int, den as int),
        r matches Some(q) ==> q.is_small(),
{
    if -LIMIT <= num && num <= LIMIT && 0 < den && den <= LIMIT {
        Some(Quotient { num, den })
    } else {
        None
    }
}

fn byte_quotient(n: Option<u8>) -> (r: Option<Quotient>)
    ensures
        r == byte_value(n),
        r matches Some(q) ==> q.is_small(),
{
    match n {
        Some(n) => Some(Quotient { num: n as i128, den: 1 }),
        None => None,
    }
}

/// How many values a function takes; no function takes none.
pub open spec fn arity(name: Seq<char>) -> nat {
    if name == "clamp"@ {
        3
    } else if name == "min"@ || name == "max"@ {
        2
    } else if name == "round"@ || name == "floor"@ || name == "ceil"@ {
        1
    } else {
        0
    }
}

/// The value of a function.
pub open spec fn applied(name: Seq<char>, a: Quotient, b: Quotient, c: Quotient) -> Option<
    Quotient,
> {
    if name == "clamp"@ {
        Some(lesser(greater(a, b), c))
    } else if name == "min"@ {
        Some(lesser(a, b))
    } else if name == "max"@ {
        Some(greater(a, b))
    } else if name == "round"@ {
        small(nearest_whole(a), 1)
    } else if name == "floor"@ {
        small(floor_of(a), 1)
    } else {
        small(-floor_of(opposite(a)), 1)
    }
}

fn look_up(name: &[char], vars: FormulaVars) -> (r: Option<Quotient>)
    ensures
        r == variable(name@, vars),
        r matches Some(q) ==> q.is_small(),
{
    if chars_are(name, "data") {
        byte_quotient(Some(vars.data))
    } else if chars_are(name, "register") {
        byte_quotient(Some(vars.register))
    } else if chars_are(name, "source_step") {
        match vars.source_step {
            Some(q) => small_value(q.num, q.den),
            None => None,
        }
    } else if chars_are(name, "midi_tick") {
        match vars.midi_tick {
            Some(tick) => small_value(tick as i128, 1),
            None => None,
        }
    } else if chars_are(name, "track") {
        byte_quotient(vars.track)
    } else if chars_are(name, "family") {
        byte_quotient(vars.family)
    } else if chars_are(name, "tone") {
        byte_quotient(vars.tone)
    } else if chars_are(name, "envelope") {
        byte_quotient(vars.envelope)
    } else {
        None
    }
}

fn arity_of(name: &[char]) -> (r: u8)
    ensures
        r == arity(name@),
{
    if chars_are(name, "clamp") {
        3
    } else if chars_are(name, "min") || chars_are(name, "max") {
        2
    } else if chars_are(name, "round") || chars_are(name, "floor") || chars_are(name, "ceil") {
        1
    } else {
        0
    }
}

fn smaller_of(a: Quotient, b: Quotient) -> (r: Quotient)
    requires
        a.is_small(),
        b.is_small(),
    ensures
        r == lesser(a, b),
        r.is_small(),
{
    if b.less(a) {
        b
    } else {
        a
    }
}

fn larger_of(a: Quotient, b: Quotient) -> (r: Quotient)
    requires
        a.is_small(),
        b.is_small(),
    ensures
        r == greater(a, b),
        r.is_small(),
{
    if a.less(b) {
        b
    } else {
        a
    }
}

fn apply(name: &[char], a: Quotient, b: Quotient, c: Quotient) -> (r: Option<Quotient>)
    requires
        a.is_small(),
        b.is_small(),
        c.is_small(),
    ensures
        r == applied(name@, a, b, c),
        r matches Some(q) ==> q.is_small(),
{
    if chars_are(name, "clamp") {
        Some(smaller_of(larger_of(a, b), c))
    } else if chars_are(name, "min") {
        Some(smaller_of(a, b))
    } else if chars_are(name, "max") {
        Some(larger_of(a, b))
    } else if chars_are(name, "round") {
        keep_small(a.round(), 1)
    } else if chars_are(name, "floor") {
        keep_small(a.floor(), 1)
    } else {
        let f: i128 = a.negate().floor();
        assert(-LIMIT <= f <= LIMIT) by {
            floor_is_small(opposite(a));
        }
        keep_small(-f, 1)
    }
}

proof fn floor_is_small(a: Quotient)
    requires
        a.is_small(),
    ensures
        -LIMIT <= floor_of(a) <= LIMIT,
{
    let d = a.den as int;
    if a.num >= 0 {
        let n = a.num as int;
        assert(0 <= n / d <= n) by (nonlinear_arith)
            requires
                0 <= n,
                d >= 1,
        ;
    } else {
        let n = -a.num as int;
        assert(0 <= (n + d - 1) / d <= n) by (nonlinear_arith)
            requires
                n >= 1,
                d >= 1,
        ;
    }
}

pub open spec fn is_name_char(c: char) -> bool {
    'a' <= c <= 'z' || c == '_'
}

/// The end of the name at `pos`.
pub open spec fn name_end(s: Seq<char>, pos: int) -> int
    decreases s.len() - pos,
{
    if 0 <= pos < s.len() && is_name_char(s[pos]) {
        name_end(s, pos + 1)
    } else {
        pos
    }
}

fn find_name_end(s: &[char], pos: usize) -> (r: usize)
    requires
        pos <= s@.len(),
    ensures
        r == name_end(s@, pos as int),
        pos <= r <= s@.len(),
        pos < s@.len() && is_name_char(s@[pos as int]) ==> pos < r,
{
    let mut p: usize = pos;
    while p < s.len() && (('a' <= s[p] && s[p] <= 'z') || s[p] == '_')
        invariant
            pos <= p <= s@.len(),
            name_end(s@, pos as int) == name_end(s@, p as int),
            p == pos || is_name_char(s@[pos as int]),
        decreases s@.len() - p,
    {
        p += 1;
    }
    p
}

/// The number at `pos`, after the digits read so far, and its end.
pub open spec fn number_from(s: Seq<char>, pos: int, num: int, den: int, point: bool) -> Option<
    (Quotient, int),
>
    decreases s.len() - pos,
{
    if 0 <= pos < s.len() && text::is_digit(s[pos]) {
        let n = num * 10 + (s[pos] as int - 48);
        let d = if point {
            den * 10
        } else {
            den
        };
        match small(n, d) {
            Some(_) => number_from(s, pos + 1, n, d, point),
            None => None,
        }
    } else if 0 <= pos < s.len() && s[pos] == '.' && !point {
        number_from(s, pos + 1, num, den, true)
    } else {
        match small(num, den) {
            Some(q) => Some((q, pos)),
            None => None,
        }
    }
}

fn read_number(s: &[char], pos: usize) -> (r: Option<(Quotient, usize)>)
    requires
        pos < s@.len(),
        text::is_digit(s@[pos as int]),
    ensures
        placed_value(r) == number_from(s@, pos as int, 0, 1, false),
        r matches Some((q, p)) ==> q.is_small() && q.num >= 0 && pos < p <= s@.len(),
{
    let mut num: i128 = 0;
    let mut den: i128 = 1;
    let mut point: bool = false;
    let mut p: usize = pos;
    while p < s.len()
        invariant
            pos <= p <= s@.len(),
            pos < s@.len(),
            text::is_digit(s@[pos as int]),
            0 <= num <= LIMIT,
            0 < den <= LIMIT,
            number_from(s@, pos as int, 0, 1, false) == number_from(
                s@,
                p as int,
                num as int,
                den as int,
                point,
            ),
        decreases s@.len() - p,
    {
        let c = s[p];
        if '0' <= c && c <= '9' {
            let digit: i128 = c as u32 as i128 - 48;
            let n: i128 = num * 10 + digit;
            let d: i128 = if point {
                den * 10
            } else {
                den
            };
            if keep_small(n, d).is_none() {
                return None;
            }
            num = n;
            den = d;
        } else if c == '.' && !point {
            point = true;
        } else {
            return Some((Quotient { num, den }, p));
        }
        p += 1;
    }
    Some((Quotient { num, den }, p))
}

/// The number that a whole text stands for, in decimal notation.
pub open spec fn decimal_value(s: Seq<char>) -> Option<Quotient> {
    if s.len() > 0 && text::is_digit(s[0]) {
        match number_from(s, 0, 0, 1, false) {
            Some((q, p)) => if p == s.len() {
                Some(q)
            } else {
                None
            },
            None => None,
        }
    } else {
        None
    }
}

pub fn read_decimal(text: &str) -> (r: Option<Quotient>)
    ensures
        r == decimal_value(text@),
        r matches Some(q) ==> q.is_small() && q.num >= 0,
{
    let s = chars_of(text);
    if s.len() == 0 || s[0] < '0' || s[0] > '9' {
        return None;
    }
    match read_number(&s, 0) {
        Some((q, p)) => if p == s.len() {
            Some(q)
        } else {
            None
        },
        None => None,
    }
}

pub open spec fn placed_value(r: Option<(Quotient, usize)>) -> Option<(Quotient, int)> {
    match r {
        Some((q, p)) => Some((q, p as int)),
        None => None,
    }
}

// ---------------------------------------------------------------------------
// Formulas
// ---------------------------------------------------------------------------
/// A sum at `pos`: its value and its end.
pub open spec fn sum_at(s: Seq<char>, pos: int, vars: FormulaVars) -> Option<(Quotient, int)>
    decreases s.len() - pos, 4int,
{
    match term_at(s, pos, vars) {
        Some((a, p)) => if pos < p <= s.len() {
            more_terms(s, p, a, vars)
        } else {
            None
        },
        None => None,
    }
}

/// What follows a term in a sum.
pub open spec fn more_terms(s: Seq<char>, pos: int, a: Quotient, vars: FormulaVars) -> Option<
    (Quotient, int),
>
    decreases s.len() - pos, 0int,
{
    let p = text::ws_end(s, pos);
    if pos <= p < s.len() && (s[p] == '+' || s[p] == '-') {
        match term_at(s, p + 1, vars) {
            Some((b, q)) => if p < q <= s.len() {
                match sum_of(
                    a,
                    if s[p] == '+' {
                        b
                    } else {
                        opposite(b)
                    },
                ) {
                    Some(c) => more_terms(s, q, c, vars),
                    None => None,
                }
            } else {
                None
            },
            None => None,
        }
    } else {
        Some((a, p))
    }
}

/// A product at `pos`: its value and its end.
pub open spec fn term_at(s: Seq<char>, pos: int, vars: FormulaVars) -> Option<(Quotient, int)>
    decreases s.len() - pos, 3int,
{
    match factor_at(s, pos, vars) {
        Some((a, p)) => if pos < p <= s.len() {
            more_factors(s, p, a, vars)
        } else {
            None
        },
        None => None,
    }
}

/// What follows a factor in a product. Nothing is divided by zero.
pub open spec fn more_factors(s: Seq<char>, pos: int, a: Quotient, vars: FormulaVars) -> Option<
    (Quotient, int),
>
    decreases s.len() - pos, 0int,
{
    let p = text::ws_end(s, pos);
    if pos <= p < s.len() && (s[p] == '*' || s[p] == '/') {
        match factor_at(s, p + 1, vars) {
            Some((b, q)) => if p < q <= s.len() && (s[p] == '*' || b.num != 0) {
                match product_of(
                    a,
                    if s[p] == '*' {
                        b
                    } else {
                        inverse(b)
                    },
                ) {
                    Some(c) => more_factors(s, q, c, vars),
                    None => None,
                }
            } else {
                None
            },
            None => None,
        }
    } else {
        Some((a, p))
    }
}

/// A number, a name, a call or a formula in brackets, perhaps negated.
pub open spec fn factor_at(s: Seq<char>, pos: int, vars: FormulaVars) -> Option<(Quotient, int)>
    decreases s.len() - pos, 1int,
{
    let p = text::ws_end(s, pos);
    if !(pos <= p < s.len()) {
        None
    } else if s[p] == '-' {
        match factor_at(s, p + 1, vars) {
            Some((a, q)) => Some((opposite(a), q)),
            None => None,
        }
    } else if s[p] == '(' {
        match sum_at(s, p + 1, vars) {
            Some((a, q)) => if text::at(s, text::ws_end(s, q), ')') {
                Some((a, text::ws_end(s, q) + 1))
            } else {
                None
            },
            None => None,
        }
    } else if text::is_digit(s[p]) {
        number_from(s, p, 0, 1, false)
    } else if is_name_char(s[p]) {
        let e = name_end(s, p);
        let name = s.subrange(p, e);
        let open = text::ws_end(s, e);
        if text::at(s, open, '(') {
            if arity(name) > 0 && p < open {
                match values_at(s, open + 1, arity(name), vars) {
                    Some((a, b, c, q)) => match applied(name, a, b, c) {
                        Some(v) => Some((v, q)),
                        None => None,
                    },
                    None => None,
                }
            } else {
                None
            }
        } else {
            match variable(name, vars) {
                Some(v) => Some((v, e)),
                None => None,
            }
        }
    } else {
        None
    }
}

/// One to three values up to the closing bracket; those not asked for are zero.
pub open spec fn values_at(s: Seq<char>, pos: int, n: nat, vars: FormulaVars) -> Option<
    (Quotient, Quotient, Quotient, int),
>
    decreases s.len() - pos, 5int,
{
    let zero = Quotient { num: 0, den: 1 };
    match sum_at(s, pos, vars) {
        Some((a, p)) => {
            let q = text::ws_end(s, p);
            if n == 1 {
                if text::at(s, q, ')') {
                    Some((a, zero, zero, q + 1))
                } else {
                    None
                }
            } else if text::at(s, q, ',') && pos < q {
                match values_at(s, q + 1, (n - 1) as nat, vars) {
                    Some((b, c, _, e)) => Some((a, b, c, e)),
                    None => None,
                }
            } else {
                None
            }
        },
        None => None,
    }
}

/// The value of a whole formula, as the nearest whole number.
pub open spec fn formula_value(s: Seq<char>, vars: FormulaVars) -> Option<int> {
    match sum_at(s, 0, vars) {
        Some((q, p)) => if text::ws_end(s, p) == s.len() {
            Some(nearest_whole(q))
        } else {
            None
        },
        None => None,
    }
}

fn read_sum(s: &[char], pos: usize, vars: FormulaVars) -> (r: Option<(Quotient, usize)>)
    requires
        pos <= s@.len(),
    ensures
        placed_value(r) == sum_at(s@, pos as int, vars),
        r matches Some((q, p)) ==> q.is_small() && pos < p <= s@.len(),
    decreases s@.len() - pos, 4int,
{
    let (first, after_first) = match read_term(s, pos, vars) {
        Some(v) => v,
        None => {
            return None;
        },
    };
    let mut a = first;
    let mut p: usize = after_first;
    loop
        invariant
            pos < p <= s@.len(),
            a.is_small(),
            sum_at(s@, pos as int, vars) == more_terms(s@, p as int, a, vars),
        decreases s@.len() - p,
    {
        let op = skip_ws(s, p);
        let plus = char_at(s, op, '+');
        if !plus && !char_at(s, op, '-') {
            return Some((a, op));
        }
        let (b, q) = match read_term(s, op + 1, vars) {
            Some(v) => v,
            None => {
                return None;
            },
        };
        let sum = if plus {
            a.plus(b)
        } else {
            a.plus(b.negate())
        };
        match sum {
            Some(c) => {
                a = c;
                p = q;
            },
            None => {
                return None;
            },
        }
    }
}

fn read_term(s: &[char], pos: usize, vars: FormulaVars) -> (r: Option<(Quotient, usize)>)
    requires
        pos <= s@.len(),
    ensures
        placed_value(r) == term_at(s@, pos as int, vars),
        r matches Some((q, p)) ==> q.is_small() && pos < p <= s@.len(),
    decreases s@.len() - pos, 3int,
{
    let (first, after_first) = match read_factor(s, pos, vars) {
        Some(v) => v,
        None => {
            return None;
        },
    };
    let mut a = first;
    let mut p: usize = after_first;
    loop
        invariant
            pos < p <= s@.len(),
            a.is_small(),
            term_at(s@, pos as int, vars) == more_factors(s@, p as int, a, vars),
        decreases s@.len() - p,
    {
        let op = skip_ws(s, p);
        let multiplies = char_at(s, op, '*');
        if !multiplies && !char_at(s, op, '/') {
            return Some((a, op));
        }
        let (b, q) = match read_factor(s, op + 1, vars) {
            Some(v) => v,
            None => {
                return None;
            },
        };
        if !multiplies && b.num == 0 {
            return None;
        }
        let product = if multiplies {
            a.multiply(b)
        } else {
            a.multiply(b.invert())
        };
        match product {
            Some(c) => {
                a = c;
                p = q;
            },
            None => {
                return None;
            },
        }
    }
}

fn read_factor(s: &[char], pos: usize, vars: FormulaVars) -> (r: Option<(Quotient, usize)>)
    requires
        pos <= s@.len(),
    ensures
        placed_value(r) == factor_at(s@, pos as int, vars),
        r matches Some((q, p)) ==> q.is_small() && pos < p <= s@.len(),
    decreases s@.len() - pos, 1int,
{
    let p = skip_ws(s, pos);
    if p >= s.len() {
        return None;
    }
    let c = s[p];
    if c == '-' {
        return match read_factor(s, p + 1, vars) {
            Some((a, q)) => Some((a.negate(), q)),
            None => None,
        };
    }
    if c == '(' {
        return match read_sum(s, p + 1, vars) {
            Some((a, q)) => {
                let close = skip_ws(s, q);
                if char_at(s, close, ')') {
                    Some((a, close + 1))
                } else {
                    None
                }
            },
            None => None,
        };
    }
    if '0' <= c && c <= '9' {
        return read_number(s, p);
    }
    if !(('a' <= c && c <= 'z') || c == '_') {
        return None;
    }
    let e = find_name_end(s, p);
    let name = slice_subrange(s, p, e);
    let open = skip_ws(s, e);
    if !char_at(s, open, '(') {
        return match look_up(name, vars) {
            Some(v) => Some((v, e)),
            None => None,
        };
    }
    let n = arity_of(name);
    if n == 0 {
        return None;
    }
    match read_values(s, open + 1, n, vars) {
        Some((a, b, c, q)) => match apply(name, a, b, c) {
            Some(v) => Some((v, q)),
            None => None,
        },
        None => None,
    }
}

fn read_values(s: &[char], pos: usize, n: u8, vars: FormulaVars) -> (r: Option<
    (Quotient, Quotient, Quotient, usize),
>)
    requires
        pos <= s@.len(),
        n >= 1,
    ensures
        match r {
            Some((a, b, c, p)) => values_at(s@, pos as int, n as nat, vars) == Some(
                (a, b, c, p as int),
            ) && a.is_small() && b.is_small() && c.is_small() && pos < p <= s@.len(),
            None => values_at(s@, pos as int, n as nat, vars) is None,
        },
    decreases s@.len() - pos, 5int,
{
    let zero = Quotient { num: 0, den: 1 };
    let (a, p) = match read_sum(s, pos, vars) {
        Some(v) => v,
        None => {
            return None;
        },
    };
    let q = skip_ws(s, p);
    if n == 1 {
        if char_at(s, q, ')') {
            return Some((a, zero, zero, q + 1));
        }
        return None;
    }
    if !char_at(s, q, ',') {
        return None;
    }
    match read_values(s, q + 1, n - 1, vars) {
        Some((b, c, _, e)) => Some((a, b, c, e)),
        None => None,
    }
}

/// The value of a formula, if it has one: it is well formed, divides by nothing
/// that is zero, and holds no number that is too large.
pub fn evaluate_formula(text: &str, vars: FormulaVars) -> (r: Option<i128>)
    ensures
        match r {
            Some(n) => formula_value(text@, vars) == Some(n as int),
            None => formula_value(text@, vars) is None,
        },
{
    let s = chars_of(text);
    match read_sum(&s, 0, vars) {
        Some((q, p)) => if skip_ws(&s, p) == s.len() {
            Some(q.round())
        } else {
            None
        },
        None => None,
    }
}

} // verus!
