//! Non-negative decimal numbers as an operator types them.
use vstd::prelude::*;
use vstd::string::*;

use crate::text::{
    chars_of, decimal, decimal_text, digit_char, digit_value, is_digit, lemma_decimal_digits,
};

verus! {

/// Nanoseconds in one second.
pub const NANOS: u64 = 1_000_000_000;

/// Longest text that is read as a number.
pub const MAX_DIGITS: usize = 24;

/// A power of ten.
pub open spec fn pow10(n: nat) -> nat
    decreases n,
{
    if n == 0 {
        1
    } else {
        10 * pow10((n - 1) as nat)
    }
}

/// The number `mantissa / 10^places`.
#[derive(Debug, Clone, Copy, PartialEq, Eq, Structural)]
pub struct Decimal {
    /// All digits as one number.
    pub mantissa: u128,
    /// How many of the digits stand behind the point.
    pub places: u32,
}

/// How many points a text holds.
pub open spec fn points(s: Seq<char>) -> nat
    decreases s.len(),
{
    if s.len() == 0 {
        0
    } else if s.last() == '.' {
        points(s.drop_last()) + 1
    } else {
        points(s.drop_last())
    }
}

/// How many digits stand behind the last point.
pub open spec fn places(s: Seq<char>) -> nat
    decreases s.len(),
{
    if s.len() == 0 || s.last() == '.' || points(s.drop_last()) == 0 {
        0
    } else {
        places(s.drop_last()) + 1
    }
}

/// The digits of a text as one number.
pub open spec fn mantissa(s: Seq<char>) -> nat
    decreases s.len(),
{
    if s.len() == 0 {
        0
    } else if s.last() == '.' {
        mantissa(s.drop_last())
    } else {
        mantissa(s.drop_last()) * 10 + digit_value(s.last())
    }
}

/// Every character is a digit or a point, and there is at most one point.
pub open spec fn digits_and_point(s: Seq<char>) -> bool {
    &&& forall|i: int| 0 <= i < s.len() ==> is_digit(#[trigger] s[i]) || s[i] == '.'
    &&& points(s) <= 1
}

/// The number that a text of digits and at most one point denotes; none if it has
/// no digit.
pub open spec fn number(s: Seq<char>) -> Option<Decimal> {
    if s.len() == points(s) {
        None
    } else {
        Some(Decimal { mantissa: mantissa(s) as u128, places: places(s) as u32 })
    }
}

pub proof fn lemma_pow10_bounds(n: nat)
    ensures
        1 <= pow10(n),
        n <= 24 ==> pow10(n) <= 1_000_000_000_000_000_000_000_000,
    decreases n,
{
    reveal_with_fuel(pow10, 26);
    if n > 24 {
        lemma_pow10_bounds((n - 1) as nat);
    }
}

proof fn lemma_number_bounds(s: Seq<char>)
    requires
        digits_and_point(s),
    ensures
        mantissa(s) < pow10(s.len()),
        places(s) <= s.len(),
        points(s) <= s.len(),
    decreases s.len(),
{
    if s.len() > 0 {
        let rest = s.drop_last();
        assert forall|i: int| 0 <= i < rest.len() implies is_digit(#[trigger] rest[i]) || rest[i]
            == '.' by {
            assert(rest[i] == s[i]);
        }
        lemma_number_bounds(rest);
        assert(s.last() == s[s.len() - 1]);
        assert(pow10(s.len()) == 10 * pow10(rest.len()));
    }
}

/// Read a number; none if there is no digit.
pub fn read_number(s: &str) -> (r: Option<Decimal>)
    requires
        digits_and_point(s@),
        s@.len() <= MAX_DIGITS,
    ensures
        r == number(s@),
        r matches Some(d) ==> d.wf(),
{
    let v = chars_of(s);
    let mut value: u128 = 0;
    let mut behind: u32 = 0;
    let mut seen: bool = false;
    let mut any: bool = false;
    let mut i: usize = 0;
    proof {
        lemma_pow10_bounds(0);
    }
    while i < v.len()
        invariant
            i <= v@.len(),
            v@ == s@,
            digits_and_point(s@),
            s@.len() <= MAX_DIGITS,
            value == mantissa(s@.take(i as int)),
            value < pow10(i as nat),
            behind == places(s@.take(i as int)),
            behind <= i,
            seen == (points(s@.take(i as int)) > 0),
            points(s@.take(i as int)) <= i,
            any == (points(s@.take(i as int)) < i),
        decreases v@.len() - i,
    {
        let c: char = v[i];
        proof {
            let rest = s@.take(i as int);
            let more = s@.take(i + 1);
            assert(more.drop_last() == rest);
            assert(more.last() == c);
            assert(is_digit(c) || c == '.');
            lemma_pow10_bounds(i as nat);
            lemma_pow10_bounds((i + 1) as nat);
            assert(pow10((i + 1) as nat) == 10 * pow10(i as nat));
        }
        if c == '.' {
            seen = true;
            behind = 0;
        } else {
            any = true;
            if seen {
                behind = behind + 1;
            }
            let digit: u32 = c as u32 - '0' as u32;
            value = value * 10 + digit as u128;
        }
        i += 1;
    }
    assert(s@.take(i as int) == s@);
    proof {
        lemma_pow10_bounds(i as nat);
    }
    if any {
        Some(Decimal { mantissa: value, places: behind })
    } else {
        None
    }
}

/// A power of ten.
fn power_of_ten(n: u32) -> (r: u128)
    requires
        n <= MAX_DIGITS,
    ensures
        r == pow10(n as nat),
        1 <= r <= 1_000_000_000_000_000_000_000_000,
{
    let mut r: u128 = 1;
    let mut i: u32 = 0;
    while i < n
        invariant
            i <= n,
            n <= MAX_DIGITS,
            r == pow10(i as nat),
        decreases n - i,
    {
        proof {
            lemma_pow10_bounds(i as nat);
            assert(pow10((i + 1) as nat) == 10 * pow10(i as nat));
        }
        r = r * 10;
        i += 1;
    }
    proof {
        lemma_pow10_bounds(n as nat);
    }
    r
}

impl Decimal {
    /// The digits and places are within what can be typed.
    pub open spec fn wf(&self) -> bool {
        self.mantissa < 1_000_000_000_000_000_000_000_000 && self.places <= MAX_DIGITS
    }

    /// Ten to the number of places.
    pub open spec fn scale(&self) -> nat {
        pow10(self.places as nat)
    }

    /// Whether the number is at least a twentieth: as seconds, 50 milliseconds.
    pub open spec fn at_least_a_twentieth(&self) -> bool {
        self.mantissa * 20 >= self.scale()
    }

    /// The number of whole nanoseconds in so many seconds, at most the largest
    /// count.
    pub open spec fn nanoseconds(&self) -> u64 {
        let ns = (self.mantissa * NANOS) as nat / self.scale();
        if ns > u64::MAX {
            u64::MAX
        } else {
            ns as u64
        }
    }

    /// Seconds as nanoseconds, if they make up at least 50 milliseconds.
    pub fn refresh_nanoseconds(&self) -> (r: Option<u64>)
        requires
            self.wf(),
        ensures
            match r {
                Some(ns) => self.at_least_a_twentieth() && ns == self.nanoseconds(),
                None => !self.at_least_a_twentieth(),
            },
    {
        let scale: u128 = power_of_ten(self.places);
        if self.mantissa * 20 < scale {
            return None;
        }
        let nanos: u128 = 1_000_000_000;
        assert(nanos == NANOS);
        let ns: u128 = self.mantissa * nanos / scale;
        if ns > u64::MAX as u128 {
            Some(u64::MAX)
        } else {
            Some(ns as u64)
        }
    }

    /// The nearest whole number; a half goes to the even one.
    pub open spec fn rounded(&self) -> nat {
        half_even(self.mantissa as nat, self.scale())
    }

    /// The nearest whole number, as text.
    pub fn rounded_text(&self) -> (r: String)
        requires
            self.wf(),
        ensures
            r@ == decimal(self.rounded()),
            self.rounded() <= self.mantissa,
    {
        let scale: u128 = power_of_ten(self.places);
        let q: u128 = self.mantissa / scale;
        let rest: u128 = self.mantissa % scale;
        let up: bool = 2 * rest > scale || (2 * rest == scale && q % 2 == 1);
        proof {
            lemma_quotient(self.mantissa as int, scale as int);
        }
        if up {
            decimal_text(q + 1)
        } else {
            decimal_text(q)
        }
    }

    /// The larger of the number and one.
    pub fn at_least_one(self) -> (r: Decimal)
        requires
            self.wf(),
        ensures
            r == if self.mantissa < self.scale() {
                Decimal { mantissa: 1, places: 0 }
            } else {
                self
            },
            r.wf(),
    {
        let scale: u128 = power_of_ten(self.places);
        if self.mantissa < scale {
            Decimal { mantissa: 1, places: 0 }
        } else {
            self
        }
    }
}

/// A quotient rounded to the nearest whole number; a half goes to the even one.
pub open spec fn half_even(n: nat, d: nat) -> nat {
    let q = n / d;
    let rest = n % d;
    if 2 * rest > d || (2 * rest == d && q % 2 == 1) {
        q + 1
    } else {
        q
    }
}

proof fn lemma_quotient(n: int, d: int)
    requires
        0 <= n,
        1 <= d,
    ensures
        0 <= n / d <= n,
        0 <= n % d <= n,
        2 * (n % d) >= d ==> n / d + 1 <= n,
{
    assert(n == d * (n / d) + n % d && 0 <= n % d < d) by (nonlinear_arith)
        requires
            1 <= d,
    ;
    let q = n / d;
    assert(0 <= q <= d * q) by (nonlinear_arith)
        requires
            n == d * q + n % d,
            0 <= n,
            n % d < d,
            1 <= d,
    ;
}

/// The last `width` digits of a number.
pub open spec fn padded(n: nat, width: nat) -> Seq<char>
    decreases width,
{
    if width == 0 {
        Seq::empty()
    } else {
        padded(n / 10, (width - 1) as nat).push(digit_char(n % 10))
    }
}

/// The fraction `n / 10^width` behind the point, without trailing zeros.
pub open spec fn fraction(n: nat, width: nat) -> Seq<char>
    decreases width,
{
    if width > 0 && n % 10 == 0 {
        fraction(n / 10, (width - 1) as nat)
    } else {
        padded(n, width)
    }
}

/// A duration in seconds, as the text that a prompt starts with: whole seconds
/// without a point, and no trailing zeros behind one. Less than a microsecond
/// beyond whole seconds is left out, and no duration has no text.
pub open spec fn secs_text(ns: u64) -> Seq<char> {
    let whole = (ns / NANOS) as nat;
    let rest = (ns % NANOS) as nat;
    if ns == 0 {
        Seq::empty()
    } else if rest < 1000 {
        decimal(whole)
    } else {
        decimal(whole) + "."@ + fraction(rest, 9)
    }
}

fn push_padded(out: &mut String, n: u64, width: u32)
    requires
        width <= 9,
    ensures
        final(out)@ == old(out)@ + padded(n as nat, width as nat),
    decreases width,
{
    if width > 0 {
        push_padded(out, n / 10, width - 1);
        let c = decimal_text((n % 10) as u128);
        proof {
            assert(c@ == seq![digit_char((n % 10) as nat)]);
        }
        out.append(c.as_str());
    }
    assert(out@ == old(out)@ + padded(n as nat, width as nat));
}

/// Format a duration for use as the initial text inside the refresh prompt.
pub fn fmt_prompt_secs(ns: u64) -> (r: String)
    ensures
        r@ == secs_text(ns),
{
    if ns == 0 {
        return String::new();
    }
    let whole: u64 = ns / NANOS;
    let mut rest: u64 = ns % NANOS;
    let mut out = decimal_text(whole as u128);
    if rest < 1000 {
        return out;
    }
    out.append(".");
    let ghost head = out@;
    let mut width: u32 = 9;
    while width > 0 && rest % 10 == 0
        invariant
            width <= 9,
            fraction(rest as nat, width as nat) == fraction((ns % NANOS) as nat, 9),
        decreases width,
    {
        rest = rest / 10;
        width = width - 1;
    }
    push_padded(&mut out, rest, width);
    out
}

/// A number below a power of ten has at most so many digits.
pub proof fn lemma_decimal_length(n: nat, k: nat)
    requires
        n < pow10(k),
        k >= 1,
    ensures
        1 <= decimal(n).len() <= k,
    decreases n,
{
    lemma_decimal_digits(n);
    if n >= 10 {
        if k == 1 {
            assert(pow10(1) == 10) by {
                reveal_with_fuel(pow10, 2);
            }
        } else {
            assert(pow10(k) == 10 * pow10((k - 1) as nat));
            lemma_decimal_length(n / 10, (k - 1) as nat);
        }
    }
}

/// The text of a whole number reads as that number.
pub proof fn whole_numbers_read_back(n: nat)
    ensures
        digits_and_point(decimal(n)),
        points(decimal(n)) == 0,
        places(decimal(n)) == 0,
        mantissa(decimal(n)) == n,
    decreases n,
{
    lemma_decimal_digits(n);
    let s = decimal(n);
    let rest = s.drop_last();
    crate::text::lemma_digit_value(n % 10);
    if n >= 10 {
        whole_numbers_read_back(n / 10);
        assert(rest == decimal(n / 10));
    } else {
        assert(rest == Seq::<char>::empty());
        assert(points(rest) == 0);
        assert(mantissa(rest) == 0);
    }
    assert(s.last() == digit_char(n % 10));
    assert(is_digit(s[s.len() - 1]));
}

/// Appending padded digits to a text with a point.
proof fn lemma_append_padded(s: Seq<char>, n: nat, width: nat)
    requires
        points(s) == 1,
    ensures
        points(s + padded(n, width)) == 1,
        places(s + padded(n, width)) == places(s) + width,
        n < pow10(width) ==> mantissa(s + padded(n, width)) == mantissa(s) * pow10(width) + n,
        padded(n, width).len() == width,
        forall|i: int| 0 <= i < width ==> is_digit(#[trigger] padded(n, width)[i]),
    decreases width,
{
    let p = padded(n, width);
    if width == 0 {
        assert(s + p == s);
        assert(pow10(0) == 1);
        assert(mantissa(s) * 1 == mantissa(s));
    } else {
        let q = padded(n / 10, (width - 1) as nat);
        lemma_append_padded(s, n / 10, (width - 1) as nat);
        crate::text::lemma_digit_value(n % 10);
        let all = s + p;
        assert(all.drop_last() == s + q);
        assert(all.last() == digit_char(n % 10));
        assert(is_digit(all.last()));
        assert(pow10(width) == 10 * pow10((width - 1) as nat));
        if n < pow10(width) {
            assert(n / 10 < pow10((width - 1) as nat));
            assert((mantissa(s) * pow10((width - 1) as nat) + n / 10) * 10 + n % 10 == mantissa(s)
                * (10 * pow10((width - 1) as nat)) + n) by (nonlinear_arith)
                requires
                    n == 10 * (n / 10) + n % 10,
            ;
        }
    }
}

/// The fraction stripped of `9 - k` zeros has `k` digits.
proof fn lemma_fraction(n: nat, width: nat) -> (k: nat)
    requires
        n < pow10(width),
    ensures
        k <= width,
        fraction(n, width) == padded(n / pow10((width - k) as nat), k),
        n == n / pow10((width - k) as nat) * pow10((width - k) as nat),
        n / pow10((width - k) as nat) < pow10(k),
    decreases width,
{
    if width > 0 && n % 10 == 0 {
        assert(pow10(width) == 10 * pow10((width - 1) as nat));
        let k = lemma_fraction(n / 10, (width - 1) as nat);
        let low = pow10((width - 1 - k) as nat);
        let more = pow10((width - k) as nat);
        assert(more == 10 * low);
        lemma_pow10_bounds((width - 1 - k) as nat);
        assert(n / more == (n / 10) / low) by {
            vstd::arithmetic::div_mod::lemma_div_denominator(n as int, 10, low as int);
        }
        assert(n == n / more * more) by (nonlinear_arith)
            requires
                n / 10 == n / more * low,
                n == 10 * (n / 10),
                more == 10 * low,
        ;
        k
    } else {
        assert(pow10(0) == 1);
        width
    }
}

/// The prompt for the refresh cadence starts with digits and at most one point,
/// short enough to be read.
pub proof fn lemma_secs_text_readable(ns: u64)
    ensures
        digits_and_point(secs_text(ns)),
        secs_text(ns).len() <= MAX_DIGITS,
{
    let whole = (ns / NANOS) as nat;
    let rest = (ns % NANOS) as nat;
    if ns > 0 {
        reveal_with_fuel(pow10, 12);
        whole_numbers_read_back(whole);
        lemma_decimal_length(whole, 11);
        if rest >= 1000 {
            let k = lemma_fraction(rest, 9);
            let head = decimal(whole) + "."@;
            reveal_strlit(".");
            assert(head.drop_last() == decimal(whole));
            assert(points(head) == 1);
            let part = rest / pow10((9 - k) as nat);
            lemma_append_padded(head, part, k);
            let s = head + padded(part, k);
            assert(secs_text(ns) == s);
            assert forall|i: int| 0 <= i < s.len() implies is_digit(#[trigger] s[i]) || s[i]
                == '.' by {
                if i < decimal(whole).len() {
                    assert(s[i] == decimal(whole)[i]);
                } else if i > decimal(whole).len() {
                    assert(s[i] == padded(part, k)[i - head.len()]);
                }
            }
        }
    }
}

/// The prompt's text for a cadence reads back as that cadence, unless it is less
/// than a microsecond beyond whole seconds.
#[verifier::spinoff_prover]
pub proof fn cadences_read_back(ns: u64)
    requires
        ns > 0,
        ns % NANOS == 0 || ns % NANOS >= 1000,
    ensures
        number(secs_text(ns)) matches Some(d) && d.nanoseconds() == ns && d.wf(),
{
    let whole = (ns / NANOS) as nat;
    let rest = (ns % NANOS) as nat;
    reveal_with_fuel(pow10, 12);
    whole_numbers_read_back(whole);
    lemma_decimal_digits(whole);
    lemma_secs_text_readable(ns);
    lemma_number_bounds(secs_text(ns));
    lemma_pow10_bounds(secs_text(ns).len());
    lemma_pow10_monotonic(secs_text(ns).len(), 24);
    if rest >= 1000 {
        let k = lemma_fraction(rest, 9);
        let head = decimal(whole) + "."@;
        reveal_strlit(".");
        assert(head.drop_last() == decimal(whole));
        assert(points(head) == 1);
        assert(places(head) == 0);
        let low = pow10((9 - k) as nat);
        let part = rest / low;
        lemma_append_padded(head, part, k);
        assert(secs_text(ns) == head + padded(part, k));
        let m = whole * pow10(k) + part;
        assert(mantissa(secs_text(ns)) == m);
        lemma_pow10_product(k, (9 - k) as nat);
        lemma_pow10_bounds(k);
        assert(m * NANOS == ns * pow10(k)) by (nonlinear_arith)
            requires
                m == whole * pow10(k) + part,
                NANOS == pow10(k) * low,
                rest == part * low,
                ns == whole * NANOS + rest,
        ;
        let d = Decimal { mantissa: m as u128, places: k as u32 };
        assert(places(secs_text(ns)) == k);
        assert(points(secs_text(ns)) == 1);
        assert(secs_text(ns).len() > 1);
        assert(number(secs_text(ns)) == Some(d));
        assert(d.mantissa == m);
        assert(d.scale() == pow10(k));
        assert((ns * pow10(k)) / (pow10(k) as int) == ns) by {
            vstd::arithmetic::div_mod::lemma_div_by_multiple(ns as int, pow10(k) as int);
        }
        assert((d.mantissa * NANOS) as nat / d.scale() == ns);
    } else {
        let d = Decimal { mantissa: whole as u128, places: 0 };
        assert(number(secs_text(ns)) == Some(d));
        assert(d.scale() == 1);
        assert(d.mantissa * NANOS == ns);
        assert((d.mantissa * NANOS) as nat / d.scale() == ns);
    }
}

proof fn lemma_pow10_monotonic(a: nat, b: nat)
    requires
        a <= b,
    ensures
        pow10(a) <= pow10(b),
    decreases b,
{
    if a < b {
        lemma_pow10_monotonic(a, (b - 1) as nat);
    }
}

proof fn lemma_pow10_product(a: nat, b: nat)
    ensures
        pow10(a) * pow10(b) == pow10(a + b),
    decreases a,
{
    if a == 0 {
        assert(pow10(0) == 1);
        assert(1 * pow10(b) == pow10(b));
    } else {
        lemma_pow10_product((a - 1) as nat, b);
        assert(pow10(a + b) == 10 * pow10((a + b - 1) as nat));
        assert((10 * pow10((a - 1) as nat)) * pow10(b) == 10 * (pow10((a - 1) as nat) * pow10(b)))
            by (nonlinear_arith);
    }
}

/// Rounding to the nearest whole, and to the even one of two as near.
pub proof fn rounding_is_to_the_nearest(n: nat, d: nat)
    requires
        0 < d,
    ensures
        -d <= 2 * (half_even(n, d) * d - n) <= d,
        2 * (half_even(n, d) * d - n) == d || 2 * (half_even(n, d) * d - n) == -d ==> half_even(
            n,
            d,
        ) % 2 == 0,
{
    let q = n / d;
    let rest = n % d;
    vstd::arithmetic::div_mod::lemma_fundamental_div_mod(n as int, d as int);
    assert(q * d == d * q && (q + 1) * d == d * q + d) by (nonlinear_arith);
}

/// A typed digit stands for ten times what was typed before it, and so much more;
/// a point only tells where the places begin, and each digit behind it is one
/// place.
pub proof fn digits_are_read_in_place(s: Seq<char>, c: char)
    requires
        '0' <= c <= '9',
    ensures
        mantissa(s.push(c)) == mantissa(s) * 10 + (c as u32 - '0' as u32),
        mantissa(s.push('.')) == mantissa(s),
        places(s.push('.')) == 0,
        s.contains('.') ==> places(s.push(c)) == places(s) + 1,
        !s.contains('.') ==> places(s.push(c)) == 0,
        points(s.push(c)) == points(s),
        points(s.push('.')) == points(s) + 1,
        mantissa(Seq::<char>::empty()) == 0,
        points(Seq::<char>::empty()) == 0,
{
    assert(s.push(c).drop_last() == s);
    assert(s.push('.').drop_last() == s);
    lemma_points_mean_contains(s);
}

proof fn lemma_points_mean_contains(s: Seq<char>)
    ensures
        points(s) == 0 <==> !s.contains('.'),
    decreases s.len(),
{
    if s.len() > 0 {
        let rest = s.drop_last();
        lemma_points_mean_contains(rest);
        assert(s[s.len() - 1] == s.last());
        if rest.contains('.') {
            let i = choose|i: int| 0 <= i < rest.len() && rest[i] == '.';
            assert(s[i] == '.');
        }
        if s.contains('.') && s.last() != '.' {
            let i = choose|i: int| 0 <= i < s.len() && s[i] == '.';
            assert(rest[i] == '.');
        }
    }
}

/// A typed text is a number as soon as it holds a digit.
pub proof fn any_digit_makes_a_number(s: Seq<char>)
    requires
        digits_and_point(s),
        s.len() <= MAX_DIGITS,
    ensures
        number(s) is Some <==> exists|i: int| 0 <= i < s.len() && '0' <= #[trigger] s[i] <= '9',
        number(s) matches Some(d) ==> d.mantissa == mantissa(s) && d.places == places(s),
{
    lemma_all_points(s);
    lemma_mantissa_fits(s);
    if exists|i: int| 0 <= i < s.len() && '0' <= #[trigger] s[i] <= '9' {
        let i = choose|i: int| 0 <= i < s.len() && '0' <= #[trigger] s[i] <= '9';
        assert(s[i] != '.');
    } else if s.len() != points(s) {
        let i = choose|i: int| 0 <= i < s.len() && #[trigger] s[i] != '.';
        assert(is_digit(s[i]));
    }
}

proof fn lemma_all_points(s: Seq<char>)
    ensures
        points(s) <= s.len(),
        points(s) == s.len() <==> forall|i: int| 0 <= i < s.len() ==> #[trigger] s[i] == '.',
    decreases s.len(),
{
    if s.len() > 0 {
        let rest = s.drop_last();
        lemma_all_points(rest);
        assert(s[s.len() - 1] == s.last());
        if points(s) == s.len() {
            assert forall|i: int| 0 <= i < s.len() implies #[trigger] s[i] == '.' by {
                if i < rest.len() {
                    assert(rest[i] == s[i]);
                }
            }
        }
        if forall|i: int| 0 <= i < s.len() ==> #[trigger] s[i] == '.' {
            assert forall|i: int| 0 <= i < rest.len() implies #[trigger] rest[i] == '.' by {
                assert(s[i] == '.');
            }
        }
    }
}

proof fn lemma_mantissa_fits(s: Seq<char>)
    requires
        digits_and_point(s),
    ensures
        mantissa(s) < pow10(s.len()),
        places(s) <= s.len(),
        s.len() <= MAX_DIGITS ==> mantissa(s) <= u128::MAX,
    decreases s.len(),
{
    lemma_pow10_bounds(s.len());
    if s.len() > 0 {
        let rest = s.drop_last();
        assert forall|i: int| 0 <= i < rest.len() implies is_digit(#[trigger] rest[i]) || rest[i]
            == '.' by {
            assert(rest[i] == s[i]);
        }
        assert(is_digit(s[s.len() - 1]) || s[s.len() - 1] == '.');
        lemma_mantissa_fits(rest);
        assert(pow10(s.len()) == 10 * pow10(rest.len()));
    }
}

/// A cadence is taken from a twentieth of a second on, and in whole nanoseconds:
/// as many as the number holds, as far as they can be counted.
pub proof fn cadences_are_counted_in_nanoseconds(d: Decimal)
    requires
        d.wf(),
    ensures
        d.at_least_a_twentieth() <==> d.mantissa * 1_000_000_000 >= 50_000_000 * pow10(
            d.places as nat,
        ),
        d.nanoseconds() < u64::MAX ==> d.nanoseconds() * pow10(d.places as nat) <= d.mantissa
            * 1_000_000_000 < (d.nanoseconds() + 1) * pow10(d.places as nat),
        d.mantissa * 1_000_000_000 >= u64::MAX * pow10(d.places as nat) ==> d.nanoseconds()
            == u64::MAX,
{
    lemma_pow10_bounds(d.places as nat);
    let n = d.mantissa * 1_000_000_000;
    let p = pow10(d.places as nat) as int;
    let q = n / p;
    vstd::arithmetic::div_mod::lemma_fundamental_div_mod(n, p);
    assert(q * p <= n < (q + 1) * p) by (nonlinear_arith)
        requires
            n == p * q + n % p,
            0 <= n % p < p,
    ;
    assert(q >= 0) by (nonlinear_arith)
        requires
            q * p <= n < (q + 1) * p,
            0 <= n,
            1 <= p,
    ;
    if n >= u64::MAX * p {
        assert(q >= u64::MAX) by (nonlinear_arith)
            requires
                n < (q + 1) * p,
                n >= u64::MAX * p,
                1 <= p,
        ;
    }
}

} // verus!
