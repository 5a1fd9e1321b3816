//! Text primitives: decimal rendering, trimming, splitting and unsigned parsing.
//!
//! A text is modelled as its sequence of characters. Everything here is stated
//! on that model, so callers can reason about the exact characters they show
//! or parse.
use vstd::prelude::*;
use vstd::string::*;
use vstd::utf8::*;

verus! {

/// `String::push` appends one character to the end of the string.
pub assume_specification[ String::push ](s: &mut String, c: char)
    ensures
        final(s)@ == old(s)@.push(c),
;

/// `String::pop` removes the last character and hands it back; an empty string
/// yields `None` and stays empty.
pub assume_specification[ String::pop ](s: &mut String) -> (c: Option<char>)
    ensures
        old(s)@.len() == 0 ==> c is None && final(s)@ == old(s)@,
        old(s)@.len() > 0 ==> c == Some(old(s)@.last()) && final(s)@ == old(s)@.drop_last(),
;

/// `String::from` on a string slice copies its characters.
pub assume_specification<'b>[ <String as From<&'b str>>::from ](s: &str) -> (r: String)
    ensures
        r@ == s@,
;

/// The characters of every text in `v`, in order.
pub open spec fn texts(v: Seq<String>) -> Seq<Seq<char>> {
    v.map_values(|s: String| s@)
}

/// Two string slices hold the same characters exactly when their bytes agree.
pub proof fn lemma_same_bytes(a: Seq<char>, b: Seq<char>)
    requires
        encode_utf8(a) == encode_utf8(b),
    ensures
        a == b,
{
    encode_utf8_decode_utf8(a);
    encode_utf8_decode_utf8(b);
}

/// Whether two lists hold the same texts in the same order.
pub fn same_texts(a: &Vec<String>, b: &Vec<String>) -> (r: bool)
    ensures
        r == (texts(a@) == texts(b@)),
{
    if a.len() != b.len() {
        assert(texts(a@).len() != texts(b@).len());
        return false;
    }
    let mut i: usize = 0;
    while i < a.len()
        invariant
            i <= a@.len(),
            a@.len() == b@.len(),
            forall|j: int| 0 <= j < i ==> a@[j]@ == b@[j]@,
        decreases a@.len() - i,
    {
        if !same(a[i].as_str(), b[i].as_str()) {
            assert(texts(a@)[i as int] != texts(b@)[i as int]);
            return false;
        }
        i += 1;
    }
    assert(texts(a@) == texts(b@));
    true
}

/// Whether two texts are equal, character for character.
pub fn same(a: &str, b: &str) -> (r: bool)
    ensures
        r == (a@ == b@),
{
    let x = a.as_bytes();
    let y = b.as_bytes();
    if x.len() != y.len() {
        return false;
    }
    let n: usize = x.len();
    let mut i: usize = 0;
    while i < n
        invariant
            i <= n,
            n == x@.len(),
            n == y@.len(),
            x@ == encode_utf8(a@),
            y@ == encode_utf8(b@),
            x@.take(i as int) == y@.take(i as int),
        decreases n - i,
    {
        if x[i] != y[i] {
            return false;
        }
        assert(x@.take(i + 1) == x@.take(i as int).push(x@[i as int]));
        assert(y@.take(i + 1) == y@.take(i as int).push(y@[i as int]));
        i += 1;
    }
    proof {
        assert(x@ == x@.take(n as int));
        assert(y@ == y@.take(n as int));
        lemma_same_bytes(a@, b@);
    }
    true
}

/// The characters of a text as a vector.
pub fn chars_of(s: &str) -> (r: Vec<char>)
    ensures
        r@ == s@,
{
    let mut out: Vec<char> = Vec::new();
    for c in it: s.chars()
        invariant
            out@ == s@.take(it.index() as int),
            it.seq() == s@,
    {
        out.push(c);
    }
    out
}

/// The text made of `v[from..to]`.
pub fn text_of(v: &Vec<char>, from: usize, to: usize) -> (r: String)
    requires
        from <= to <= v@.len(),
    ensures
        r@ == v@.subrange(from as int, to as int),
{
    let mut out = String::new();
    let mut i: usize = from;
    while i < to
        invariant
            from <= i <= to <= v@.len(),
            out@ == v@.subrange(from as int, i as int),
        decreases to - i,
    {
        out.push(v[i]);
        assert(v@.subrange(from as int, i + 1) == v@.subrange(from as int, i as int).push(
            v@[i as int],
        ));
        i += 1;
    }
    out
}

/// A copy of a list of texts.
pub fn copy_texts(v: &Vec<String>) -> (r: Vec<String>)
    ensures
        r@ == v@,
{
    let mut out: Vec<String> = Vec::new();
    let mut i: usize = 0;
    while i < v.len()
        invariant
            i <= v@.len(),
            out@ == v@.take(i as int),
        decreases v@.len() - i,
    {
        out.push(v[i].clone());
        assert(v@.take(i + 1) == v@.take(i as int).push(v@[i as int]));
        i += 1;
    }
    assert(v@.take(v@.len() as int) == v@);
    out
}

// ---------------------------------------------------------------------------
// Decimal rendering
// ---------------------------------------------------------------------------
/// The decimal digit of `n`, for `n` below ten.
pub open spec fn digit_char(n: nat) -> char {
    if n == 0 {
        '0'
    } else if n == 1 {
        '1'
    } else if n == 2 {
        '2'
    } else if n == 3 {
        '3'
    } else if n == 4 {
        '4'
    } else if n == 5 {
        '5'
    } else if n == 6 {
        '6'
    } else if n == 7 {
        '7'
    } else if n == 8 {
        '8'
    } else {
        '9'
    }
}

/// The decimal numeral of `n`, without leading zeros.
pub open spec fn decimal(n: nat) -> Seq<char>
    decreases n,
{
    if n < 10 {
        seq![digit_char(n)]
    } else {
        decimal(n / 10).push(digit_char(n % 10))
    }
}

fn digit(n: u128) -> (c: char)
    requires
        n < 10,
    ensures
        c == digit_char(n as nat),
{
    if n == 0 {
        '0'
    } else if n == 1 {
        '1'
    } else if n == 2 {
        '2'
    } else if n == 3 {
        '3'
    } else if n == 4 {
        '4'
    } else if n == 5 {
        '5'
    } else if n == 6 {
        '6'
    } else if n == 7 {
        '7'
    } else if n == 8 {
        '8'
    } else {
        '9'
    }
}

/// Render `n` in decimal.
pub fn decimal_text(n: u128) -> (r: String)
    ensures
        r@ == decimal(n as nat),
    decreases n,
{
    if n < 10 {
        let mut out = String::new();
        out.push(digit(n));
        assert(out@ == seq![digit_char(n as nat)]);
        out
    } else {
        let mut out = decimal_text(n / 10);
        out.push(digit(n % 10));
        out
    }
}

// ---------------------------------------------------------------------------
// Whitespace
// ---------------------------------------------------------------------------
/// The Unicode `White_Space` property.
pub open spec fn is_white_space(c: char) -> bool {
    let n = c as u32;
    ||| 0x9 <= n <= 0xd
    ||| n == 0x20
    ||| n == 0x85
    ||| n == 0xa0
    ||| n == 0x1680
    ||| 0x2000 <= n <= 0x200a
    ||| n == 0x2028
    ||| n == 0x2029
    ||| n == 0x202f
    ||| n == 0x205f
    ||| n == 0x3000
}

/// Whether `c` is white space.
pub fn white_space(c: char) -> (r: bool)
    ensures
        r == is_white_space(c),
{
    let n: u32 = c as u32;
    (0x9 <= n && n <= 0xd) || n == 0x20 || n == 0x85 || n == 0xa0 || n == 0x1680 || (0x2000 <= n
        && n <= 0x200a) || n == 0x2028 || n == 0x2029 || n == 0x202f || n == 0x205f || n == 0x3000
}

/// `s` without its leading white space.
pub open spec fn trim_start(s: Seq<char>) -> Seq<char>
    decreases s.len(),
{
    if s.len() > 0 && is_white_space(s[0]) {
        trim_start(s.drop_first())
    } else {
        s
    }
}

/// `s` without its trailing white space.
pub open spec fn trim_end(s: Seq<char>) -> Seq<char>
    decreases s.len(),
{
    if s.len() > 0 && is_white_space(s.last()) {
        trim_end(s.drop_last())
    } else {
        s
    }
}

/// `s` without white space at either end.
pub open spec fn trimmed(s: Seq<char>) -> Seq<char> {
    trim_end(trim_start(s))
}

/// Skip white space from `from` on.
fn skip_white(v: &Vec<char>, from: usize) -> (r: usize)
    requires
        from <= v@.len(),
    ensures
        from <= r <= v@.len(),
        v@.skip(r as int) == trim_start(v@.skip(from as int)),
        r < v@.len() ==> !is_white_space(v@[r as int]),
{
    let mut i: usize = from;
    while i < v.len() && white_space(v[i])
        invariant
            from <= i <= v@.len(),
            trim_start(v@.skip(i as int)) == trim_start(v@.skip(from as int)),
        decreases v@.len() - i,
    {
        assert(v@.skip(i as int)[0] == v@[i as int]);
        assert(v@.skip(i as int).drop_first() == v@.skip(i + 1));
        i += 1;
    }
    proof {
        if i < v@.len() {
            assert(v@.skip(i as int)[0] == v@[i as int]);
        }
    }
    i
}

/// Remove leading and trailing white space.
pub fn trim(s: &str) -> (r: String)
    ensures
        r@ == trimmed(s@),
{
    let v = chars_of(s);
    let start = skip_white(&v, 0);
    assert(v@.skip(0) == s@);
    let mut end: usize = v.len();
    assert(v@.subrange(start as int, end as int) == v@.skip(start as int));
    while end > start && white_space(v[end - 1])
        invariant
            start <= end <= v@.len(),
            trim_end(v@.subrange(start as int, end as int)) == trimmed(s@),
        decreases end,
    {
        assert(v@.subrange(start as int, end as int).drop_last() == v@.subrange(
            start as int,
            end - 1,
        ));
        end -= 1;
    }
    text_of(&v, start, end)
}

// ---------------------------------------------------------------------------
// Splitting
// ---------------------------------------------------------------------------
/// The number of characters before the first white space.
pub open spec fn word_len(s: Seq<char>) -> nat
    decreases s.len(),
{
    if s.len() == 0 || is_white_space(s[0]) {
        0
    } else {
        1 + word_len(s.drop_first())
    }
}

pub proof fn lemma_word_len(s: Seq<char>)
    ensures
        word_len(s) <= s.len(),
    decreases s.len(),
{
    if s.len() > 0 {
        lemma_word_len(s.drop_first());
    }
}

pub proof fn lemma_trim_start_len(s: Seq<char>)
    ensures
        trim_start(s).len() <= s.len(),
        trim_start(s).len() > 0 ==> !is_white_space(trim_start(s)[0]),
    decreases s.len(),
{
    if s.len() > 0 && is_white_space(s[0]) {
        lemma_trim_start_len(s.drop_first());
    }
}

/// The maximal runs of non-white-space characters, in order.
pub open spec fn words(s: Seq<char>) -> Seq<Seq<char>>
    decreases s.len(),
{
    let t = trim_start(s);
    if t.len() == 0 {
        seq![]
    } else {
        proof {
            lemma_trim_start_len(s);
            lemma_word_len(t);
        }
        let n = word_len(t) as int;
        seq![t.take(n)] + words(t.skip(n))
    }
}

/// Split a text at white space.
pub fn split_words(s: &str) -> (r: Vec<String>)
    ensures
        texts(r@) == words(s@),
{
    let v = chars_of(s);
    let mut out: Vec<String> = Vec::new();
    let mut i: usize = 0;
    assert(v@.skip(0) == s@);
    assert(texts(out@) + words(v@.skip(0)) == words(s@));
    loop
        invariant
            i <= v@.len(),
            texts(out@) + words(v@.skip(i as int)) == words(s@),
        ensures
            texts(out@) == words(s@),
        decreases v@.len() - i,
    {
        let ghost before = v@.skip(i as int);
        let start = skip_white(&v, i);
        if start >= v.len() {
            assert(trim_start(before).len() == 0);
            assert(texts(out@) + words(before) == texts(out@));
            break;
        }
        let mut end: usize = start;
        let ghost t = v@.skip(start as int);
        while end < v.len() && !white_space(v[end])
            invariant
                start <= end <= v@.len(),
                t == v@.skip(start as int),
                word_len(t) == (end - start) + word_len(v@.skip(end as int)),
            decreases v@.len() - end,
        {
            assert(v@.skip(end as int)[0] == v@[end as int]);
            assert(v@.skip(end as int).drop_first() == v@.skip(end + 1));
            end += 1;
        }
        proof {
            if end < v@.len() {
                assert(v@.skip(end as int)[0] == v@[end as int]);
            }
            assert(word_len(t) == end - start);
            assert(t.take(end - start) == v@.subrange(start as int, end as int));
            assert(t.skip(end - start) == v@.skip(end as int));
            assert(t[0] == v@[start as int]);
        }
        assert(end > start);
        let ghost old_out = out@;
        let word = text_of(&v, start, end);
        out.push(word);
        proof {
            assert(texts(out@) == texts(old_out).push(word@));
            assert(words(before) == seq![t.take(end - start)] + words(t.skip(end - start)));
            assert(texts(out@) + words(v@.skip(end as int)) == texts(old_out) + words(before));
        }
        i = end;
    }
    out
}

/// The number of characters before the first line feed.
pub open spec fn line_len(s: Seq<char>) -> nat
    decreases s.len(),
{
    if s.len() == 0 || s[0] == '\n' {
        0
    } else {
        1 + line_len(s.drop_first())
    }
}

pub proof fn lemma_line_len(s: Seq<char>)
    ensures
        line_len(s) <= s.len(),
        line_len(s) < s.len() ==> s[line_len(s) as int] == '\n',
    decreases s.len(),
{
    if s.len() > 0 && s[0] != '\n' {
        lemma_line_len(s.drop_first());
    }
}

/// A line without the carriage return that precedes its line feed.
pub open spec fn without_return(s: Seq<char>) -> Seq<char> {
    if s.len() > 0 && s.last() == '\r' {
        s.drop_last()
    } else {
        s
    }
}

/// The lines of a text. A line ends at a line feed, optionally preceded by a
/// carriage return; the ending of the last line may be missing.
pub open spec fn lines(s: Seq<char>) -> Seq<Seq<char>>
    decreases s.len(),
{
    if s.len() == 0 {
        seq![]
    } else {
        proof {
            lemma_line_len(s);
        }
        let n = line_len(s) as int;
        if n < s.len() {
            seq![without_return(s.take(n))] + lines(s.skip(n + 1))
        } else {
            seq![s]
        }
    }
}

/// Split a text into lines.
pub fn split_lines(s: &str) -> (r: Vec<String>)
    ensures
        texts(r@) == lines(s@),
{
    let v = chars_of(s);
    let mut out: Vec<String> = Vec::new();
    let mut i: usize = 0;
    assert(v@.skip(0) == s@);
    assert(texts(out@) + lines(v@.skip(0)) == lines(s@));
    while i < v.len()
        invariant
            i <= v@.len(),
            texts(out@) + lines(v@.skip(i as int)) == lines(s@),
        decreases v@.len() - i,
    {
        let ghost rest = v@.skip(i as int);
        let mut end: usize = i;
        while end < v.len() && v[end] != '\n'
            invariant
                i <= end <= v@.len(),
                rest == v@.skip(i as int),
                line_len(rest) == (end - i) + line_len(v@.skip(end as int)),
            decreases v@.len() - end,
        {
            assert(v@.skip(end as int)[0] == v@[end as int]);
            assert(v@.skip(end as int).drop_first() == v@.skip(end + 1));
            end += 1;
        }
        proof {
            if end < v@.len() {
                assert(v@.skip(end as int)[0] == v@[end as int]);
            }
            assert(line_len(rest) == end - i);
            assert(rest.take(end - i) == v@.subrange(i as int, end as int));
        }
        let ghost old_out = out@;
        if end < v.len() {
            let mut stop: usize = end;
            if end > i && v[end - 1] == '\r' {
                stop = end - 1;
            }
            let line = text_of(&v, i, stop);
            proof {
                assert(line@ == without_return(rest.take(end - i)));
                assert(rest.skip(end - i + 1) == v@.skip(end + 1));
            }
            out.push(line);
            proof {
                assert(texts(out@) == texts(old_out).push(line@));
                assert(texts(out@) + lines(v@.skip(end + 1)) == texts(old_out) + lines(rest));
            }
            i = end + 1;
        } else {
            let line = text_of(&v, i, end);
            assert(line@ == rest);
            out.push(line);
            proof {
                assert(texts(out@) == texts(old_out).push(line@));
                assert(lines(v@.skip(end as int)) == Seq::<Seq<char>>::empty());
                assert(texts(out@) + lines(v@.skip(end as int)) == texts(old_out) + lines(rest));
            }
            i = end;
        }
    }
    assert(lines(v@.skip(i as int)) == Seq::<Seq<char>>::empty());
    assert(texts(out@) + lines(v@.skip(i as int)) == texts(out@));
    out
}

// ---------------------------------------------------------------------------
// Substrings
// ---------------------------------------------------------------------------
/// `p` occurs in `s` at position `i`.
pub open spec fn occurs_at(s: Seq<char>, p: Seq<char>, i: int) -> bool {
    0 <= i && i + p.len() <= s.len() && s.subrange(i, i + p.len()) == p
}

/// `p` occurs somewhere in `s`.
pub open spec fn occurs(s: Seq<char>, p: Seq<char>) -> bool {
    exists|i: int| occurs_at(s, p, i)
}

fn match_at(s: &Vec<char>, p: &Vec<char>, at: usize) -> (r: bool)
    requires
        at + p@.len() <= s@.len(),
    ensures
        r == occurs_at(s@, p@, at as int),
{
    let n: usize = s.len();
    let mut j: usize = 0;
    while j < p.len()
        invariant
            j <= p@.len(),
            n == s@.len(),
            at + p@.len() <= s@.len(),
            forall|k: int| 0 <= k < j ==> s@[at + k] == p@[k],
        decreases p@.len() - j,
    {
        if s[at + j] != p[j] {
            assert(s@.subrange(at as int, at + p@.len())[j as int] == s@[at + j]);
            return false;
        }
        j += 1;
    }
    assert(s@.subrange(at as int, at + p@.len()) == p@);
    true
}

/// Whether `needle` is a substring of `haystack`.
pub fn contains_text(haystack: &str, needle: &str) -> (r: bool)
    ensures
        r == occurs(haystack@, needle@),
{
    let s = chars_of(haystack);
    let p = chars_of(needle);
    if p.len() > s.len() {
        return false;
    }
    let last: usize = s.len() - p.len();
    let mut i: usize = 0;
    loop
        invariant
            i <= last,
            last == s@.len() - p@.len(),
            s@ == haystack@,
            p@ == needle@,
            forall|k: int| 0 <= k < i ==> !occurs_at(s@, p@, k),
        decreases last - i,
    {
        if match_at(&s, &p, i) {
            return true;
        }
        if i == last {
            return false;
        }
        i += 1;
    }
}

// ---------------------------------------------------------------------------
// Unsigned numbers
// ---------------------------------------------------------------------------
/// Why a text is not an unsigned number.
#[derive(Debug, Clone, Copy, PartialEq, Eq, Structural)]
pub enum IntFault {
    /// The text is empty.
    Empty,
    /// A character is not a decimal digit.
    InvalidDigit,
    /// The number is too large for its type.
    Overflow,
}

/// Whether `c` is an ASCII digit.
pub open spec fn is_digit(c: char) -> bool {
    '0' <= c <= '9'
}

/// The value of an ASCII digit.
pub open spec fn digit_value(c: char) -> nat {
    (c as u32 - '0' as u32) as nat
}

/// Read digits left to right onto `acc`, stopping at the first fault.
pub open spec fn parse_digits(s: Seq<char>, acc: nat, max: nat) -> Result<nat, IntFault>
    decreases s.len(),
{
    if s.len() == 0 {
        Ok(acc)
    } else if !is_digit(s[0]) {
        Err(IntFault::InvalidDigit)
    } else if acc * 10 + digit_value(s[0]) > max {
        Err(IntFault::Overflow)
    } else {
        parse_digits(s.drop_first(), acc * 10 + digit_value(s[0]), max)
    }
}

/// An optional `+` followed by at least one digit, with a value up to `max`.
pub open spec fn parse_unsigned(s: Seq<char>, max: nat) -> Result<nat, IntFault> {
    if s.len() == 0 {
        Err(IntFault::Empty)
    } else if s[0] == '+' && s.len() > 1 {
        parse_digits(s.drop_first(), 0, max)
    } else {
        parse_digits(s, 0, max)
    }
}

/// Parse an unsigned number no larger than `max`.
pub fn unsigned(s: &str, max: u64) -> (r: Result<u64, IntFault>)
    ensures
        r is Ok == parse_unsigned(s@, max as nat) is Ok,
        r matches Ok(n) ==> parse_unsigned(s@, max as nat) == Ok::<nat, IntFault>(n as nat),
        r matches Err(e) ==> parse_unsigned(s@, max as nat) == Err::<nat, IntFault>(e),
{
    let v = chars_of(s);
    if v.len() == 0 {
        return Err(IntFault::Empty);
    }
    let mut i: usize = 0;
    let mut acc: u64 = 0;
    if v[0] == '+' && v.len() > 1 {
        i = 1;
        assert(v@.skip(1) == s@.drop_first());
    } else {
        assert(v@.skip(0) == s@);
    }
    while i < v.len()
        invariant
            i <= v@.len(),
            acc <= max,
            parse_digits(v@.skip(i as int), acc as nat, max as nat) == parse_unsigned(
                s@,
                max as nat,
            ),
        decreases v@.len() - i,
    {
        let c = v[i];
        assert(v@.skip(i as int)[0] == c);
        assert(v@.skip(i as int).drop_first() == v@.skip(i + 1));
        if !(c >= '0' && c <= '9') {
            return Err(IntFault::InvalidDigit);
        }
        let d: u128 = (c as u32 - 48) as u128;
        let next: u128 = acc as u128 * 10 + d;
        if next > max as u128 {
            return Err(IntFault::Overflow);
        }
        acc = next as u64;
        i += 1;
    }
    Ok(acc)
}

/// A digit character stands for the digit it renders.
pub proof fn lemma_digit_value(n: nat)
    requires
        n < 10,
    ensures
        is_digit(digit_char(n)),
        digit_value(digit_char(n)) == n,
{
}

/// A numeral is made of digits and is never empty.
pub proof fn lemma_decimal_digits(n: nat)
    ensures
        decimal(n).len() > 0,
        forall|i: int| 0 <= i < decimal(n).len() ==> is_digit(#[trigger] decimal(n)[i]),
    decreases n,
{
    if n >= 10 {
        lemma_decimal_digits(n / 10);
        lemma_digit_value(n % 10);
        assert forall|i: int| 0 <= i < decimal(n).len() implies is_digit(
            #[trigger] decimal(n)[i],
        ) by {
            if i < decimal(n / 10).len() {
                assert(decimal(n)[i] == decimal(n / 10)[i]);
            }
        }
    } else {
        lemma_digit_value(n);
    }
}

proof fn lemma_parse_digits_push(s: Seq<char>, c: char, acc: nat, max: nat)
    requires
        is_digit(c),
    ensures
        parse_digits(s, acc, max) matches Ok(v) ==> parse_digits(s.push(c), acc, max) == (if v * 10
            + digit_value(c) > max {
            Err::<nat, IntFault>(IntFault::Overflow)
        } else {
            Ok(v * 10 + digit_value(c))
        }),
    decreases s.len(),
{
    reveal_with_fuel(parse_digits, 2);
    if s.len() == 0 {
        assert(s.push(c)[0] == c);
        assert(s.push(c).drop_first() == Seq::<char>::empty());
    } else {
        assert(s.push(c)[0] == s[0]);
        assert(s.push(c).drop_first() == s.drop_first().push(c));
        lemma_parse_digits_push(s.drop_first(), c, acc * 10 + digit_value(s[0]), max);
    }
}

proof fn lemma_parse_decimal(n: nat, max: nat)
    requires
        n <= max,
    ensures
        parse_digits(decimal(n), 0, max) == Ok::<nat, IntFault>(n),
    decreases n,
{
    if n < 10 {
        lemma_digit_value(n);
        let s = seq![digit_char(n)];
        assert(s.drop_first() == Seq::<char>::empty());
        assert(parse_digits(s.drop_first(), n, max) == Ok::<nat, IntFault>(n));
    } else {
        lemma_parse_decimal(n / 10, max);
        lemma_digit_value(n % 10);
        lemma_parse_digits_push(decimal(n / 10), digit_char(n % 10), 0, max);
        assert(n / 10 * 10 + n % 10 == n);
    }
}

/// Parsing a rendered number gives the number back.
pub proof fn decimal_round_trips(n: nat, max: nat)
    requires
        n <= max,
    ensures
        parse_unsigned(decimal(n), max) == Ok::<nat, IntFault>(n),
{
    lemma_decimal_digits(n);
    lemma_parse_decimal(n, max);
    assert(is_digit(decimal(n)[0]));
}

/// Blanks, tabs and line ends are white space; no printable ASCII character is.
pub proof fn printable_characters_are_no_white_space(c: char)
    ensures
        c == ' ' || c == '\t' || c == '\n' || c == '\r' ==> is_white_space(c),
        '!' <= c <= '~' ==> !is_white_space(c),
{
}

/// Trimming takes white space away from both ends and nothing else.
pub proof fn trimming_leaves_the_middle(s: Seq<char>)
    ensures
        exists|from: int, to: int| #[trigger] is_middle(s, trimmed(s), from, to),
        trimmed(s).len() > 0 ==> !is_white_space(trimmed(s)[0]) && !is_white_space(
            trimmed(s).last(),
        ),
{
    lemma_trim_start_is_a_tail(s);
    let t = trim_start(s);
    lemma_trim_end_is_a_head(t);
    let from = s.len() - t.len();
    let to = from + trimmed(s).len();
    lemma_trim_start_len(s);
    assert(t == s.skip(from));
    assert(trimmed(s) == t.take(trimmed(s).len() as int));
    assert(s.subrange(from, to) == trimmed(s));
    assert forall|i: int| to <= i < s.len() implies is_white_space(#[trigger] s[i]) by {
        assert(t[i - from] == s[i]);
    }
    assert(is_middle(s, trimmed(s), from, to));
}

/// `part` is `s[from..to]`, and all around it is white space.
pub open spec fn is_middle(s: Seq<char>, part: Seq<char>, from: int, to: int) -> bool {
    &&& 0 <= from <= to <= s.len()
    &&& part == s.subrange(from, to)
    &&& forall|i: int| 0 <= i < from ==> is_white_space(#[trigger] s[i])
    &&& forall|i: int| to <= i < s.len() ==> is_white_space(#[trigger] s[i])
}

proof fn lemma_trim_start_is_a_tail(s: Seq<char>)
    ensures
        trim_start(s).len() <= s.len(),
        trim_start(s) == s.skip(s.len() - trim_start(s).len()),
        forall|i: int| 0 <= i < s.len() - trim_start(s).len() ==> is_white_space(#[trigger] s[i]),
    decreases s.len(),
{
    if s.len() > 0 && is_white_space(s[0]) {
        let rest = s.drop_first();
        lemma_trim_start_is_a_tail(rest);
        let n = s.len() - trim_start(s).len();
        assert(s.skip(n) == rest.skip(n - 1));
        assert forall|i: int| 0 <= i < n implies is_white_space(#[trigger] s[i]) by {
            if i > 0 {
                assert(rest[i - 1] == s[i]);
            }
        }
    } else {
        assert(s.skip(0) == s);
    }
}

proof fn lemma_trim_end_is_a_head(s: Seq<char>)
    ensures
        trim_end(s).len() <= s.len(),
        trim_end(s) == s.take(trim_end(s).len() as int),
        trim_end(s).len() > 0 ==> !is_white_space(trim_end(s).last()),
        forall|i: int| trim_end(s).len() <= i < s.len() ==> is_white_space(#[trigger] s[i]),
    decreases s.len(),
{
    if s.len() > 0 && is_white_space(s.last()) {
        let rest = s.drop_last();
        lemma_trim_end_is_a_head(rest);
        let n = trim_end(s).len() as int;
        assert(s.take(n) == rest.take(n));
        assert forall|i: int| n <= i < s.len() implies is_white_space(#[trigger] s[i]) by {
            if i < rest.len() {
                assert(rest[i] == s[i]);
            }
        }
    } else {
        assert(s.take(s.len() as int) == s);
    }
}

proof fn lemma_word_ends_at_white_space(word: Seq<char>, rest: Seq<char>)
    requires
        forall|i: int| 0 <= i < word.len() ==> !is_white_space(#[trigger] word[i]),
        rest.len() > 0 ==> is_white_space(rest[0]),
    ensures
        word_len(word + rest) == word.len(),
    decreases word.len(),
{
    let s = word + rest;
    if word.len() > 0 {
        let tail = word.drop_first();
        assert(s.drop_first() == tail + rest);
        assert forall|i: int| 0 <= i < tail.len() implies !is_white_space(#[trigger] tail[i]) by {
            assert(tail[i] == word[i + 1]);
        }
        assert(s[0] == word[0]);
        lemma_word_ends_at_white_space(tail, rest);
    } else {
        assert(s == rest);
    }
}

/// A text is split into its words at white space, whatever there is of it between
/// them.
pub proof fn texts_split_at_white_space(word: Seq<char>, gap: char, rest: Seq<char>)
    requires
        word.len() > 0,
        forall|i: int| 0 <= i < word.len() ==> !is_white_space(#[trigger] word[i]),
        is_white_space(gap),
    ensures
        words(word + seq![gap] + rest) == seq![word] + words(rest),
        words(word) == seq![word],
        words(seq![gap] + rest) == words(rest),
        words(Seq::<char>::empty()) == Seq::<Seq<char>>::empty(),
{
    let tail = seq![gap] + rest;
    assert(tail.drop_first() == rest);
    assert(trim_start(tail) == trim_start(rest));
    assert(words(tail) == words(rest));
    let s = word + seq![gap] + rest;
    assert(s == word + tail);
    lemma_word_ends_at_white_space(word, tail);
    let n = word.len() as int;
    assert(s[0] == word[0]);
    assert(trim_start(s) == s);
    assert(s.take(n) == word);
    assert(s.skip(n) == tail);
    let none = Seq::<char>::empty();
    assert(word + none == word);
    lemma_word_ends_at_white_space(word, none);
    assert(trim_start(word) == word);
    assert(word.take(n) == word);
    assert(word.skip(n) == none);
    assert(words(none) == Seq::<Seq<char>>::empty());
    assert(words(word) == seq![word] + words(none));
    assert(seq![word] + words(none) == seq![word]);
}

proof fn lemma_line_ends_at_newline(line: Seq<char>, rest: Seq<char>)
    requires
        !line.contains('\n'),
        rest.len() > 0 ==> rest[0] == '\n',
    ensures
        line_len(line + rest) == line.len(),
    decreases line.len(),
{
    let s = line + rest;
    if line.len() > 0 {
        let tail = line.drop_first();
        assert(s.drop_first() == tail + rest);
        assert(line[0] != '\n');
        assert(s[0] == line[0]);
        assert(!tail.contains('\n')) by {
            if tail.contains('\n') {
                let i = choose|i: int| 0 <= i < tail.len() && tail[i] == '\n';
                assert(line[i + 1] == '\n');
            }
        }
        lemma_line_ends_at_newline(tail, rest);
    } else {
        assert(s == rest);
    }
}

/// A text is split into its lines at every line feed; a carriage return before it
/// belongs to the line end, and the last line need not be ended.
pub proof fn texts_split_at_line_feeds(line: Seq<char>, rest: Seq<char>)
    requires
        !line.contains('\n'),
    ensures
        line.len() == 0 || line.last() != '\r' ==> lines(line + seq!['\n'] + rest) == seq![line]
            + lines(rest),
        lines(line + seq!['\r', '\n'] + rest) == seq![line] + lines(rest),
        line.len() > 0 ==> lines(line) == seq![line],
        lines(Seq::<char>::empty()) == Seq::<Seq<char>>::empty(),
{
    let tail = seq!['\n'] + rest;
    let s = line + seq!['\n'] + rest;
    assert(s == line + tail);
    lemma_line_ends_at_newline(line, tail);
    let n = line.len() as int;
    assert(s.take(n) == line);
    assert(s.skip(n + 1) == rest);
    let returned = line.push('\r');
    assert(!returned.contains('\n')) by {
        if returned.contains('\n') {
            let i = choose|i: int| 0 <= i < returned.len() && returned[i] == '\n';
            assert(line[i] == '\n');
        }
    }
    let r = line + seq!['\r', '\n'] + rest;
    assert(r == returned + tail);
    lemma_line_ends_at_newline(returned, tail);
    assert(r.take(n + 1) == returned);
    assert(r.skip(n + 2) == rest);
    assert(returned.drop_last() == line);
    let none = Seq::<char>::empty();
    assert(line + none == line);
    lemma_line_ends_at_newline(line, none);
}

/// A text occurs in every text that is put around it, and only there.
pub proof fn texts_occur_where_they_stand(a: Seq<char>, p: Seq<char>, b: Seq<char>, s: Seq<char>)
    ensures
        occurs(a + p + b, p),
        occurs(s, p) ==> exists|i: int|
            0 <= i <= s.len() - p.len() && #[trigger] s.subrange(i, i + p.len()) == p,
{
    let whole = a + p + b;
    assert(whole.subrange(a.len() as int, a.len() as int + p.len()) == p);
    assert(occurs_at(whole, p, a.len() as int));
    if occurs(s, p) {
        let i = choose|i: int| occurs_at(s, p, i);
        assert(s.subrange(i, i + p.len()) == p);
    }
}

/// What a row of digits stands for, most significant digit first, read on from
/// what came before it.
pub open spec fn digits_value(before: nat, digits: Seq<char>) -> nat
    decreases digits.len(),
{
    if digits.len() == 0 {
        before
    } else {
        digits_value(before, digits.drop_last()) * 10 + (digits.last() as u32 - '0' as u32) as nat
    }
}

proof fn lemma_digits_value_front(before: nat, digits: Seq<char>)
    requires
        digits.len() > 0,
        '0' <= digits[0] <= '9',
    ensures
        digits_value(before, digits) == digits_value(
            before * 10 + (digits[0] as u32 - '0' as u32) as nat,
            digits.drop_first(),
        ),
    decreases digits.len(),
{
    let next = before * 10 + (digits[0] as u32 - '0' as u32) as nat;
    if digits.len() == 1 {
        assert(digits.drop_last() == Seq::<char>::empty());
        assert(digits.drop_first() == Seq::<char>::empty());
        assert(digits_value(before, digits.drop_last()) == before);
        assert(digits_value(next, digits.drop_first()) == next);
    } else {
        lemma_digits_value_front(before, digits.drop_last());
        assert(digits.drop_last().drop_first() == digits.drop_first().drop_last());
        assert(digits.drop_first().last() == digits.last());
    }
}

proof fn lemma_digits_value_grows(before: nat, digits: Seq<char>)
    ensures
        before <= digits_value(before, digits),
    decreases digits.len(),
{
    if digits.len() > 0 {
        lemma_digits_value_grows(before, digits.drop_last());
    }
}

proof fn lemma_parse_digits(s: Seq<char>, acc: nat, max: nat)
    requires
        acc <= max,
        forall|i: int| 0 <= i < s.len() ==> '0' <= #[trigger] s[i] <= '9',
    ensures
        digits_value(acc, s) <= max ==> parse_digits(s, acc, max) == Ok::<nat, IntFault>(
            digits_value(acc, s),
        ),
        digits_value(acc, s) > max ==> parse_digits(s, acc, max) == Err::<nat, IntFault>(
            IntFault::Overflow,
        ),
    decreases s.len(),
{
    if s.len() > 0 {
        let rest = s.drop_first();
        let next = acc * 10 + (s[0] as u32 - '0' as u32) as nat;
        lemma_digits_value_front(acc, s);
        lemma_digits_value_grows(next, rest);
        assert forall|i: int| 0 <= i < rest.len() implies '0' <= #[trigger] rest[i] <= '9' by {
            assert(rest[i] == s[i + 1]);
        }
        if next <= max {
            lemma_parse_digits(rest, next, max);
        }
    }
}

proof fn lemma_parse_only_digits(s: Seq<char>, acc: nat, max: nat)
    requires
        parse_digits(s, acc, max) is Ok,
    ensures
        forall|i: int| 0 <= i < s.len() ==> '0' <= #[trigger] s[i] <= '9',
    decreases s.len(),
{
    if s.len() > 0 {
        lemma_parse_only_digits(s.drop_first(), acc * 10 + digit_value(s[0]), max);
        assert forall|i: int| 0 <= i < s.len() implies '0' <= #[trigger] s[i] <= '9' by {
            if i > 0 {
                assert(s.drop_first()[i - 1] == s[i]);
            }
        }
    }
}

/// A row of digits, with or without a plus sign before it, stands for its decimal
/// value where that is within the limit and overflows where it is not; nothing
/// else stands for a number.
pub proof fn digits_stand_for_their_value(s: Seq<char>, max: nat)
    ensures
        s.len() > 0 && (forall|i: int| 0 <= i < s.len() ==> '0' <= #[trigger] s[i] <= '9') ==> {
            &&& digits_value(0, s) <= max ==> parse_unsigned(s, max) == Ok::<nat, IntFault>(
                digits_value(0, s),
            )
            &&& digits_value(0, s) > max ==> parse_unsigned(s, max) == Err::<nat, IntFault>(
                IntFault::Overflow,
            )
            &&& parse_unsigned(seq!['+'] + s, max) == parse_unsigned(s, max)
        },
        s.len() == 0 ==> parse_unsigned(s, max) == Err::<nat, IntFault>(IntFault::Empty),
        parse_unsigned(s, max) is Ok ==> s.len() > 0 && forall|i: int|
            1 <= i < s.len() ==> '0' <= #[trigger] s[i] <= '9',
        parse_unsigned(s, max) is Ok ==> '0' <= s[0] <= '9' || (s[0] == '+' && s.len() > 1),
{
    if s.len() > 0 && (forall|i: int| 0 <= i < s.len() ==> '0' <= #[trigger] s[i] <= '9') {
        lemma_parse_digits(s, 0, max);
        let signed = seq!['+'] + s;
        assert(signed.drop_first() == s);
        assert(signed[0] == '+');
        assert(s[0] != '+');
    }
    if parse_unsigned(s, max) is Ok {
        if s[0] == '+' && s.len() > 1 {
            lemma_parse_only_digits(s.drop_first(), 0, max);
            assert forall|i: int| 1 <= i < s.len() implies '0' <= #[trigger] s[i] <= '9' by {
                assert(s.drop_first()[i - 1] == s[i]);
            }
        } else {
            lemma_parse_only_digits(s, 0, max);
        }
    }
}

/// A numeral is made of digits and stands for its number, without leading zeros.
pub proof fn numerals_stand_for_their_number(n: nat)
    ensures
        digits_value(0, decimal(n)) == n,
        decimal(n).len() > 0,
        decimal(n).len() > 1 ==> decimal(n)[0] != '0',
        forall|i: int| 0 <= i < decimal(n).len() ==> '0' <= #[trigger] decimal(n)[i] <= '9',
    decreases n,
{
    lemma_decimal_digits(n);
    lemma_digit_value(n % 10);
    if n >= 10 {
        numerals_stand_for_their_number(n / 10);
        assert(decimal(n).drop_last() == decimal(n / 10));
        assert(decimal(n)[0] == decimal(n / 10)[0]);
        if n / 10 < 10 {
            assert(decimal(n / 10) == seq![digit_char(n / 10)]);
            lemma_digit_value(n / 10);
        } else {
            lemma_decimal_digits(n / 10 / 10);
        }
    } else {
        let one = decimal(n);
        assert(one.drop_last() == Seq::<char>::empty());
        assert(digits_value(0, one.drop_last()) == 0);
    }
}

/// The white-space characters are the tab, the line and page ends, and the spaces of
/// every width, twenty-five in all; the byte-order mark and the zero-width spaces
/// are none.
pub proof fn white_space_is_a_short_list(c: char)
    ensures
        is_white_space(c) <==> seq![
            '\t',
            '\n',
            '\u{b}',
            '\u{c}',
            '\r',
            ' ',
            '\u{85}',
            '\u{a0}',
            '\u{1680}',
            '\u{2000}',
            '\u{2001}',
            '\u{2002}',
            '\u{2003}',
            '\u{2004}',
            '\u{2005}',
            '\u{2006}',
            '\u{2007}',
            '\u{2008}',
            '\u{2009}',
            '\u{200a}',
            '\u{2028}',
            '\u{2029}',
            '\u{202f}',
            '\u{205f}',
            '\u{3000}',
        ].contains(c),
{
    let all = seq![
        '\t',
        '\n',
        '\u{b}',
        '\u{c}',
        '\r',
        ' ',
        '\u{85}',
        '\u{a0}',
        '\u{1680}',
        '\u{2000}',
        '\u{2001}',
        '\u{2002}',
        '\u{2003}',
        '\u{2004}',
        '\u{2005}',
        '\u{2006}',
        '\u{2007}',
        '\u{2008}',
        '\u{2009}',
        '\u{200a}',
        '\u{2028}',
        '\u{2029}',
        '\u{202f}',
        '\u{205f}',
        '\u{3000}',
    ];
    if is_white_space(c) {
        let n = c as u32 as int;
        let i: int = if n <= 0xd {
            n - 9
        } else if n == 0x20 {
            5
        } else if n == 0x85 {
            6
        } else if n == 0xa0 {
            7
        } else if n == 0x1680 {
            8
        } else if n <= 0x200a {
            n - 0x2000 + 9
        } else if n == 0x2028 {
            20
        } else if n == 0x2029 {
            21
        } else if n == 0x202f {
            22
        } else if n == 0x205f {
            23
        } else {
            24
        };
        assert(all[i] == c);
    }
}

} // verus!
