//! Rendering of numbers and durations as text.

use vstd::prelude::*;

verus! {

/// Largest number of seconds, in either direction, that a duration can hold.
pub const DURATION_LIMIT_SECONDS: i64 = 9_223_372_036_854_775;

/// The character of a decimal digit.
pub open spec fn digit(d: int) -> char {
    if d == 0 {
        '0'
    } else if d == 1 {
        '1'
    } else if d == 2 {
        '2'
    } else if d == 3 {
        '3'
    } else if d == 4 {
        '4'
    } else if d == 5 {
        '5'
    } else if d == 6 {
        '6'
    } else if d == 7 {
        '7'
    } else if d == 8 {
        '8'
    } else {
        '9'
    }
}

/// The decimal digits of a natural number, most significant first, with no
/// leading zero but for zero itself.
pub open spec fn decimal(n: nat) -> Seq<char>
    decreases n,
{
    if n < 10 {
        seq![digit(n as int)]
    } else {
        decimal(n / 10).push(digit((n % 10) as int))
    }
}

/// An integer in at least two characters: a minus sign before the digits of
/// a negative one, a zero before a single digit.
pub open spec fn padded(n: int) -> Seq<char> {
    if n < 0 {
        seq!['-'] + decimal((-n) as nat)
    } else if n < 10 {
        seq!['0'] + decimal(n as nat)
    } else {
        decimal(n as nat)
    }
}

/// Division that rounds toward zero.
pub open spec fn quotient(a: int, b: int) -> int {
    if a >= 0 {
        a / b
    } else {
        -((-a) / b)
    }
}

/// The remainder that goes with `quotient`: it has the sign of `a`.
pub open spec fn remainder(a: int, b: int) -> int {
    a - b * quotient(a, b)
}

/// A number of seconds as hours, minutes and seconds, each in at least two
/// characters, with colons between: 3661 is `01:01:01`.
pub open spec fn clock_text(seconds: int) -> Seq<char> {
    padded(quotient(seconds, 3600)) + seq![':'] + padded(remainder(quotient(seconds, 60), 60))
        + seq![':'] + padded(remainder(seconds, 60))
}

/// The lines that `str::lines` of the standard library finds in a text, in
/// order, without their line endings.
pub uninterp spec fn lines_of(text: Seq<char>) -> Seq<Seq<char>>;

/// The words that `str::split_whitespace` of the standard library finds in
/// a text, in order: the pieces between runs of Unicode white space.
pub uninterp spec fn words_of(text: Seq<char>) -> Seq<Seq<char>>;

/// What `str::trim` of the standard library leaves of a text: the text
/// without the Unicode white space at its two ends.
pub uninterp spec fn trimmed_of(text: Seq<char>) -> Seq<char>;

/// `str::lines` of the standard library, each line as a string of its own.
#[verifier::external_body]
pub(crate) fn text_lines(text: &str) -> (lines: Vec<String>)
    ensures
        lines@.len() == lines_of(text@).len(),
        forall|i: int| 0 <= i < lines@.len() ==> (#[trigger] lines@[i])@ == lines_of(text@)[i],
{
    text.lines().map(str::to_string).collect()
}

/// `str::split_whitespace` of the standard library, each word as a string of
/// its own.
#[verifier::external_body]
pub(crate) fn text_words(text: &str) -> (words: Vec<String>)
    ensures
        words@.len() == words_of(text@).len(),
        forall|i: int| 0 <= i < words@.len() ==> (#[trigger] words@[i])@ == words_of(text@)[i],
{
    text.split_whitespace().map(str::to_string).collect()
}

/// `str::trim` of the standard library.
#[verifier::external_body]
pub(crate) fn text_trimmed(text: &str) -> (rest: &str)
    ensures
        rest@ == trimmed_of(text@),
{
    text.trim()
}

/// `String::push` of the standard library: the character is appended and
/// nothing else changes.
#[verifier::external_body]
pub(crate) fn push_char(s: &mut String, c: char)
    ensures
        final(s)@ == old(s)@.push(c),
{
    s.push(c)
}

/// `String::push_str` of the standard library: the characters of `t` are
/// appended in order and nothing else changes.
#[verifier::external_body]
pub(crate) fn push_text(s: &mut String, t: &str)
    ensures
        final(s)@ == old(s)@ + t@,
{
    s.push_str(t)
}

/// `TimeDelta::seconds` followed by `TimeDelta::num_hours` of chrono: the
/// whole hours in that many seconds, rounded toward zero. The constructor
/// refuses what lies beyond `DURATION_LIMIT_SECONDS`.
#[verifier::external_body]
fn whole_hours(seconds: i64) -> (hours: i64)
    requires
        -DURATION_LIMIT_SECONDS <= seconds <= DURATION_LIMIT_SECONDS,
    ensures
        hours == quotient(seconds as int, 3600),
{
    chrono::TimeDelta::seconds(seconds).num_hours()
}

/// `TimeDelta::seconds` followed by `TimeDelta::num_minutes` of chrono: the
/// whole minutes in that many seconds, rounded toward zero.
#[verifier::external_body]
fn whole_minutes(seconds: i64) -> (minutes: i64)
    requires
        -DURATION_LIMIT_SECONDS <= seconds <= DURATION_LIMIT_SECONDS,
    ensures
        minutes == quotient(seconds as int, 60),
{
    chrono::TimeDelta::seconds(seconds).num_minutes()
}

/// `TimeDelta::seconds` followed by `TimeDelta::num_seconds` of chrono: the
/// number of seconds it was made from.
#[verifier::external_body]
fn whole_seconds(seconds: i64) -> (same: i64)
    requires
        -DURATION_LIMIT_SECONDS <= seconds <= DURATION_LIMIT_SECONDS,
    ensures
        same == seconds,
{
    chrono::TimeDelta::seconds(seconds).num_seconds()
}

/// Computes `digit`.
fn digit_char(d: u64) -> (c: char)
    requires
        d < 10,
    ensures
        c == digit(d as int),
{
    if d == 0 {
        '0'
    } else if d == 1 {
        '1'
    } else if d == 2 {
        '2'
    } else if d == 3 {
        '3'
    } else if d == 4 {
        '4'
    } else if d == 5 {
        '5'
    } else if d == 6 {
        '6'
    } else if d == 7 {
        '7'
    } else if d == 8 {
        '8'
    } else {
        '9'
    }
}

/// Appends the decimal digits of `n` to `out`.
pub fn push_decimal(out: &mut String, n: u64)
    ensures
        final(out)@ == old(out)@ + decimal(n as nat),
    decreases n,
{
    if n >= 10 {
        push_decimal(out, n / 10);
    }
    push_char(out, digit_char(n % 10));
    proof {
        if n >= 10 {
            assert(final(out)@ =~= old(out)@ + decimal(n as nat));
        } else {
            assert(final(out)@ =~= old(out)@ + decimal(n as nat));
        }
    }
}

/// The decimal digits of `n` as a string.
pub fn decimal_text(n: u64) -> (s: String)
    ensures
        s@ == decimal(n as nat),
{
    let mut s = String::new();
    push_decimal(&mut s, n);
    assert(s@ =~= decimal(n as nat));
    s
}

/// Appends `padded(n)` to `out`.
fn push_padded(out: &mut String, n: i64)
    requires
        n > i64::MIN,
    ensures
        final(out)@ == old(out)@ + padded(n as int),
{
    if n < 0 {
        push_char(out, '-');
        push_decimal(out, (-n) as u64);
    } else {
        if n < 10 {
            push_char(out, '0');
        }
        push_decimal(out, n as u64);
    }
    assert(final(out)@ =~= old(out)@ + padded(n as int));
}

/// The remainder of a division by sixty that rounds toward zero.
fn rem_sixty(x: i64) -> (r: i64)
    requires
        x > i64::MIN,
    ensures
        r == remainder(x as int, 60),
        -60 < r < 60,
{
    if x >= 0 {
        x % 60
    } else {
        let m: i64 = -x;
        -(m % 60)
    }
}

/// Renders a number of seconds as `HH:MM:SS`. Hours take as many digits as
/// they need.
pub fn format_duration(seconds: i64) -> (text: String)
    requires
        -DURATION_LIMIT_SECONDS <= seconds <= DURATION_LIMIT_SECONDS,
    ensures
        text@ == clock_text(seconds as int),
{
    let hours: i64 = whole_hours(seconds);
    let minutes: i64 = rem_sixty(whole_minutes(seconds));
    let secs: i64 = rem_sixty(whole_seconds(seconds));
    let mut text = String::new();
    push_padded(&mut text, hours);
    push_char(&mut text, ':');
    push_padded(&mut text, minutes);
    push_char(&mut text, ':');
    push_padded(&mut text, secs);
    assert(text@ =~= clock_text(seconds as int));
    text
}

} // verus!
