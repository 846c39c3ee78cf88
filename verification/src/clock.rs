//! Clock times written as text.
//!
//! A clock time is written `HH:MM`: an hour, a colon, a minute. Each number
//! is a run of decimal digits, which a plus sign may precede. Blanks are not
//! skipped, and anything after the first colon belongs to the minute.

use crate::text::chars_of;
use chrono::NaiveTime;
use chrono::Timelike;
use vstd::prelude::*;

verus! {

/// Whether `c` is one of the ten decimal digits.
pub open spec fn is_digit(c: char) -> bool {
    '0' <= c && c <= '9'
}

/// The number that the decimal digit `c` stands for.
pub open spec fn digit_value(c: char) -> nat
    recommends
        is_digit(c),
{
    (c as u32 - '0' as u32) as nat
}

/// The number that a run of decimal digits writes, most significant digit
/// first. The empty run writes zero.
pub open spec fn decimal_value(digits: Seq<char>) -> nat
    decreases digits.len(),
{
    if digits.len() == 0 {
        0
    } else {
        10 * decimal_value(digits.drop_last()) + digit_value(digits.last())
    }
}

/// Whether `digits` is a run of one or more decimal digits.
pub open spec fn is_decimal(digits: Seq<char>) -> bool {
    digits.len() > 0 && forall|i: int| 0 <= i < digits.len() ==> is_digit(#[trigger] digits[i])
}

/// `text` without the plus sign that may lead it.
pub open spec fn without_plus(text: Seq<char>) -> Seq<char> {
    if text.len() > 0 && text[0] == '+' {
        text.subrange(1, text.len() as int)
    } else {
        text
    }
}

/// The non-negative number that `text` writes, if it writes one.
pub open spec fn number_value(text: Seq<char>) -> Option<nat> {
    if is_decimal(without_plus(text)) {
        Some(decimal_value(without_plus(text)))
    } else {
        None
    }
}

/// The minute of the day that `text` names, counted from midnight, if `text`
/// is a clock time: it holds a colon, what stands before the first colon
/// writes an hour below 24, and what stands after it writes a minute below 60.
pub open spec fn clock_minutes(text: Seq<char>) -> Option<nat> {
    match text.index_of_first(':') {
        None => None,
        Some(colon) => match (
            number_value(text.subrange(0, colon)),
            number_value(text.subrange(colon + 1, text.len() as int)),
        ) {
            (Some(hour), Some(minute)) => if hour < 24 && minute < 60 {
                Some(hour * 60 + minute)
            } else {
                None
            },
            _ => None,
        },
    }
}

/// A time of day to the minute. Only [`parse_hhmm`] makes one.
#[derive(Clone, Copy, Debug, PartialEq, Eq, Structural)]
pub struct TimeOfDay {
    minute_of_day: u32,
}

impl View for TimeOfDay {
    type V = nat;

    /// Minutes from midnight to this time.
    closed spec fn view(&self) -> nat {
        self.minute_of_day as nat
    }
}

impl TimeOfDay {
    #[verifier::type_invariant]
    spec fn within_a_day(self) -> bool {
        self.minute_of_day < 1440
    }

    /// Minutes from midnight to this time, in `0..1440`.
    pub fn minute_of_day(&self) -> (m: u32)
        ensures
            m == self@,
            m < 1440,
    {
        proof {
            use_type_invariant(self);
        }
        self.minute_of_day
    }

    /// The hour, in `0..24`.
    pub fn hour(&self) -> (h: u32)
        ensures
            h == self@ / 60,
            h < 24,
    {
        proof {
            use_type_invariant(self);
        }
        self.minute_of_day / 60
    }

    /// The minute of the hour, in `0..60`.
    pub fn minute(&self) -> (m: u32)
        ensures
            m == self@ % 60,
            m < 60,
    {
        self.minute_of_day % 60
    }
}

/// The decimal value of a run of digits is at least that of each of its
/// beginnings.
proof fn lemma_decimal_value_grows(digits: Seq<char>, k: int)
    requires
        0 <= k <= digits.len(),
    ensures
        decimal_value(digits.take(k)) <= decimal_value(digits),
    decreases digits.len(),
{
    if k == digits.len() {
        assert(digits.take(k) =~= digits);
    } else {
        lemma_decimal_value_grows(digits.drop_last(), k);
        assert(digits.drop_last().take(k) =~= digits.take(k));
    }
}

/// Seconds from midnight to the clock time `hour:minute:second`, where
/// there is such a time.
///
/// Calls `chrono::NaiveTime::from_hms_opt` and, on the time it makes,
/// `chrono::Timelike::num_seconds_from_midnight`. The first makes a time
/// exactly where the hour is below 24 and the minute and the second are below
/// 60; the second returns the hours, minutes and seconds of that time in
/// seconds.
#[verifier::external_body]
fn seconds_from_midnight(hour: u32, minute: u32, second: u32) -> (seconds: Option<u32>)
    ensures
        match seconds {
            Some(s) => hour < 24 && minute < 60 && second < 60 && s == hour * 3600 + minute * 60
                + second,
            None => hour >= 24 || minute >= 60 || second >= 60,
        },
{
    match NaiveTime::from_hms_opt(hour, minute, second) {
        Some(time) => Some(time.num_seconds_from_midnight()),
        None => None,
    }
}

/// Reads the number that `chars[from..to]` writes. `None` where it writes
/// none, or one that a `u32` cannot hold.
fn parse_number(chars: &Vec<char>, from: usize, to: usize) -> (value: Option<u32>)
    requires
        from <= to <= chars.len(),
    ensures
        value.is_some() <==> (number_value(chars@.subrange(from as int, to as int)) matches Some(v)
            && v <= u32::MAX),
        value.is_some() ==> number_value(chars@.subrange(from as int, to as int)) == Some(
            value.unwrap() as nat,
        ),
{
    let ghost text = chars@.subrange(from as int, to as int);
    let mut first: usize = from;
    if first < to && chars[first] == '+' {
        first = first + 1;
    }
    let ghost digits = chars@.subrange(first as int, to as int);
    assert(digits =~= without_plus(text));
    if first == to {
        return None;
    }
    let mut acc: u32 = 0;
    let mut k: usize = first;
    while k < to
        invariant
            from <= first <= k <= to <= chars.len(),
            digits == chars@.subrange(first as int, to as int),
            digits == without_plus(chars@.subrange(from as int, to as int)),
            forall|j: int| 0 <= j < k - first ==> is_digit(#[trigger] digits[j]),
            acc == decimal_value(digits.take(k - first)),
        decreases to - k,
    {
        let c: char = chars[k];
        assert(c == digits[k - first]);
        if !('0' <= c && c <= '9') {
            return None;
        }
        let digit: u32 = c as u32 - '0' as u32;
        proof {
            let longer = digits.take(k - first + 1);
            assert(longer.drop_last() =~= digits.take(k - first));
            assert(longer.last() == c);
            assert(decimal_value(longer) == 10 * acc + digit);
            lemma_decimal_value_grows(digits, k - first + 1);
        }
        let shifted: u32 = match acc.checked_mul(10) {
            Some(x) => x,
            None => {
                return None;
            },
        };
        acc = match shifted.checked_add(digit) {
            Some(x) => x,
            None => {
                return None;
            },
        };
        k = k + 1;
    }
    assert(digits.take(k - first) =~= digits);
    Some(acc)
}

/// Reads a clock time written `HH:MM`.
///
/// The text is split at its first colon and both parts are read as
/// non-negative numbers. `None` where there is no colon, where a part does
/// not write a number, where the hour is 24 or more, or where the minute is
/// 60 or more.
pub fn parse_hhmm(s: &str) -> (time: Option<TimeOfDay>)
    ensures
        time.is_some() <==> clock_minutes(s@).is_some(),
        time.is_some() ==> clock_minutes(s@) == Some(time.unwrap()@),
{
    let chars = chars_of(s);
    let n: usize = chars.len();
    let mut colon: usize = 0;
    while colon < n && chars[colon] != ':'
        invariant
            colon <= n == chars.len(),
            forall|j: int| 0 <= j < colon ==> chars@[j] != ':',
        decreases n - colon,
    {
        colon = colon + 1;
    }
    proof {
        chars@.index_of_first_ensures(':');
    }
    if colon == n {
        return None;
    }
    assert(chars@.index_of_first(':') == Some(colon as int));
    let hour: u32 = match parse_number(&chars, 0, colon) {
        Some(h) => h,
        None => {
            return None;
        },
    };
    let minute: u32 = match parse_number(&chars, colon + 1, n) {
        Some(m) => m,
        None => {
            return None;
        },
    };
    match seconds_from_midnight(hour, minute, 0) {
        Some(seconds) => Some(TimeOfDay { minute_of_day: seconds / 60 }),
        None => None,
    }
}

} // verus!
