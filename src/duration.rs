//! A time span at millisecond resolution, and its `HH:MM:SS` text form.

use crate::text::push_char;
use vstd::prelude::*;

verus! {

/// A non-negative time span, counted in whole milliseconds.
#[derive(Debug, Clone, Copy, PartialEq, Eq)]
pub struct Duration {
    pub millis: u64,
}

impl Duration {
    pub fn from_millis(millis: u64) -> (r: Duration)
        ensures
            r.millis == millis,
    {
        Duration { millis }
    }

    /// `None` where the span does not fit in `u64` milliseconds.
    pub fn from_minutes(minutes: u64) -> (r: Option<Duration>)
        ensures
            minutes * 60000 <= u64::MAX ==> r == Some(Duration { millis: (minutes * 60000) as u64 }),
            minutes * 60000 > u64::MAX ==> r is None,
    {
        if minutes <= u64::MAX / 60000 {
            Some(Duration { millis: minutes * 60000 })
        } else {
            None
        }
    }

    /// The whole seconds of the span, the rest dropped.
    pub fn num_seconds(&self) -> (r: u64)
        ensures
            r == self.millis / 1000,
    {
        self.millis / 1000
    }

    /// The sum of two spans, `None` where it does not fit.
    pub fn checked_add(&self, other: &Duration) -> (r: Option<Duration>)
        ensures
            self.millis + other.millis <= u64::MAX ==> r == Some(
                Duration { millis: (self.millis + other.millis) as u64 },
            ),
            self.millis + other.millis > u64::MAX ==> r is None,
    {
        if self.millis <= u64::MAX - other.millis {
            Some(Duration { millis: self.millis + other.millis })
        } else {
            None
        }
    }
}

pub open spec fn digit_char(d: nat) -> char {
    if d == 0 { '0' }
    else if d == 1 { '1' }
    else if d == 2 { '2' }
    else if d == 3 { '3' }
    else if d == 4 { '4' }
    else if d == 5 { '5' }
    else if d == 6 { '6' }
    else if d == 7 { '7' }
    else if d == 8 { '8' }
    else { '9' }
}

/// The decimal digits of `n`, most significant first, with no leading zero.
pub open spec fn decimal(n: nat) -> Seq<char>
    decreases n,
{
    if n < 10 {
        seq![digit_char(n)]
    } else {
        decimal(n / 10).push(digit_char(n % 10))
    }
}

/// `n` in decimal, padded with one zero to at least two digits.
pub open spec fn two_digits(n: nat) -> Seq<char> {
    if n < 10 {
        seq!['0', digit_char(n)]
    } else {
        decimal(n)
    }
}

/// `secs` seconds written as hours, minutes and seconds: `HH:MM:SS`.
pub open spec fn clock_text(secs: nat) -> Seq<char> {
    two_digits(secs / 3600) + seq![':'] + two_digits((secs % 3600) / 60) + seq![':'] + two_digits(
        secs % 60,
    )
}

fn digit_to_char(d: u64) -> (c: char)
    requires
        d < 10,
    ensures
        c == digit_char(d as nat),
{
    if d == 0 { '0' }
    else if d == 1 { '1' }
    else if d == 2 { '2' }
    else if d == 3 { '3' }
    else if d == 4 { '4' }
    else if d == 5 { '5' }
    else if d == 6 { '6' }
    else if d == 7 { '7' }
    else if d == 8 { '8' }
    else { '9' }
}

fn push_decimal(s: &mut String, n: u64)
    ensures
        final(s)@ == old(s)@ + decimal(n as nat),
    decreases n,
{
    if n >= 10 {
        push_decimal(s, n / 10);
    }
    push_char(s, digit_to_char(n % 10));
    assert(final(s)@ =~= old(s)@ + decimal(n as nat));
}

fn push_two_digits(s: &mut String, n: u64)
    ensures
        final(s)@ == old(s)@ + two_digits(n as nat),
{
    if n < 10 {
        push_char(s, '0');
    }
    push_decimal(s, n);
    assert(final(s)@ =~= old(s)@ + two_digits(n as nat));
}

/// Writes the whole seconds of `duration` as `HH:MM:SS`; hours take more than
/// two digits where they need them.
pub fn duration_to_string(duration: &Duration) -> (r: String)
    ensures
        r@ == clock_text(duration.millis as nat / 1000),
{
    let seconds = duration.num_seconds();
    let hours = seconds / 3600;
    let minutes = (seconds % 3600) / 60;
    let secs = seconds % 60;
    let mut s = String::new();
    push_two_digits(&mut s, hours);
    push_char(&mut s, ':');
    push_two_digits(&mut s, minutes);
    push_char(&mut s, ':');
    push_two_digits(&mut s, secs);
    assert(s@ =~= clock_text(duration.millis as nat / 1000));
    s
}

} // verus!
