//! Points in time as plain integers, and the few things the tracker asks of
//! the calendar library: the clock, and text forms of a timestamp.

use std::fmt::Write;
use vstd::prelude::*;

verus! {

/// A point in time: milliseconds since 1970-01-01T00:00:00Z, leap seconds
/// not counted.
#[derive(Debug, Clone, Copy, PartialEq, Eq, Structural)]
pub struct Timestamp {
    pub millis: i64,
}

/// Whole seconds from `start` to `end`, and zero where `end` is not after
/// `start`.
pub open spec fn elapsed_secs(start: Timestamp, end: Timestamp) -> nat {
    if end.millis > start.millis {
        ((end.millis - start.millis) / 1000) as nat
    } else {
        0
    }
}

/// Whole seconds from `from` to `to`, negative where `to` is earlier,
/// rounded towards zero.
pub open spec fn age_secs(from: Timestamp, to: Timestamp) -> int {
    if to.millis >= from.millis {
        (to.millis - from.millis) / 1000
    } else {
        -((from.millis - to.millis) / 1000)
    }
}

/// The text that the calendar library writes for a timestamp in RFC 3339
/// form; `None` where the timestamp lies outside the years it can represent.
pub uninterp spec fn rfc3339_text(millis: i64) -> Option<Seq<char>>;

/// The timestamp that the calendar library reads from a text in RFC 3339
/// form, cut to whole milliseconds; `None` where it rejects the text.
pub uninterp spec fn rfc3339_value(text: Seq<char>) -> Option<i64>;

/// The text that the calendar library writes for a timestamp under a
/// `strftime` pattern; `None` where the timestamp lies outside the years it
/// can represent or the pattern cannot be written.
pub uninterp spec fn strftime_text(millis: i64, pattern: Seq<char>) -> Option<Seq<char>>;

/// `chrono::Utc::now`, cut to whole milliseconds. Nothing is promised of the
/// result: it is whatever the system clock says. The call panics where the
/// system clock stands before 1970.
#[verifier::external_body]
fn clock_millis() -> (millis: i64) {
    chrono::Utc::now().timestamp_millis()
}

/// `chrono::DateTime::to_rfc3339` on the UTC date and time that
/// `DateTime::from_timestamp_millis` makes of `millis`. The result is a
/// function of `millis` alone and is named `rfc3339_text`.
#[verifier::external_body]
fn chrono_to_rfc3339(millis: i64) -> (text: Option<String>)
    ensures
        match text {
            Some(s) => rfc3339_text(millis) == Some(s@),
            None => rfc3339_text(millis) is None,
        },
{
    match chrono::DateTime::from_timestamp_millis(millis) {
        Some(t) => Some(t.to_rfc3339()),
        None => None,
    }
}

/// `chrono::DateTime::parse_from_rfc3339`, the result taken as UTC
/// milliseconds by `DateTime::timestamp_millis`. The result is a function of
/// the text alone and is named `rfc3339_value`.
#[verifier::external_body]
fn chrono_parse_rfc3339(text: &str) -> (millis: Option<i64>)
    ensures
        millis == rfc3339_value(text@),
{
    match chrono::DateTime::parse_from_rfc3339(text) {
        Ok(t) => Some(t.timestamp_millis()),
        Err(_) => None,
    }
}

/// `chrono::DateTime::format` with `pattern`, written into a string, on the
/// UTC date and time that `DateTime::from_timestamp_millis` makes of
/// `millis`. Writing fails, and the result is `None`, where the pattern holds
/// an item that the library cannot write. The result is a function of the two
/// arguments alone and is named `strftime_text`.
#[verifier::external_body]
fn chrono_format(millis: i64, pattern: &str) -> (text: Option<String>)
    ensures
        match text {
            Some(s) => strftime_text(millis, pattern@) == Some(s@),
            None => strftime_text(millis, pattern@) is None,
        },
{
    let t = chrono::DateTime::from_timestamp_millis(millis)?;
    let mut out = String::new();
    match write!(out, "{}", t.format(pattern)) {
        Ok(()) => Some(out),
        Err(_) => None,
    }
}

impl Timestamp {
    /// The timestamp `millis` milliseconds after the epoch.
    pub fn from_millis(millis: i64) -> (t: Timestamp)
        ensures
            t.millis == millis,
    {
        Timestamp { millis }
    }

    /// The current time of the system clock. Nothing is promised of it: it is
    /// whatever the clock says. What follows from a given time is stated by
    /// the functions that take the time as an argument.
    pub fn now() -> (t: Timestamp) {
        Timestamp { millis: clock_millis() }
    }

    /// Whole seconds since the epoch, rounded towards the past.
    pub fn unix_secs(&self) -> (secs: i64)
        ensures
            secs == self.millis / 1000,
    {
        let q: i64 = self.millis / 1000;
        let r: i64 = self.millis % 1000;
        if r < 0 {
            q - 1
        } else {
            q
        }
    }

    /// Whole seconds from `self` to `end`; zero where `end` is not later.
    pub fn seconds_until(&self, end: Timestamp) -> (secs: u64)
        ensures
            secs == elapsed_secs(*self, end),
    {
        if end.millis > self.millis {
            let diff: i128 = end.millis as i128 - self.millis as i128;
            (diff / 1000) as u64
        } else {
            0
        }
    }

    /// Whole seconds from `self` to `later`, negative where `later` is
    /// earlier, rounded towards zero.
    pub fn age_at(&self, later: Timestamp) -> (secs: i64)
        ensures
            secs == age_secs(*self, later),
    {
        if later.millis >= self.millis {
            ((later.millis as i128 - self.millis as i128) / 1000) as i64
        } else {
            let back: i128 = (self.millis as i128 - later.millis as i128) / 1000;
            (-back) as i64
        }
    }

    /// The timestamp `millis` milliseconds before `self`, or the earliest
    /// timestamp where there is none so early.
    pub open spec fn earlier_by(self, millis: u32) -> Timestamp {
        Timestamp {
            millis: if self.millis - millis >= i64::MIN {
                (self.millis - millis) as i64
            } else {
                i64::MIN
            },
        }
    }

    /// The timestamp `millis` milliseconds before `self`, or the earliest
    /// timestamp where there is none so early.
    pub fn minus_millis(&self, millis: u32) -> (t: Timestamp)
        ensures
            t == self.earlier_by(millis),
    {
        let earlier: i128 = self.millis as i128 - millis as i128;
        if earlier >= i64::MIN as i128 {
            Timestamp { millis: earlier as i64 }
        } else {
            Timestamp { millis: i64::MIN }
        }
    }

    /// True where `self` is strictly earlier than `other`.
    pub fn is_before(&self, other: Timestamp) -> (b: bool)
        ensures
            b == (self.millis < other.millis),
    {
        self.millis < other.millis
    }

    /// The timestamp in RFC 3339 form, as the calendar library writes it.
    pub fn to_rfc3339(&self) -> (text: Option<String>)
        ensures
            match text {
                Some(s) => rfc3339_text(self.millis) == Some(s@),
                None => rfc3339_text(self.millis) is None,
            },
    {
        chrono_to_rfc3339(self.millis)
    }

    /// Reads a timestamp in RFC 3339 form.
    pub fn parse_rfc3339(text: &str) -> (t: Option<Timestamp>)
        ensures
            match t {
                Some(ts) => rfc3339_value(text@) == Some(ts.millis),
                None => rfc3339_value(text@) is None,
            },
    {
        match chrono_parse_rfc3339(text) {
            Some(millis) => Some(Timestamp { millis }),
            None => None,
        }
    }

    /// The timestamp written under a `strftime` pattern.
    pub fn format(&self, pattern: &str) -> (text: Option<String>)
        ensures
            match text {
                Some(s) => strftime_text(self.millis, pattern@) == Some(s@),
                None => strftime_text(self.millis, pattern@) is None,
            },
    {
        chrono_format(self.millis, pattern)
    }
}

/// Elapsed time never shrinks as the end point moves later.
pub proof fn lemma_elapsed_monotonic(start: Timestamp, a: Timestamp, b: Timestamp)
    requires
        a.millis <= b.millis,
    ensures
        elapsed_secs(start, a) <= elapsed_secs(start, b),
{
}

} // verus!
