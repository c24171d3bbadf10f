//! How long to wait for a connection.

use crate::text::{concat3, decimal, numeral};
use vstd::prelude::*;

verus! {

/// A length of time.
#[derive(Debug, Clone, Copy, PartialEq, Eq, Structural)]
pub struct WaitTime {
    secs: u64,
    nanos: u32,
}

impl WaitTime {
    #[verifier::type_invariant]
    spec fn less_than_a_second_left(self) -> bool {
        self.nanos < 1_000_000_000
    }

    /// The length in nanoseconds.
    pub closed spec fn nanoseconds(self) -> nat {
        (self.secs * 1_000_000_000 + self.nanos) as nat
    }

    /// `secs` seconds and `nanos` nanoseconds, of which there must be less than a second's worth.
    pub fn new(secs: u64, nanos: u32) -> (res: Option<WaitTime>)
        ensures
            res is Some <==> nanos < 1_000_000_000,
            res matches Some(time) ==> time.nanoseconds() == secs * 1_000_000_000 + nanos,
    {
        if nanos < 1_000_000_000 {
            Some(WaitTime { secs, nanos })
        } else {
            None
        }
    }

    /// The whole seconds.
    pub fn as_secs(&self) -> (res: u64)
        ensures
            res == self.nanoseconds() / 1_000_000_000,
    {
        proof {
            use_type_invariant(self);
        }
        self.secs
    }

    /// The nanoseconds that are left without the whole seconds.
    pub fn subsec_nanos(&self) -> (res: u32)
        ensures
            res == self.nanoseconds() % 1_000_000_000,
    {
        proof {
            use_type_invariant(self);
        }
        self.nanos
    }
}

/// A span of time in calendar and clock units, which are not balanced against each other.
#[derive(Debug, Clone, Copy, PartialEq, Eq, Structural)]
pub struct Span {
    /// Years.
    pub years: i16,

    /// Months.
    pub months: i32,

    /// Weeks.
    pub weeks: i32,

    /// Days.
    pub days: i32,

    /// Hours.
    pub hours: i32,

    /// Minutes.
    pub minutes: i64,

    /// Seconds.
    pub seconds: i64,

    /// Milliseconds.
    pub milliseconds: i64,

    /// Microseconds.
    pub microseconds: i64,

    /// Nanoseconds.
    pub nanoseconds: i64,
}

impl Span {
    /// Whether no unit is negative.
    pub open spec fn not_negative(self) -> bool {
        &&& self.years >= 0
        &&& self.months >= 0
        &&& self.weeks >= 0
        &&& self.days >= 0
        &&& self.hours >= 0
        &&& self.minutes >= 0
        &&& self.seconds >= 0
        &&& self.milliseconds >= 0
        &&& self.microseconds >= 0
        &&& self.nanoseconds >= 0
    }

    /// Whether no unit is positive.
    pub open spec fn not_positive(self) -> bool {
        &&& self.years <= 0
        &&& self.months <= 0
        &&& self.weeks <= 0
        &&& self.days <= 0
        &&& self.hours <= 0
        &&& self.minutes <= 0
        &&& self.seconds <= 0
        &&& self.milliseconds <= 0
        &&& self.microseconds <= 0
        &&& self.nanoseconds <= 0
    }

    /// Whether all units point in the same direction and are within their limits.
    pub open spec fn valid(self) -> bool {
        &&& self.not_negative() || self.not_positive()
        &&& -19_998 <= self.years <= 19_998
        &&& -239_976 <= self.months <= 239_976
        &&& -1_043_497 <= self.weeks <= 1_043_497
        &&& -7_304_484 <= self.days <= 7_304_484
        &&& -175_307_616 <= self.hours <= 175_307_616
        &&& -10_518_456_960 <= self.minutes <= 10_518_456_960
        &&& -631_107_417_600 <= self.seconds <= 631_107_417_600
        &&& -631_107_417_600_000 <= self.milliseconds <= 631_107_417_600_000
        &&& -631_107_417_600_000_000 <= self.microseconds <= 631_107_417_600_000_000
        &&& -9_223_372_036_854_775_807 <= self.nanoseconds
    }

    /// Whether the length of the span is known without a calendar, and the span does not go back
    /// in time.
    pub open spec fn has_length(self) -> bool {
        &&& self.not_negative()
        &&& self.years == 0
        &&& self.months == 0
        &&& self.weeks == 0
        &&& self.days == 0
    }

    /// The length of a span without calendar units, in nanoseconds.
    pub open spec fn length(self) -> int {
        ((self.hours * 60 + self.minutes) * 60 + self.seconds) * 1_000_000_000 + self.milliseconds
            * 1_000_000 + self.microseconds * 1_000 + self.nanoseconds
    }
}

/// The span that a text stands for, by `<jiff::Span as FromStr>::from_str`.
pub uninterp spec fn parsed_span(text: Seq<char>) -> Option<Span>;

/// Read a span.
///
/// Calls `<jiff::Span as FromStr>::from_str`, whose grammars, the ISO 8601 one and the friendly
/// one, are not spelled out here. The units of a `jiff::Span` share one sign and have limits.
#[verifier::external_body]
fn parse_span(text: &str) -> (res: Result<Span, jiff::Error>)
    ensures
        match res {
            Ok(span) => parsed_span(text@) == Some(span) && span.valid(),
            Err(_) => parsed_span(text@) is None,
        },
{
    text.parse::<jiff::Span>().map(|span| Span {
        years: span.get_years(),
        months: span.get_months(),
        weeks: span.get_weeks(),
        days: span.get_days(),
        hours: span.get_hours(),
        minutes: span.get_minutes(),
        seconds: span.get_seconds(),
        milliseconds: span.get_milliseconds(),
        microseconds: span.get_microseconds(),
        nanoseconds: span.get_nanoseconds(),
    })
}

/// Determine the length of a span.
///
/// Calls `<std::time::Duration as TryFrom<jiff::Span>>::try_from`, which refuses spans that are
/// negative or have a unit greater than hours.
#[verifier::external_body]
fn span_length(span: Span) -> (res: Result<WaitTime, jiff::Error>)
    requires
        span.valid(),
    ensures
        res is Ok <==> span.has_length(),
        res matches Ok(time) ==> time.nanoseconds() == span.length(),
{
    let Span { years, months, weeks, days, hours, minutes, seconds, .. } = span;
    let Span { milliseconds, microseconds, nanoseconds, .. } = span;
    let span = jiff::Span::new().years(years).months(months).weeks(weeks).days(days).hours(hours);
    let span = span.minutes(minutes).seconds(seconds).milliseconds(milliseconds);
    let span = span.microseconds(microseconds).nanoseconds(nanoseconds);
    std::time::Duration::try_from(span).map(|duration| WaitTime {
        secs: duration.as_secs(),
        nanos: duration.subsec_nanos(),
    })
}

/// Why a timeout is not accepted.
#[derive(Debug)]
pub enum TimeoutError {
    /// The span could not be read, or its length is not known.
    Span(jiff::Error),

    /// The timeout is too long.
    TooLong {
        /// Maximum length in seconds.
        max: u64,
    },
}

impl TimeoutError {
    /// Describe a timeout that is too long. The other errors describe themselves.
    pub fn message(&self) -> (res: Option<String>)
        ensures
            match *self {
                TimeoutError::Span(_) => res is None,
                TimeoutError::TooLong { max } => res matches Some(text) && text@
                    == "timeout must be less than "@ + numeral(max as nat) + " seconds long"@,
            },
    {
        match self {
            TimeoutError::Span(_) => None,
            TimeoutError::TooLong { max } => Some(
                concat3("timeout must be less than ", decimal(*max).as_str(), " seconds long"),
            ),
        }
    }
}

/// How long a connection should be open before timing out.
///
/// `S` is max number of seconds a timeout can be.
#[derive(Debug, Clone, Copy, PartialEq, Eq)]
pub struct Timeout<const S: u64> {
    duration: WaitTime,
}

impl<const S: u64> Timeout<S> {
    /// The length of the timeout.
    pub closed spec fn spec_duration(self) -> WaitTime {
        self.duration
    }

    #[verifier::type_invariant]
    spec fn within_maximum(self) -> bool {
        self.duration.nanoseconds() <= S * 1_000_000_000
    }

    /// Create a new timeout.
    ///
    /// # Errors
    ///
    /// Returns an error if the `duration` is longer than `S` seconds.
    pub fn new(duration: WaitTime) -> (res: Result<Timeout<S>, TimeoutError>)
        ensures
            match res {
                Ok(timeout) => duration.nanoseconds() <= S * 1_000_000_000
                    && timeout.spec_duration() == duration,
                Err(error) => duration.nanoseconds() > S * 1_000_000_000
                    && error == (TimeoutError::TooLong { max: S }),
            },
    {
        proof {
            use_type_invariant(&duration);
        }
        if duration.secs < S || (duration.secs == S && duration.nanos == 0) {
            Ok(Timeout { duration })
        } else {
            Err(TimeoutError::TooLong { max: S })
        }
    }

    /// Create a timeout of the length of a span.
    ///
    /// # Errors
    ///
    /// Returns an error if the span is negative, has units greater than hours, or is longer than
    /// `S` seconds.
    pub fn try_from_span(span: Span) -> (res: Result<Timeout<S>, TimeoutError>)
        requires
            span.valid(),
        ensures
            match res {
                Ok(timeout) => {
                    &&& span.has_length()
                    &&& span.length() <= S * 1_000_000_000
                    &&& timeout.spec_duration().nanoseconds() == span.length()
                },
                Err(TimeoutError::Span(_)) => !span.has_length(),
                Err(TimeoutError::TooLong { max }) => {
                    &&& max == S
                    &&& span.has_length()
                    &&& span.length() > S * 1_000_000_000
                },
            },
    {
        match span_length(span) {
            Ok(duration) => Timeout::new(duration),
            Err(error) => Err(TimeoutError::Span(error)),
        }
    }

    /// Read a timeout from a text such as `5 seconds`.
    ///
    /// # Errors
    ///
    /// Returns an error if the text is not a span of time, or the span is negative, has units
    /// greater than hours, or is longer than `S` seconds.
    pub fn from_str(text: &str) -> (res: Result<Timeout<S>, TimeoutError>)
        ensures
            match res {
                Ok(timeout) => parsed_span(text@) matches Some(span) && span.has_length()
                    && span.length() <= S * 1_000_000_000
                    && timeout.spec_duration().nanoseconds() == span.length(),
                Err(TimeoutError::Span(_)) => parsed_span(text@) matches Some(span)
                    ==> !span.has_length(),
                Err(TimeoutError::TooLong { max }) => max == S && (parsed_span(
                    text@,
                ) matches Some(span) && span.has_length() && span.length() > S * 1_000_000_000),
            },
    {
        match parse_span(text) {
            Ok(span) => Timeout::try_from_span(span),
            Err(error) => Err(TimeoutError::Span(error)),
        }
    }

    /// The length of the timeout, which is never more than `S` seconds.
    pub fn duration(&self) -> (res: WaitTime)
        ensures
            res == self.spec_duration(),
            res.nanoseconds() <= S * 1_000_000_000,
    {
        proof {
            use_type_invariant(self);
        }
        self.duration
    }
}

/// The units of a span have their lengths in nanoseconds, which add up. A span has a length if and only
/// if it does not go back in time and has no unit greater than hours.
pub proof fn units_of_a_span_add_up(span: Span)
    ensures
        span.length() == span.hours * 3_600_000_000_000 + span.minutes * 60_000_000_000
            + span.seconds * 1_000_000_000 + span.milliseconds * 1_000_000 + span.microseconds
            * 1_000 + span.nanoseconds,
        span.has_length() <==> {
            &&& span.years == 0 && span.months == 0 && span.weeks == 0 && span.days == 0
            &&& span.hours >= 0 && span.minutes >= 0 && span.seconds >= 0
            &&& span.milliseconds >= 0 && span.microseconds >= 0 && span.nanoseconds >= 0
        },
        span.has_length() ==> span.length() >= 0,
{
}

} // verus!
