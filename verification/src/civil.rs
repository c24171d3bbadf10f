//! Civil dates and times: what a calendar and a clock show, without a time zone.

use crate::text::{digit, is_plain, lemma_plain_add, other_than, without};
use vstd::prelude::*;

verus! {

/// The error type of `jiff`.
#[verifier::external_type_specification]
#[verifier::external_body]
pub struct ExJiffError(jiff::Error);

/// A date and a time of day.
#[derive(Debug, Clone, Copy, PartialEq, Eq, Structural)]
pub struct CivilDateTime {
    /// Year, in the proleptic Gregorian calendar.
    pub year: i16,

    /// Month, from 1.
    pub month: i8,

    /// Day of the month, from 1.
    pub day: i8,

    /// Hour of the day.
    pub hour: i8,

    /// Minute of the hour.
    pub minute: i8,

    /// Second of the minute.
    pub second: i8,

    /// Nanosecond of the second.
    pub subsec_nanosecond: i32,
}

/// Whether `year` has a 29th of February.
pub open spec fn is_leap_year(year: int) -> bool {
    year % 4 == 0 && (year % 100 != 0 || year % 400 == 0)
}

/// The number of days of a month.
pub open spec fn days_in_month(year: int, month: int) -> int {
    if month == 2 {
        if is_leap_year(year) {
            29
        } else {
            28
        }
    } else if month == 4 || month == 6 || month == 9 || month == 11 {
        30
    } else {
        31
    }
}

/// `n` in two decimal digits.
pub open spec fn two_digits(n: int) -> Seq<char> {
    seq![digit(n / 10), digit(n % 10)]
}

/// `n` in four decimal digits.
pub open spec fn four_digits(n: int) -> Seq<char> {
    two_digits(n / 100) + two_digits(n % 100)
}

impl CivilDateTime {
    /// Whether the fields name a day of the years -9999 to 9999 and a time of that day.
    pub open spec fn valid(self) -> bool {
        &&& -9999 <= self.year <= 9999
        &&& 1 <= self.month <= 12
        &&& 1 <= self.day <= days_in_month(self.year as int, self.month as int)
        &&& 0 <= self.hour < 24
        &&& 0 <= self.minute < 60
        &&& 0 <= self.second < 60
        &&& 0 <= self.subsec_nanosecond < 1_000_000_000
    }

    /// Whether this date and time comes before `other`.
    pub open spec fn before(self, other: CivilDateTime) -> bool {
        if self.year != other.year {
            self.year < other.year
        } else if self.month != other.month {
            self.month < other.month
        } else if self.day != other.day {
            self.day < other.day
        } else if self.hour != other.hour {
            self.hour < other.hour
        } else if self.minute != other.minute {
            self.minute < other.minute
        } else if self.second != other.second {
            self.second < other.second
        } else {
            self.subsec_nanosecond < other.subsec_nanosecond
        }
    }

    /// The day after this one, at the same time.
    pub open spec fn next_day(self) -> CivilDateTime {
        if self.day < days_in_month(self.year as int, self.month as int) {
            CivilDateTime { day: (self.day + 1) as i8, ..self }
        } else if self.month < 12 {
            CivilDateTime { month: (self.month + 1) as i8, day: 1, ..self }
        } else {
            CivilDateTime { year: (self.year + 1) as i16, month: 1, day: 1, ..self }
        }
    }

    /// The day before this one, at the same time.
    pub open spec fn previous_day(self) -> CivilDateTime {
        if self.day > 1 {
            CivilDateTime { day: (self.day - 1) as i8, ..self }
        } else if self.month > 1 {
            CivilDateTime {
                month: (self.month - 1) as i8,
                day: days_in_month(self.year as int, self.month - 1) as i8,
                ..self
            }
        } else {
            CivilDateTime { year: (self.year - 1) as i16, month: 12, day: 31, ..self }
        }
    }

    /// Whether rounding to the nearest second reaches midnight.
    pub open spec fn rounds_past_midnight(self) -> bool {
        &&& self.hour == 23
        &&& self.minute == 59
        &&& self.second == 59
        &&& self.subsec_nanosecond >= 500_000_000
    }

    /// Whether rounding to the nearest second leaves the years -9999 to 9999.
    pub open spec fn rounds_out_of_range(self) -> bool {
        &&& self.rounds_past_midnight()
        &&& {
            ||| self.year == 9999 && self.month == 12 && self.day == 31
            ||| self.year == -9999 && self.month == 1 && self.day == 1
        }
    }

    /// This date and time, rounded to the nearest second, a half upwards.
    ///
    /// A time that is rounded past midnight takes the date along: to the next day in a year after
    /// 0, to the previous day in a year before 0, and not at all in the year 0.
    pub open spec fn rounded(self) -> CivilDateTime {
        let whole = CivilDateTime { subsec_nanosecond: 0, ..self };
        if self.subsec_nanosecond < 500_000_000 {
            whole
        } else if self.second < 59 {
            CivilDateTime { second: (self.second + 1) as i8, ..whole }
        } else if self.minute < 59 {
            CivilDateTime { minute: (self.minute + 1) as i8, second: 0, ..whole }
        } else if self.hour < 23 {
            CivilDateTime { hour: (self.hour + 1) as i8, minute: 0, second: 0, ..whole }
        } else {
            let midnight = CivilDateTime { hour: 0, minute: 0, second: 0, ..whole };
            if self.year > 0 {
                midnight.next_day()
            } else if self.year < 0 {
                midnight.previous_day()
            } else {
                midnight
            }
        }
    }

    /// The date, written `2026-01-02`. A year before 0 has a sign and six digits.
    pub open spec fn date_text(self) -> Seq<char> {
        let year = if self.year < 0 {
            seq!['-', '0', '0'] + four_digits(-self.year)
        } else {
            four_digits(self.year as int)
        };
        year + seq!['-'] + two_digits(self.month as int) + seq!['-'] + two_digits(self.day as int)
    }

    /// The date and the whole seconds of the time, written `2026-01-02T15:45:00`.
    pub open spec fn extended_text(self) -> Seq<char> {
        self.date_text() + seq!['T'] + two_digits(self.hour as int) + seq![':'] + two_digits(
            self.minute as int,
        ) + seq![':'] + two_digits(self.second as int)
    }

    /// The date and the whole seconds of the time, written `2026-01-02T154500`.
    pub open spec fn compact_text(self) -> Seq<char> {
        self.date_text() + seq!['T'] + two_digits(self.hour as int) + two_digits(
            self.minute as int,
        ) + two_digits(self.second as int)
    }

    /// Whether rounding to the nearest second leaves the years -9999 to 9999.
    pub fn is_rounded_out_of_range(&self) -> (res: bool)
        ensures
            res == self.rounds_out_of_range(),
    {
        self.hour == 23 && self.minute == 59 && self.second == 59 && self.subsec_nanosecond
            >= 500_000_000 && ((self.year == 9999 && self.month == 12 && self.day == 31) || (
        self.year == -9999 && self.month == 1 && self.day == 1))
    }

    /// Whether this date and time comes before `other`.
    pub fn is_before(&self, other: &CivilDateTime) -> (res: bool)
        ensures
            res == self.before(*other),
    {
        if self.year != other.year {
            self.year < other.year
        } else if self.month != other.month {
            self.month < other.month
        } else if self.day != other.day {
            self.day < other.day
        } else if self.hour != other.hour {
            self.hour < other.hour
        } else if self.minute != other.minute {
            self.minute < other.minute
        } else if self.second != other.second {
            self.second < other.second
        } else {
            self.subsec_nanosecond < other.subsec_nanosecond
        }
    }
}

/// Whether `c` is a decimal digit.
pub open spec fn is_digit(c: char) -> bool {
    '0' <= c <= '9'
}

/// Whether `c` may be part of a date.
pub open spec fn is_in_date(c: char) -> bool {
    is_digit(c) || c == '-' || c == '+'
}

/// Whether the date at the beginning of `text` ends at `i`, and a time follows it.
pub open spec fn has_time_at(text: Seq<char>, i: int) -> bool {
    &&& 0 <= i < text.len() - 1
    &&& forall|j: int| 0 <= j < i ==> is_in_date(#[trigger] text[j])
    &&& text[i] == 'T' || text[i] == 't'
    &&& is_digit(text[i + 1])
}

/// Whether `text` goes on with a time after its date.
pub open spec fn has_time(text: Seq<char>) -> bool {
    exists|i: int| has_time_at(text, i)
}

/// Determine whether `text` goes on with a time after its date.
pub(crate) fn has_time_of_day(text: &str) -> (res: bool)
    ensures
        res == has_time(text@),
{
    let n = text.unicode_len();
    let mut i: usize = 0;
    while i < n
        invariant
            n == text@.len(),
            i <= n,
            forall|j: int| 0 <= j < i ==> is_in_date(#[trigger] text@[j]),
        decreases n - i,
    {
        let c = text.get_char(i);
        if !(('0' <= c && c <= '9') || c == '-' || c == '+') {
            let mut found = false;
            if (c == 'T' || c == 't') && i + 1 < n {
                let next = text.get_char(i + 1);
                found = '0' <= next && next <= '9';
            }
            assert(found == has_time_at(text@, i as int));
            assert forall|k: int| has_time_at(text@, k) implies k == i by {
                if k > i {
                    assert(is_in_date(text@[i as int]));
                } else if k < i {
                    assert(is_in_date(text@[k]));
                }
            }
            return found;
        }
        i += 1;
    }
    assert forall|k: int| !has_time_at(text@, k) by {
        if 0 <= k < n {
            assert(is_in_date(text@[k]));
        }
    }
    false
}

/// The date and time that a text stands for, by `<jiff::civil::DateTime as FromStr>::from_str`.
pub uninterp spec fn parsed_date_time(text: Seq<char>) -> Option<CivilDateTime>;

/// Round to the nearest second.
///
/// Calls `jiff::civil::DateTime::round` with `jiff::Unit::Second`. It rounds a half away from
/// zero, moves the date by the sign of the year where the time reaches midnight, and fails only
/// where that leaves the range of dates.
#[verifier::external_body]
pub(crate) fn round_to_second(dt: CivilDateTime) -> (res: Result<CivilDateTime, jiff::Error>)
    requires
        dt.valid(),
    ensures
        res is Ok <==> !dt.rounds_out_of_range(),
        res matches Ok(rounded) ==> rounded == dt.rounded(),
{
    let CivilDateTime { year, month, day, hour, minute, second, subsec_nanosecond } = dt;
    jiff::civil::DateTime::new(year, month, day, hour, minute, second, subsec_nanosecond)
        .expect("a valid date and time")
        .round(jiff::Unit::Second)
        .map(|dt| CivilDateTime {
            year: dt.year(),
            month: dt.month(),
            day: dt.day(),
            hour: dt.hour(),
            minute: dt.minute(),
            second: dt.second(),
            subsec_nanosecond: dt.subsec_nanosecond(),
        })
}

/// Write a date and time, without fractions of a second.
///
/// Formats a `jiff::civil::DateTime` with the precision 0, which leaves the fraction out.
#[verifier::external_body]
pub(crate) fn write_date_time(dt: CivilDateTime) -> (res: String)
    requires
        dt.valid(),
    ensures
        res@ == dt.extended_text(),
{
    let CivilDateTime { year, month, day, hour, minute, second, subsec_nanosecond } = dt;
    let dt = jiff::civil::DateTime::new(year, month, day, hour, minute, second, subsec_nanosecond)
        .expect("a valid date and time");
    format!("{dt:.0}")
}

/// Read a date and time.
///
/// Calls `<jiff::civil::DateTime as FromStr>::from_str`, whose grammar is not spelled out here. It
/// takes the compact text of a date and time back to that date and time.
#[verifier::external_body]
pub(crate) fn parse_date_time(text: &str) -> (res: Option<CivilDateTime>)
    ensures
        res == parsed_date_time(text@),
        res matches Some(dt) ==> dt.valid(),
        forall|dt: CivilDateTime|
            dt.valid() && dt.subsec_nanosecond == 0 && text@ == #[trigger] dt.compact_text()
                ==> res == Some(dt),
{
    text.parse::<jiff::civil::DateTime>().ok().map(|dt| CivilDateTime {
        year: dt.year(),
        month: dt.month(),
        day: dt.day(),
        hour: dt.hour(),
        minute: dt.minute(),
        second: dt.second(),
        subsec_nanosecond: dt.subsec_nanosecond(),
    })
}

/// Rounding gives a valid date and time with whole seconds.
pub proof fn lemma_rounded_valid(dt: CivilDateTime)
    requires
        dt.valid(),
        !dt.rounds_out_of_range(),
    ensures
        dt.rounded().valid(),
        dt.rounded().subsec_nanosecond == 0,
{
}

/// Plain text is what it was after colons are taken out.
proof fn lemma_no_colons_to_take_out(s: Seq<char>)
    requires
        is_plain(s),
    ensures
        without(s, ':') == s,
    decreases s.len(),
{
    reveal(Seq::filter);
    if s.len() > 0 {
        lemma_no_colons_to_take_out(s.drop_last());
        assert(s.drop_last().push(s.last()) =~= s);
    }
}

proof fn lemma_two_digits(n: int)
    requires
        0 <= n < 100,
    ensures
        is_plain(two_digits(n)),
{
    assert(0 <= n / 10 < 10 && 0 <= n % 10 < 10);
}

proof fn lemma_date_text(dt: CivilDateTime)
    requires
        dt.valid(),
    ensures
        is_plain(dt.date_text()),
{
    let n: int = if dt.year < 0 {
        -dt.year
    } else {
        dt.year as int
    };
    let year = if dt.year < 0 {
        seq!['-', '0', '0'] + four_digits(n)
    } else {
        four_digits(n)
    };
    lemma_two_digits(n / 100);
    lemma_two_digits(n % 100);
    lemma_plain_add(two_digits(n / 100), two_digits(n % 100));
    lemma_plain_add(seq!['-', '0', '0'], four_digits(n));
    lemma_two_digits(dt.month as int);
    lemma_two_digits(dt.day as int);
    let month = two_digits(dt.month as int);
    lemma_plain_add(year, seq!['-']);
    lemma_plain_add(year + seq!['-'], month);
    lemma_plain_add(year + seq!['-'] + month, seq!['-']);
    lemma_plain_add(year + seq!['-'] + month + seq!['-'], two_digits(dt.day as int));
}

proof fn lemma_take_out_colons(head: Seq<char>, minute: Seq<char>, second: Seq<char>)
    requires
        is_plain(head),
        is_plain(minute),
        is_plain(second),
    ensures
        without(head + seq![':'] + minute + seq![':'] + second, ':') == head + minute + second,
{
    let colon = seq![':'];
    lemma_no_colons_to_take_out(head);
    lemma_no_colons_to_take_out(minute);
    lemma_no_colons_to_take_out(second);
    assert(without(colon, ':') =~= Seq::<char>::empty()) by {
        reveal_with_fuel(Seq::<_>::filter, 2);
        assert(colon.drop_last() =~= Seq::<char>::empty());
    }
    Seq::filter_distributes_over_add(head, colon, other_than(':'));
    Seq::filter_distributes_over_add(head + colon, minute, other_than(':'));
    Seq::filter_distributes_over_add(head + colon + minute, colon, other_than(':'));
    Seq::filter_distributes_over_add(head + colon + minute + colon, second, other_than(':'));
    assert(head + Seq::<char>::empty() =~= head);
    assert(head + minute + Seq::<char>::empty() =~= head + minute);
}

proof fn lemma_two_digits_in_date(n: int)
    requires
        0 <= n < 100,
    ensures
        two_digits(n).len() == 2,
        is_digit(two_digits(n)[0]),
        is_digit(two_digits(n)[1]),
{
    assert(0 <= n / 10 < 10 && 0 <= n % 10 < 10);
}

/// The compact text of a date and time goes on with the time after the date.
pub proof fn lemma_compact_text_has_time(dt: CivilDateTime)
    requires
        dt.valid(),
    ensures
        has_time(dt.compact_text()),
{
    let date = dt.date_text();
    let text = dt.compact_text();
    let n: int = if dt.year < 0 {
        -dt.year
    } else {
        dt.year as int
    };
    lemma_two_digits_in_date(n / 100);
    lemma_two_digits_in_date(n % 100);
    lemma_two_digits_in_date(dt.month as int);
    lemma_two_digits_in_date(dt.day as int);
    lemma_two_digits_in_date(dt.hour as int);
    assert forall|j: int| 0 <= j < date.len() implies is_in_date(#[trigger] text[j]) by {
        assert(text[j] == date[j]);
    }
    assert(text[date.len() as int] == 'T');
    assert(text[date.len() as int + 1] == two_digits(dt.hour as int)[0]);
    assert(has_time_at(text, date.len() as int));
}

/// The compact text is plain. It is the extended text with the colons taken out.
pub proof fn lemma_compact_text(dt: CivilDateTime)
    requires
        dt.valid(),
    ensures
        is_plain(dt.compact_text()),
        without(dt.extended_text(), ':') == dt.compact_text(),
{
    let hour = two_digits(dt.hour as int);
    lemma_date_text(dt);
    lemma_two_digits(dt.hour as int);
    lemma_two_digits(dt.minute as int);
    lemma_two_digits(dt.second as int);
    lemma_plain_add(dt.date_text(), seq!['T']);
    lemma_plain_add(dt.date_text() + seq!['T'], hour);
    let minute = two_digits(dt.minute as int);
    lemma_plain_add(dt.date_text() + seq!['T'] + hour, minute);
    lemma_plain_add(
        dt.date_text() + seq!['T'] + hour + minute,
        two_digits(dt.second as int),
    );
    lemma_take_out_colons(
        dt.date_text() + seq!['T'] + hour,
        minute,
        two_digits(dt.second as int),
    );
}

} // verus!
