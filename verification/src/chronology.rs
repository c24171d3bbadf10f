//! What dates and times are in terms of the time that passes.

use crate::civil::{days_in_month, CivilDateTime};
use crate::text::digit;
use vstd::prelude::*;

verus! {

/// The number of days from the first day of the year 0 to the first day of `year`. Every fourth year
/// is a leap year, but of those that begin a century only every fourth.
pub open spec fn days_before_year(year: int) -> int {
    365 * year + (year + 3) / 4 - (year + 99) / 100 + (year + 399) / 400
}

/// The number of days in the months of `year` that come before `month`.
pub open spec fn days_before_month(year: int, month: int) -> int
    decreases month,
{
    if month <= 1 {
        0
    } else {
        days_before_month(year, month - 1) + days_in_month(year, month - 1)
    }
}

/// The number of days from the first day of the year 0 to the day of `at`.
pub open spec fn day_number(at: CivilDateTime) -> int {
    days_before_year(at.year as int) + days_before_month(at.year as int, at.month as int) + at.day
        - 1
}

/// The number of nanoseconds from the beginning of the day to `at`.
pub open spec fn nanoseconds_of_day(at: CivilDateTime) -> int {
    ((at.hour * 60 + at.minute) * 60 + at.second) * 1_000_000_000 + at.subsec_nanosecond
}

/// The number of nanoseconds from the beginning of the year 0 to `at`.
pub open spec fn instant(at: CivilDateTime) -> int {
    day_number(at) * 86_400_000_000_000 + nanoseconds_of_day(at)
}

/// Months take turns in having 31 and 30 days, with July and August in a row, and February is cut
/// short. Together they have the days that pass from one year to the next.
pub proof fn months_fill_the_year(year: int)
    ensures
        forall|month: int|
            1 <= month <= 12 && month != 2 ==> #[trigger] days_in_month(year, month) == 30 + (month
                + month / 8) % 2,
        days_in_month(year, 2) == 28 + (days_before_year(year + 1) - days_before_year(year) - 365),
        days_before_month(year, 13) == days_before_year(year + 1) - days_before_year(year),
        365 <= days_before_year(year + 1) - days_before_year(year) <= 366,
{
    reveal_with_fuel(days_before_month, 13);
}

proof fn lemma_months_add_up(year: int, month: int, later: int)
    requires
        1 <= month < later <= 13,
    ensures
        days_before_month(year, month) + days_in_month(year, month) <= days_before_month(
            year,
            later,
        ),
    decreases later,
{
    if month < later - 1 {
        lemma_months_add_up(year, month, later - 1);
    }
}

proof fn lemma_months_not_negative(year: int, month: int)
    requires
        month <= 13,
    ensures
        days_before_month(year, month) >= 0,
    decreases month,
{
    if month > 1 {
        lemma_months_not_negative(year, month - 1);
    }
}

proof fn lemma_years_add_up(year: int, later: int)
    requires
        year < later,
    ensures
        days_before_year(year + 1) <= days_before_year(later),
    decreases later - year,
{
    if year + 1 < later {
        lemma_years_add_up(year, later - 1);
        months_fill_the_year(later - 1);
    }
}

proof fn lemma_day_is_in_year(at: CivilDateTime)
    requires
        at.valid(),
    ensures
        days_before_year(at.year as int) <= day_number(at) < days_before_year(at.year + 1),
{
    let year = at.year as int;
    months_fill_the_year(year);
    lemma_months_not_negative(year, at.month as int);
    lemma_months_add_up(year, at.month as int, 13);
}

/// Days are numbered in the order of the calendar.
proof fn lemma_days_are_in_order(a: CivilDateTime, b: CivilDateTime)
    requires
        a.valid(),
        b.valid(),
        a.year < b.year || (a.year == b.year && a.month < b.month) || (a.year == b.year && a.month
            == b.month && a.day < b.day),
    ensures
        day_number(a) < day_number(b),
{
    lemma_day_is_in_year(a);
    lemma_day_is_in_year(b);
    if a.year < b.year {
        lemma_years_add_up(a.year as int, b.year as int);
    } else if a.month < b.month {
        lemma_months_add_up(a.year as int, a.month as int, b.month as int);
    }
}

proof fn lemma_time_is_in_day(at: CivilDateTime)
    requires
        at.valid(),
    ensures
        0 <= nanoseconds_of_day(at) < 86_400_000_000_000,
{
}

proof fn lemma_instants_are_in_order(a: CivilDateTime, b: CivilDateTime)
    requires
        a.valid(),
        b.valid(),
        a.before(b),
    ensures
        instant(a) < instant(b),
{
    lemma_time_is_in_day(a);
    lemma_time_is_in_day(b);
    if a.year != b.year || a.month != b.month || a.day != b.day {
        lemma_days_are_in_order(a, b);
    }
}

/// Dates and times are ordered as time passes: one comes before another if and only if fewer
/// nanoseconds have passed until then.
pub proof fn order_is_chronological(a: CivilDateTime, b: CivilDateTime)
    requires
        a.valid(),
        b.valid(),
    ensures
        a.before(b) <==> instant(a) < instant(b),
        a == b <==> instant(a) == instant(b),
{
    if a.before(b) {
        lemma_instants_are_in_order(a, b);
    } else if b.before(a) {
        lemma_instants_are_in_order(b, a);
    }
}

/// A later year comes later, a later month of the same year too, and so on down to the nanosecond.
pub proof fn greater_units_decide_first(a: CivilDateTime, b: CivilDateTime)
    requires
        a.valid(),
        b.valid(),
    ensures
        a.year < b.year ==> a.before(b) && !b.before(a),
        a.year == b.year && a.month < b.month ==> a.before(b) && !b.before(a),
        a.year == b.year && a.month == b.month && a.day < b.day ==> a.before(b) && !b.before(a),
        day_number(a) == day_number(b) ==> (a.before(b) <==> nanoseconds_of_day(a)
            < nanoseconds_of_day(b)),
{
    order_is_chronological(a, b);
    order_is_chronological(b, a);
    lemma_time_is_in_day(a);
    lemma_time_is_in_day(b);
    if a.year < b.year || (a.year == b.year && a.month < b.month) || (a.year == b.year && a.month
        == b.month && a.day < b.day) {
        lemma_days_are_in_order(a, b);
    }
}

/// From a day to the next, one day passes, and the time of day stays.
pub proof fn next_day_is_a_day_later(at: CivilDateTime)
    requires
        at.valid(),
        !(at.year == 9999 && at.month == 12 && at.day == 31),
    ensures
        at.next_day().valid(),
        instant(at.next_day()) == instant(at) + 86_400_000_000_000,
        at.before(at.next_day()),
        at.next_day().previous_day() == at,
{
    let year = at.year as int;
    let next = at.next_day();
    months_fill_the_year(year);
    if at.day == days_in_month(year, at.month as int) && at.month == 12 {
        assert(days_before_month(year, 13) == days_before_month(year, 12) + days_in_month(year, 12));
    }
    assert(day_number(next) == day_number(at) + 1);
    order_is_chronological(at, next);
}

/// From the day before to a day, one day passes, and the time of day stays.
pub proof fn previous_day_is_a_day_earlier(at: CivilDateTime)
    requires
        at.valid(),
        !(at.year == -9999 && at.month == 1 && at.day == 1),
    ensures
        at.previous_day().valid(),
        instant(at.previous_day()) == instant(at) - 86_400_000_000_000,
        at.previous_day().before(at),
        at.previous_day().next_day() == at,
{
    let before = at.previous_day();
    next_day_is_a_day_later(before);
}

/// Rounding gives whole seconds and moves a date and time by at most half a second, upwards if it is
/// exactly half a second. Where it reaches midnight, this holds in the years after 0.
pub proof fn rounding_gives_the_nearest_second(at: CivilDateTime)
    requires
        at.valid(),
        !at.rounds_out_of_range(),
        at.year > 0 || !at.rounds_past_midnight(),
    ensures
        at.rounded().valid(),
        at.rounded().subsec_nanosecond == 0,
        -500_000_000 < instant(at.rounded()) - instant(at) <= 500_000_000,
        at.subsec_nanosecond == 0 ==> at.rounded() == at,
{
    if at.rounds_past_midnight() {
        let midnight = CivilDateTime { hour: 0, minute: 0, second: 0, subsec_nanosecond: 0, ..at };
        assert(day_number(midnight) == day_number(at));
        next_day_is_a_day_later(midnight);
    } else {
        assert(day_number(at.rounded()) == day_number(at));
    }
}

/// Where rounding reaches midnight in a year that is not after 0, it goes to a midnight in the past:
/// that at which the day began in the year 0, and the one before it in a year before 0.
pub proof fn rounding_past_midnight_goes_back_before_the_year_1(at: CivilDateTime)
    requires
        at.valid(),
        !at.rounds_out_of_range(),
        at.rounds_past_midnight(),
        at.year <= 0,
    ensures
        at.rounded().valid(),
        instant(at.rounded()) == (day_number(at) - if at.year < 0 {
            1int
        } else {
            0
        }) * 86_400_000_000_000,
{
    let midnight = CivilDateTime { hour: 0, minute: 0, second: 0, subsec_nanosecond: 0, ..at };
    assert(day_number(midnight) == day_number(at));
    if at.year < 0 {
        previous_day_is_a_day_earlier(midnight);
    }
}

/// Whether `a` comes before `b` where texts are sorted by their characters: in the first of them that
/// differs.
pub open spec fn sorts_before(a: Seq<char>, b: Seq<char>) -> bool {
    exists|i: int| #[trigger] differs_first_at(a, b, i) && a[i] < b[i]
}

/// Whether `a` and `b` are the same up to `i`.
pub open spec fn differs_first_at(a: Seq<char>, b: Seq<char>, i: int) -> bool {
    0 <= i < a.len() && i < b.len() && forall|j: int| 0 <= j < i ==> a[j] == b[j]
}

/// Whether `text` is what a date and time in a year from 0 on is written as: its digits, from the
/// greatest unit to the least.
pub open spec fn is_written(text: Seq<char>, at: CivilDateTime) -> bool {
    &&& text.len() == 17
    &&& text[0] == digit(at.year as int / 100 / 10)
    &&& text[1] == digit(at.year as int / 100 % 10)
    &&& text[2] == digit(at.year as int % 100 / 10)
    &&& text[3] == digit(at.year as int % 100 % 10)
    &&& text[4] == '-'
    &&& text[5] == digit(at.month as int / 10)
    &&& text[6] == digit(at.month as int % 10)
    &&& text[7] == '-'
    &&& text[8] == digit(at.day as int / 10)
    &&& text[9] == digit(at.day as int % 10)
    &&& text[10] == 'T'
    &&& text[11] == digit(at.hour as int / 10)
    &&& text[12] == digit(at.hour as int % 10)
    &&& text[13] == digit(at.minute as int / 10)
    &&& text[14] == digit(at.minute as int % 10)
    &&& text[15] == digit(at.second as int / 10)
    &&& text[16] == digit(at.second as int % 10)
}

/// In the years from 0 on, a date and time is written in 17 characters.
pub proof fn compact_text_has_its_digits_in_order(at: CivilDateTime)
    requires
        at.valid(),
        at.year >= 0,
    ensures
        is_written(at.compact_text(), at),
{
}

/// Two digits sort as the numbers that they stand for.
proof fn lemma_digits_sort(a: Seq<char>, b: Seq<char>, at: int, m: int, n: int)
    requires
        0 <= m < n < 100,
        0 <= at < a.len() - 1,
        at < b.len() - 1,
        forall|j: int| 0 <= j < at ==> a[j] == b[j],
        a[at] == digit(m / 10),
        a[at + 1] == digit(m % 10),
        b[at] == digit(n / 10),
        b[at + 1] == digit(n % 10),
    ensures
        sorts_before(a, b),
{
    if m / 10 < n / 10 {
        assert(differs_first_at(a, b, at));
        assert(a[at] < b[at]);
    } else {
        assert(differs_first_at(a, b, at + 1));
        assert(a[at + 1] < b[at + 1]);
    }
}

proof fn lemma_texts_sort(s: Seq<char>, t: Seq<char>, a: CivilDateTime, b: CivilDateTime)
    requires
        a.valid(),
        b.valid(),
        a.year >= 0,
        b.year >= 0,
        a.subsec_nanosecond == b.subsec_nanosecond,
        is_written(s, a),
        is_written(t, b),
        a.before(b),
    ensures
        sorts_before(s, t),
{
    if a.year != b.year {
        let (m, n) = (a.year as int, b.year as int);
        if m / 100 < n / 100 {
            lemma_digits_sort(s, t, 0, m / 100, n / 100);
        } else {
            lemma_digits_sort(s, t, 2, m % 100, n % 100);
        }
    } else if a.month != b.month {
        lemma_digits_sort(s, t, 5, a.month as int, b.month as int);
    } else if a.day != b.day {
        lemma_digits_sort(s, t, 8, a.day as int, b.day as int);
    } else if a.hour != b.hour {
        lemma_digits_sort(s, t, 11, a.hour as int, b.hour as int);
    } else if a.minute != b.minute {
        lemma_digits_sort(s, t, 13, a.minute as int, b.minute as int);
    } else {
        lemma_digits_sort(s, t, 15, a.second as int, b.second as int);
    }
}

/// In the years from 0 on, what dates and times with whole seconds are written as sorts as time
/// passes, so that a list of backups by name is one by age.
pub proof fn names_sort_as_time_passes(a: CivilDateTime, b: CivilDateTime)
    requires
        a.valid(),
        b.valid(),
        a.year >= 0,
        b.year >= 0,
        a.subsec_nanosecond == 0,
        b.subsec_nanosecond == 0,
        instant(a) < instant(b),
    ensures
        sorts_before(a.compact_text(), b.compact_text()),
{
    order_is_chronological(a, b);
    compact_text_has_its_digits_in_order(a);
    compact_text_has_its_digits_in_order(b);
    lemma_texts_sort(a.compact_text(), b.compact_text(), a, b);
}

/// A year before 0 is written with a sign and two zeros before its four digits, and otherwise as the
/// year after 0 with the same digits.
pub proof fn years_before_0_have_a_sign(at: CivilDateTime)
    requires
        at.valid(),
        at.year < 0,
    ensures
        at.date_text() == seq!['-', '0', '0'] + (CivilDateTime {
            year: (-at.year) as i16,
            ..at
        }).date_text(),
{
    assert(at.date_text() =~= seq!['-', '0', '0'] + (CivilDateTime {
        year: (-at.year) as i16,
        ..at
    }).date_text());
}

/// A date and time is valid if and only if it is a day of the years -9999 to 9999 by the number of days
/// that pass in its month, and a time of a day of 24 hours.
pub proof fn valid_is_what_a_calendar_and_a_clock_show(at: CivilDateTime)
    ensures
        at.valid() <==> {
            &&& -9999 <= at.year < 10000
            &&& 1 <= at.month < 13
            &&& 0 < at.day <= days_before_month(at.year as int, at.month + 1) - days_before_month(
                at.year as int,
                at.month as int,
            )
            &&& 0 <= at.hour < 24
            &&& 0 <= at.minute < 60
            &&& 0 <= at.second < 60
            &&& 0 <= at.subsec_nanosecond < 1_000_000_000
        },
{
}

/// Rounding reaches midnight in the last half second of a day. It leaves the range of dates if and
/// only if that day is the last of the year 9999 or the first of the year -9999.
pub proof fn rounding_leaves_the_range_at_its_ends(at: CivilDateTime)
    requires
        at.valid(),
    ensures
        at.rounds_past_midnight() <==> nanoseconds_of_day(at) >= 86_400_000_000_000 - 500_000_000,
        at.rounds_out_of_range() <==> at.rounds_past_midnight() && (day_number(at) + 1
            == days_before_year(10000) || day_number(at) == days_before_year(-9999)),
{
    let last = CivilDateTime { year: 9999, month: 12, day: 31, ..at };
    let first = CivilDateTime { year: -9999i16, month: 1, day: 1, ..at };
    months_fill_the_year(9999);
    assert(days_before_month(9999, 13) == days_before_month(9999, 12) + days_in_month(9999, 12));
    assert(day_number(last) + 1 == days_before_year(10000));
    assert(day_number(first) == days_before_year(-9999));
    if at != last {
        lemma_days_are_in_order(at, last);
    }
    if at != first {
        lemma_days_are_in_order(first, at);
    }
}

} // verus!
