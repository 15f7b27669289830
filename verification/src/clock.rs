//! Times as they are shown.

use chrono::{Local, TimeZone};
use vstd::prelude::*;

use crate::number::{decimal, decimal_text, two_digit_text};
use crate::text::{begins_with, concat, ends_in, has_text, inner_text, lemma_concat_holds};

verus! {

/// The last instant with a date, in milliseconds since the beginning of 1970: it lies at the end
/// of the year 262142.
pub const LAST_DATED_MS: i64 = 8_210_266_876_799_999;

/// A year with a 29th of February.
pub open spec fn is_leap_year(y: int) -> bool {
    y % 4 == 0 && (y % 100 != 0 || y % 400 == 0)
}

/// The number of days of a month.
pub open spec fn month_days(y: int, m: int) -> int {
    if m == 2 {
        if is_leap_year(y) {
            29
        } else {
            28
        }
    } else if m == 4 || m == 6 || m == 9 || m == 11 {
        30
    } else {
        31
    }
}

/// The number of days of a year before a month.
pub open spec fn days_before_month(y: int, m: int) -> int
    decreases m,
{
    if m <= 1 {
        0
    } else {
        days_before_month(y, m - 1) + month_days(y, m - 1)
    }
}

/// The number of leap years from year 1 to year `y`.
pub open spec fn leap_years_to(y: int) -> int {
    y / 4 - y / 100 + y / 400
}

/// The number of days from the beginning of 1970 to that of a year.
pub open spec fn days_to_year(y: int) -> int {
    365 * (y - 1970) + leap_years_to(y - 1) - leap_years_to(1969)
}

/// The day with this number, counted from the beginning of 1970, has this date.
pub open spec fn is_date(day: int, y: int, m: int, d: int) -> bool {
    &&& 1 <= m <= 12
    &&& 1 <= d <= month_days(y, m)
    &&& day == days_to_year(y) + days_before_month(y, m) + d - 1
}

/// A year as it is shown: from 10000 on with a plus sign.
pub open spec fn year_text(y: int) -> Seq<char> {
    if y > 9999 {
        "+"@ + decimal_text(y as nat)
    } else {
        decimal_text(y as nat)
    }
}

/// The date and the time of day, in seconds.
pub open spec fn date_time_text(y: int, m: int, d: int, second: int) -> Seq<char> {
    year_text(y) + "-"@ + two_digit_text(m as nat) + "-"@ + two_digit_text(d as nat) + " "@
        + two_digit_text((second / 3600) as nat) + ":"@ + two_digit_text(
        (second % 3600 / 60) as nat,
    ) + ":"@ + two_digit_text((second % 60) as nat)
}

/// A text shows an instant, given in seconds since the beginning of 1970.
pub open spec fn shows_instant(t: Seq<char>, seconds: int) -> bool {
    exists|y: int, m: int, d: int| #[trigger]
        is_date(seconds / 86_400, y, m, d) && t == date_time_text(y, m, d, seconds % 86_400)
}

/// A text shows an instant, given in milliseconds, as clocks do in some time zone: less than a
/// day before or after universal time.
pub open spec fn shows_local_time(t: Seq<char>, ms: int) -> bool {
    exists|offset: int|
        -86_400 < offset < 86_400 && #[trigger] shows_instant(t, ms / 1000 + offset)
}

/// `chrono::Local::timestamp_millis_opt`, made a single time and shown by
/// `chrono::DateTime::format` with the format `%Y-%m-%d %H:%M:%S`.
///
/// There is a date for every instant up to [`LAST_DATED_MS`] and for none after it. The text is
/// the Gregorian date and the time of day at an offset from universal time of less than a day.
/// Which offset that is depends on the time zone of the machine, and is left open.
#[verifier::external_body]
fn local_time_text(ms: i64) -> (r: Option<String>)
    requires
        0 <= ms,
    ensures
        r is Some <==> ms <= LAST_DATED_MS,
        r matches Some(text) ==> shows_local_time(text@, ms as int),
{
    match Local.timestamp_millis_opt(ms).single() {
        Some(time) => Some(time.format("%Y-%m-%d %H:%M:%S").to_string()),
        None => None,
    }
}

/// The local time of an instant where there is one, else the number of its milliseconds.
pub fn show_instant(timestamp_ms: u128, local_time: Option<String>) -> (r: String)
    ensures
        r@ == match inner_text(local_time) {
            Some(text) => text,
            None => decimal_text(timestamp_ms as nat),
        },
{
    match local_time {
        Some(text) => text,
        None => decimal(timestamp_ms),
    }
}

/// Shows when a session was last active: in local time, or as a number of milliseconds where
/// that has no date.
pub fn format_last_active(timestamp_ms: u128) -> (r: String)
    ensures
        timestamp_ms <= LAST_DATED_MS ==> shows_local_time(r@, timestamp_ms as int),
        timestamp_ms > LAST_DATED_MS ==> r@ == decimal_text(timestamp_ms as nat),
{
    let local_time = if timestamp_ms <= i64::MAX as u128 {
        local_time_text(timestamp_ms as i64)
    } else {
        None
    };
    show_instant(timestamp_ms, local_time)
}

/// A year has 365 days, and one more where it is divisible by four but not by a hundred, or by four
/// hundred; its months have as many together.
pub proof fn law_years_have_their_days(y: int)
    ensures
        days_to_year(1970) == 0,
        days_to_year(y + 1) - days_to_year(y) == if (y % 4 == 0 && y % 100 != 0) || y % 400 == 0 {
            366int
        } else {
            365
        },
        days_before_month(y, 13) == days_to_year(y + 1) - days_to_year(y),
{
    lemma_multiples_of_4(y);
    lemma_multiples_of_100(y);
    lemma_multiples_of_400(y);
    lemma_days_of_months(y);
    let (a, b, c) = (y / 4 - (y - 1) / 4, y / 100 - (y - 1) / 100, y / 400 - (y - 1) / 400);
    assert(leap_years_to(y) - leap_years_to(y - 1) == a - b + c);
    assert(days_to_year(y + 1) - days_to_year(y) == 365 + a - b + c);
}

proof fn lemma_multiples_of_4(y: int)
    ensures
        y / 4 - (y - 1) / 4 == if y % 4 == 0 {
            1int
        } else {
            0
        },
{
}

proof fn lemma_multiples_of_100(y: int)
    ensures
        y / 100 - (y - 1) / 100 == if y % 100 == 0 {
            1int
        } else {
            0
        },
        y % 100 == 0 ==> y % 4 == 0,
{
}

proof fn lemma_multiples_of_400(y: int)
    ensures
        y / 400 - (y - 1) / 400 == if y % 400 == 0 {
            1int
        } else {
            0
        },
        y % 400 == 0 ==> y % 100 == 0,
{
}

proof fn lemma_days_of_months(y: int)
    ensures
        days_before_month(y, 13) == 337 + month_days(y, 2),
{
    reveal_with_fuel(days_before_month, 14);
}

/// The day after a date is the next of the month, or the first of the next month, or that of the
/// next year; and the days are counted from the first of January 1970.
pub proof fn law_dates_follow_each_other(day: int, y: int, m: int, d: int)
    ensures
        is_date(0, 1970, 1, 1),
        is_date(day, y, m, d) && d < month_days(y, m) ==> is_date(day + 1, y, m, d + 1),
        is_date(day, y, m, d) && d == month_days(y, m) && m < 12 ==> is_date(day + 1, y, m + 1, 1),
        is_date(day, y, m, d) && d == month_days(y, m) && m == 12 ==> is_date(
            day + 1,
            y + 1,
            1,
            1,
        ),
{
    law_years_have_their_days(y);
    law_years_have_their_days(1970);
}

/// The months have their usual numbers of days.
pub proof fn law_months_have_their_days(y: int)
    ensures
        month_days(y, 1) == 31 && month_days(y, 3) == 31 && month_days(y, 5) == 31 && month_days(
            y,
            7,
        ) == 31 && month_days(y, 8) == 31 && month_days(y, 10) == 31 && month_days(y, 12) == 31,
        month_days(y, 4) == 30 && month_days(y, 6) == 30 && month_days(y, 9) == 30 && month_days(
            y,
            11,
        ) == 30,
        month_days(y, 2) == 28 || month_days(y, 2) == 29,
{
}

/// A time is shown by its year, month, day, hour, minute and second, in this order and with signs
/// between them.
pub proof fn law_times_show_their_parts(y: int, m: int, d: int, second: int)
    requires
        0 <= y,
    ensures
        ({
            let t = date_time_text(y, m, d, second);
            &&& begins_with(t, year_text(y))
            &&& y <= 9999 ==> year_text(y) == decimal_text(y as nat)
            &&& y > 9999 ==> year_text(y) == "+"@ + decimal_text(y as nat)
            &&& has_text(t, "-"@ + two_digit_text(m as nat))
            &&& has_text(t, "-"@ + two_digit_text(d as nat))
            &&& has_text(t, " "@ + two_digit_text((second / 3600) as nat))
            &&& has_text(t, ":"@ + two_digit_text((second % 3600 / 60) as nat))
            &&& ends_in(t, ":"@ + two_digit_text((second % 60) as nat))
        }),
{
    let parts = seq![
        year_text(y),
        "-"@,
        two_digit_text(m as nat),
        "-"@,
        two_digit_text(d as nat),
        " "@,
        two_digit_text((second / 3600) as nat),
        ":"@,
        two_digit_text((second % 3600 / 60) as nat),
        ":"@,
        two_digit_text((second % 60) as nat),
    ];
    let t = date_time_text(y, m, d, second);
    reveal_with_fuel(concat, 12);
    assert(Seq::<char>::empty() + parts[0] =~= parts[0]);
    assert(t == concat(parts, 11));
    lemma_concat_holds(parts, 11, 1);
    lemma_concat_holds(parts, 11, 3);
    lemma_concat_holds(parts, 11, 5);
    lemma_concat_holds(parts, 11, 7);
    assert(t.subrange(0, year_text(y).len() as int) =~= year_text(y));
    let tail = ":"@ + two_digit_text((second % 60) as nat);
    assert(t.subrange(t.len() - tail.len(), t.len() as int) =~= tail);
}

/// What shows an instant shows it at its day and second, with the date that the day has.
pub proof fn law_shown_instants_are_dated(t: Seq<char>, seconds: int)
    requires
        shows_instant(t, seconds),
    ensures
        exists|y: int, m: int, d: int|
            {
                &&& 1 <= m <= 12
                &&& 1 <= d <= month_days(y, m)
                &&& days_to_year(y) + days_before_month(y, m) + d - 1 == seconds / 86_400
                &&& t == #[trigger] date_time_text(y, m, d, seconds % 86_400)
            },
{
}

/// What shows an instant in local time shows one less than a day from it.
pub proof fn law_local_times_are_near(t: Seq<char>, ms: int)
    requires
        shows_local_time(t, ms),
    ensures
        exists|seconds: int|
            ms / 1000 - 86_400 < seconds < ms / 1000 + 86_400 && #[trigger] shows_instant(
                t,
                seconds,
            ),
{
    let offset = choose|offset: int|
        -86_400 < offset < 86_400 && #[trigger] shows_instant(t, ms / 1000 + offset);
    assert(shows_instant(t, ms / 1000 + offset));
}

} // verus!
