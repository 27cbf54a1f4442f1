//! Dates of the Gregorian calendar.

use vstd::prelude::*;

use crate::text::{cat2, cat3, cat5, padded, padded_of};

verus! {

/// Whether a year is a leap year.
pub open spec fn is_leap(year: int) -> bool {
    year % 4 == 0 && (year % 100 != 0 || year % 400 == 0)
}

/// How many days a month has.
pub open spec fn days_in_month(year: int, month: int) -> int {
    if month == 2 {
        if is_leap(year) {
            29
        } else {
            28
        }
    } else if month == 4 || month == 6 || month == 9 || month == 11 {
        30
    } else {
        31
    }
}

/// How many days a year has.
pub open spec fn days_in_year(year: int) -> int {
    if is_leap(year) {
        366
    } else {
        365
    }
}

/// The days of a year that lie before a month.
pub open spec fn days_before_month(year: int, month: int) -> int
    decreases month,
{
    if month <= 1 {
        0
    } else {
        days_before_month(year, month - 1) + days_in_month(year, month - 1)
    }
}

/// The leap days in the years up to and with a year, counted from the year zero.
pub open spec fn leap_days(year: int) -> int {
    year / 4 - year / 100 + year / 400
}

/// The days between the first of January 1970 and that of a year, negative for
/// earlier years.
pub open spec fn days_before_year(year: int) -> int {
    365 * (year - 1970) + leap_days(year - 1) - leap_days(1969)
}

/// Whether there is such a day.
pub open spec fn is_date(year: int, month: int, day: int) -> bool {
    1 <= month <= 12 && 1 <= day <= days_in_month(year, month)
}

/// The number of a day, counted from the first of January 1970.
pub open spec fn day_number(year: int, month: int, day: int) -> int {
    days_before_year(year) + days_before_month(year, month) + day - 1
}

/// Whether a year, month and day are those of a day number.
pub open spec fn is_date_of(date: (int, int, int), days: int) -> bool {
    is_date(date.0, date.1, date.2) && day_number(date.0, date.1, date.2) == days
}

/// The year, month and day of a day number.
pub open spec fn civil_date(days: int) -> (int, int, int) {
    choose|date: (int, int, int)| is_date_of(date, days)
}

/// One year follows another after as many days as it has.
proof fn lemma_year_lengths(year: int)
    ensures
        days_before_year(year + 1) == days_before_year(year) + days_in_year(year),
{
    assert(year / 4 - (year - 1) / 4 == if year % 4 == 0 {
        1int
    } else {
        0
    });
    assert(year / 100 - (year - 1) / 100 == if year % 100 == 0 {
        1int
    } else {
        0
    });
    assert(year / 400 - (year - 1) / 400 == if year % 400 == 0 {
        1int
    } else {
        0
    });
}

/// The months of a year add up to the year.
proof fn lemma_month_lengths(year: int)
    ensures
        days_before_month(year, 2) == 31,
        days_before_month(year, 3) == 31 + days_in_month(year, 2),
        forall|m: int|
            3 <= m <= 12 ==> #[trigger] days_before_month(year, m) == days_before_month(year, 3) + march_days(m - 3),
        days_before_month(year, 12) + 31 == days_in_year(year),
{
    reveal_with_fuel(days_before_month, 13);
    assert forall|m: int| 3 <= m <= 12 implies #[trigger] days_before_month(year, m) == days_before_month(year, 3)
        + march_days(m - 3) by {}
}

/// The days between the first of March and the first of the month that follows
/// after `n` months.
pub open spec fn march_days(n: int) -> int {
    (153 * n + 2) / 5
}

/// A later year begins later.
proof fn lemma_years_grow(a: int, b: int)
    requires
        a <= b,
    ensures
        days_before_year(a) + 365 * (b - a) <= days_before_year(b),
    decreases b - a,
{
    if a < b {
        lemma_years_grow(a, b - 1);
        lemma_year_lengths(b - 1);
    }
}

/// A later month begins later, after the end of every earlier one.
proof fn lemma_months_grow(year: int, a: int, b: int)
    requires
        1 <= a < b,
    ensures
        days_before_month(year, a) + days_in_month(year, a) <= days_before_month(year, b),
        days_before_month(year, a) >= 0,
    decreases b,
{
    if a > 1 {
        lemma_months_grow(year, 1, a);
    }
    if a < b - 1 {
        lemma_months_grow(year, a, b - 1);
    }
}

/// The number of a day lies within its year.
proof fn lemma_within_year(year: int, month: int, day: int)
    requires
        is_date(year, month, day),
    ensures
        days_before_year(year) <= day_number(year, month, day) < days_before_year(year + 1),
{
    lemma_year_lengths(year);
    lemma_month_lengths(year);
    if month > 1 {
        lemma_months_grow(year, 1, month);
    }
    if month < 12 {
        lemma_months_grow(year, month, 12);
    }
}

/// A day number is that of one date only.
pub proof fn law_dates_are_unique(a: (int, int, int), b: (int, int, int), days: int)
    requires
        is_date_of(a, days),
        is_date_of(b, days),
    ensures
        a == b,
{
    lemma_within_year(a.0, a.1, a.2);
    lemma_within_year(b.0, b.1, b.2);
    if a.0 < b.0 {
        lemma_years_grow(a.0 + 1, b.0);
    } else if b.0 < a.0 {
        lemma_years_grow(b.0 + 1, a.0);
    }
    if a.1 < b.1 {
        lemma_months_grow(a.0, a.1, b.1);
    } else if b.1 < a.1 {
        lemma_months_grow(a.0, b.1, a.1);
    }
}

/// The first day of a year that begins in March, within a span of 400 such years.
spec fn era_year_start(n: int) -> int {
    365 * n + n / 4 - n / 100
}

/// The year of a day within 400 years that begin in March.
#[verifier::spinoff_prover]
proof fn lemma_year_of_era(doe: int, yoe: int)
    requires
        0 <= doe <= 146096,
        yoe == (doe - doe / 1460 + doe / 36524 - doe / 146096) / 365,
    ensures
        0 <= yoe <= 399,
        0 <= doe - era_year_start(yoe) <= 365,
        doe - era_year_start(yoe) == 365 ==> is_leap(yoe + 1),
{
    let a = doe / 1460;
    let b = doe / 36524;
    let c = doe / 146096;
    let p = yoe / 4;
    let q = yoe / 100;
    assert(0 <= b <= 4);
    assert(0 <= c <= 1);
    assert(0 <= yoe <= 399);
}

/// The leap days up to a year, counted in spans of 400 years.
#[verifier::spinoff_prover]
proof fn lemma_era_leap_days(era: int, yoe: int)
    requires
        0 <= yoe <= 399,
    ensures
        leap_days(400 * era + yoe) == 97 * era + yoe / 4 - yoe / 100,
{
    assert((400 * era + yoe) / 4 == 100 * era + yoe / 4);
    assert((400 * era + yoe) / 100 == 4 * era + yoe / 100);
    assert((400 * era + yoe) / 400 == era);
}

/// Leap years recur after 400 years.
proof fn lemma_era_leap(era: int, year: int)
    ensures
        is_leap(400 * era + year) == is_leap(year),
{
    vstd::arithmetic::div_mod::lemma_mod_multiples_vanish(100 * era, year, 4);
    vstd::arithmetic::div_mod::lemma_mod_multiples_vanish(4 * era, year, 100);
    vstd::arithmetic::div_mod::lemma_mod_multiples_vanish(era, year, 400);
    assert(4 * (100 * era) + year == 400 * era + year);
    assert(100 * (4 * era) + year == 400 * era + year);
}

/// The first of March of a year, counted in spans of 400 years that begin in March.
#[verifier::spinoff_prover]
proof fn lemma_march(era: int, yoe: int)
    requires
        0 <= yoe <= 399,
    ensures
        day_number(400 * era + yoe, 3, 1) == 146097 * era + era_year_start(yoe) - 719468,
        day_number(400 * era + yoe + 1, 1, 1) == 146097 * era + era_year_start(yoe) - 719468 + 306,
        is_leap(400 * era + yoe + 1) == is_leap(yoe + 1),
{
    let year = 400 * era + yoe;
    lemma_era_leap_days(era, yoe);
    lemma_era_leap(era, yoe + 1);
    assert(leap_days(1969) == 477);
    assert(days_before_year(year + 1) == 365 * (year + 1 - 1970) + leap_days(year) - 477);
    lemma_year_lengths(year);
    lemma_month_lengths(year);
    assert(days_before_month(year + 1, 1) == 0);
    assert(days_in_month(year, 2) == days_in_year(year) - 337);
}

/// The year, month and day of a day number.
#[verifier::spinoff_prover]
pub fn civil_from_days(days: i64) -> (date: (i64, u32, u32))
    requires
        days <= i64::MAX - 719468,
    ensures
        is_date_of((date.0 as int, date.1 as int, date.2 as int), days as int),
        (date.0 as int, date.1 as int, date.2 as int) == civil_date(days as int),
{
    let z: i64 = days + 719468;
    let era: i64 = (if z >= 0 {
        z
    } else {
        z - 146096
    }) / 146097;
    assert(era == z as int / 146097);
    let doe: u64 = (z - era * 146097) as u64;
    let yoe: u64 = (doe - doe / 1460 + doe / 36524 - doe / 146096) / 365;
    proof {
        lemma_year_of_era(doe as int, yoe as int);
        lemma_march(era as int, yoe as int);
        lemma_month_lengths(400 * era + yoe);
        lemma_month_lengths(400 * era + yoe + 1);
    }
    let y: i64 = yoe as i64 + era * 400;
    let doy: u64 = doe - (365 * yoe + yoe / 4 - yoe / 100);
    let mp: u64 = (5 * doy + 2) / 153;
    let d: u64 = doy - (153 * mp + 2) / 5 + 1;
    let m: u64 = if mp < 10 {
        mp + 3
    } else {
        mp - 9
    };
    let year: i64 = if m <= 2 {
        y + 1
    } else {
        y
    };
    proof {
        let date = (year as int, m as int, d as int);
        reveal_with_fuel(days_before_month, 2);
        assert(0 <= mp <= 11);
        assert(march_days(mp as int) == doy - d + 1);
        assert(is_date_of(date, days as int));
        law_dates_are_unique(date, civil_date(days as int), days as int);
    }
    (year, m as u32, d as u32)
}

/// The name of a month.
pub open spec fn month_name(month: int) -> Seq<char> {
    if month == 1 {
        "Jan"@
    } else if month == 2 {
        "Feb"@
    } else if month == 3 {
        "Mar"@
    } else if month == 4 {
        "Apr"@
    } else if month == 5 {
        "May"@
    } else if month == 6 {
        "Jun"@
    } else if month == 7 {
        "Jul"@
    } else if month == 8 {
        "Aug"@
    } else if month == 9 {
        "Sep"@
    } else if month == 10 {
        "Oct"@
    } else if month == 11 {
        "Nov"@
    } else {
        "Dec"@
    }
}

/// The name of the day of the week. The first of January 1970 was a Thursday.
pub open spec fn weekday_name(days: int) -> Seq<char> {
    let n = days % 7;
    if n == 0 {
        "Thu"@
    } else if n == 1 {
        "Fri"@
    } else if n == 2 {
        "Sat"@
    } else if n == 3 {
        "Sun"@
    } else if n == 4 {
        "Mon"@
    } else if n == 5 {
        "Tue"@
    } else {
        "Wed"@
    }
}

fn month_text(month: u32) -> (name: &'static str)
    ensures
        name@ == month_name(month as int),
{
    match month {
        1 => "Jan",
        2 => "Feb",
        3 => "Mar",
        4 => "Apr",
        5 => "May",
        6 => "Jun",
        7 => "Jul",
        8 => "Aug",
        9 => "Sep",
        10 => "Oct",
        11 => "Nov",
        _ => "Dec",
    }
}

fn weekday_text(days: u64) -> (name: &'static str)
    ensures
        name@ == weekday_name(days as int),
{
    match days % 7 {
        0 => "Thu",
        1 => "Fri",
        2 => "Sat",
        3 => "Sun",
        4 => "Mon",
        5 => "Tue",
        _ => "Wed",
    }
}

/// The time of day, as hours, minutes and seconds with colons between them.
pub open spec fn clock(seconds: int) -> Seq<char> {
    padded((seconds / 3600) as nat, 2) + ":"@ + padded((seconds % 3600 / 60) as nat, 2) + ":"@ + padded(
        (seconds % 60) as nat,
        2,
    )
}

fn clock_text(seconds: u64) -> (text: String)
    ensures
        text@ == clock(seconds as int),
{
    cat5(
        padded_of(seconds / 3600, 2).as_str(),
        ":",
        padded_of(seconds % 3600 / 60, 2).as_str(),
        ":",
        padded_of(seconds % 60, 2).as_str(),
    )
}

/// A point in time, in seconds from the beginning of 1970, in the form that HTTP
/// prefers.
pub open spec fn http_date(epoch_secs: nat) -> Seq<char> {
    let days = epoch_secs as int / 86400;
    let (year, month, day) = civil_date(days);
    weekday_name(days) + ", "@ + padded(day as nat, 2) + " "@ + (month_name(month) + " "@ + padded(year as nat, 4)
        + " "@ + (clock(epoch_secs as int % 86400) + " GMT"@))
}

/// A point in time, in seconds from the beginning of 1970, as date and time.
pub open spec fn iso_timestamp(epoch_secs: nat) -> Seq<char> {
    let (year, month, day) = civil_date(epoch_secs as int / 86400);
    padded(year as nat, 4) + "-"@ + padded(month as nat, 2) + "-"@ + padded(day as nat, 2) + ("T"@ + clock(
        epoch_secs as int % 86400,
    ) + "Z"@)
}

/// The date of a day from 1970 on, as unsigned numbers.
fn date_parts(days: u64) -> (date: (u64, u32, u64))
    requires
        days <= u64::MAX / 86400,
    ensures
        (date.0 as int, date.1 as int, date.2 as int) == civil_date(days as int),
{
    let (year, month, day) = civil_from_days(days as i64);
    proof {
        lemma_within_year(year as int, month as int, day as int);
        if year < 1970 {
            lemma_years_grow(year + 1, 1970);
        }
    }
    (year as u64, month, day as u64)
}

/// A point in time in the form that HTTP prefers.
pub fn format_http_date(epoch_secs: u64) -> (text: String)
    ensures
        text@ == http_date(epoch_secs as nat),
{
    let days: u64 = epoch_secs / 86400;
    let (year, month, day) = date_parts(days);
    let time = cat2(clock_text(epoch_secs % 86400).as_str(), " GMT");
    let rest = cat5(month_text(month), " ", padded_of(year, 4).as_str(), " ", time.as_str());
    cat5(weekday_text(days), ", ", padded_of(day, 2).as_str(), " ", rest.as_str())
}

/// A point in time as date and time.
pub fn format_timestamp(epoch_secs: u64) -> (text: String)
    ensures
        text@ == iso_timestamp(epoch_secs as nat),
{
    let (year, month, day) = date_parts(epoch_secs / 86400);
    let date = cat5(
        padded_of(year, 4).as_str(),
        "-",
        padded_of(month as u64, 2).as_str(),
        "-",
        padded_of(day, 2).as_str(),
    );
    let time = cat3("T", clock_text(epoch_secs % 86400).as_str(), "Z");
    cat2(date.as_str(), time.as_str())
}

/// Days are counted on from the first of January 1970: the next day of a month, the
/// first of the next month after the last of one, and the first of the next year after
/// the last of December have the next number.
pub proof fn law_days_follow_each_other(year: int, month: int, day: int)
    requires
        is_date(year, month, day),
    ensures
        day_number(1970, 1, 1) == 0,
        day < days_in_month(year, month) ==> day_number(year, month, day + 1) == day_number(year, month, day) + 1,
        day == days_in_month(year, month) && month < 12 ==> day_number(year, month + 1, 1) == day_number(
            year,
            month,
            day,
        ) + 1,
        day == days_in_month(year, month) && month == 12 ==> day_number(year + 1, 1, 1) == day_number(
            year,
            month,
            day,
        ) + 1,
{
    lemma_year_lengths(year);
    lemma_month_lengths(year);
    assert(days_before_month(1970, 1) == 0);
}

/// A month has its days: thirty in April, June, September and November, twenty-eight in
/// February and one more in a leap year, and else thirty-one. Every fourth year is a
/// leap year, but of the hundreds every fourth only.
pub proof fn law_months_and_leap_years(year: int, month: int)
    ensures
        is_leap(year) <==> (year % 4 == 0 && year % 100 != 0) || year % 400 == 0,
        days_in_month(year, 2) == if is_leap(year) { 29int } else { 28int },
        month == 4 || month == 6 || month == 9 || month == 11 ==> days_in_month(year, month) == 30,
        month == 1 || month == 3 || month == 5 || month == 7 || month == 8 || month == 10 || month == 12
            ==> days_in_month(year, month) == 31,
        is_date(year, month, 1) <==> 1 <= month <= 12,
{
}

/// A point in time is written as the date and the time of day that it is: year, month and
/// day, then hours, minutes and seconds, each with its leading zeros.
pub proof fn law_timestamps_show_date_and_time(
    year: int,
    month: int,
    day: int,
    hours: int,
    minutes: int,
    seconds: int,
    epoch_secs: nat,
)
    requires
        is_date(year, month, day),
        0 <= hours < 24,
        0 <= minutes < 60,
        0 <= seconds < 60,
        epoch_secs == 86400 * day_number(year, month, day) + 3600 * hours + 60 * minutes + seconds,
    ensures
        iso_timestamp(epoch_secs) == padded(year as nat, 4) + "-"@ + padded(month as nat, 2) + "-"@ + padded(
            day as nat,
            2,
        ) + ("T"@ + (padded(hours as nat, 2) + ":"@ + padded(minutes as nat, 2) + ":"@ + padded(seconds as nat, 2))
            + "Z"@),
        http_date(epoch_secs) == weekday_name(day_number(year, month, day)) + ", "@ + padded(day as nat, 2) + " "@ + (
        month_name(month) + " "@ + padded(year as nat, 4) + " "@ + ((padded(hours as nat, 2) + ":"@ + padded(
            minutes as nat,
            2,
        ) + ":"@ + padded(seconds as nat, 2)) + " GMT"@)),
{
    let days = day_number(year, month, day);
    let rest = 3600 * hours + 60 * minutes + seconds;
    assert(epoch_secs as int / 86400 == days && epoch_secs as int % 86400 == rest);
    assert(is_date_of((year, month, day), days));
    law_dates_are_unique(civil_date(days), (year, month, day), days);
    assert(rest / 3600 == hours);
    assert(rest % 3600 == 60 * minutes + seconds);
    assert((60 * minutes + seconds) / 60 == minutes);
    assert(rest % 60 == seconds);
}

/// The days of the week follow each other, and the first of January 1970 was a Thursday;
/// the months have their names.
pub proof fn law_names_of_days_and_months(days: int)
    ensures
        weekday_name(0) == "Thu"@,
        weekday_name(1) == "Fri"@,
        weekday_name(2) == "Sat"@,
        weekday_name(3) == "Sun"@,
        weekday_name(4) == "Mon"@,
        weekday_name(5) == "Tue"@,
        weekday_name(6) == "Wed"@,
        weekday_name(days + 7) == weekday_name(days),
        month_name(1) == "Jan"@,
        month_name(2) == "Feb"@,
        month_name(3) == "Mar"@,
        month_name(4) == "Apr"@,
        month_name(5) == "May"@,
        month_name(6) == "Jun"@,
        month_name(7) == "Jul"@,
        month_name(8) == "Aug"@,
        month_name(9) == "Sep"@,
        month_name(10) == "Oct"@,
        month_name(11) == "Nov"@,
        month_name(12) == "Dec"@,
{
}

} // verus!
