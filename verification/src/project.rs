use vstd::prelude::*;
use crate::text::{concat_str, decimal, decimal_string, two_digit_string, two_digits};

verus! {

/// Project metadata stored in `.khepri/project.ron`.
pub struct ProjectConfig {
    pub name: String,
    pub version: String,
    pub created_at: String,
}

/// The format version new projects are written with: `0.1.0`.
pub open spec fn project_version() -> Seq<char> {
    seq!['0', '.', '1', '.', '0']
}

/// Whether `year` of the Gregorian calendar has a 29th of February.
pub open spec fn is_leap_year(year: int) -> bool {
    (year % 4 == 0 && year % 100 != 0) || year % 400 == 0
}

/// The number of days of `year`.
pub open spec fn year_length(year: int) -> nat {
    if is_leap_year(year) {
        366
    } else {
        365
    }
}

/// The number of days of `month` (1 to 12) in `year`.
pub open spec fn month_length(year: int, month: int) -> nat {
    if month == 2 {
        if is_leap_year(year) {
            29
        } else {
            28
        }
    } else if month == 4 || month == 6 || month == 9 || month == 11 {
        30
    } else {
        31
    }
}

/// The number of days of `year` before the first of `month`.
pub open spec fn days_before_month(year: int, month: int) -> nat
    decreases month,
{
    if month <= 1 {
        0
    } else {
        days_before_month(year, month - 1) + month_length(year, month - 1)
    }
}

/// The date `(year, month, day)` that lies `days` days after the first of `month` of `year`,
/// counting whole months forward while the days left fill them.
pub open spec fn date_in_year(days: nat, year: int, month: int) -> (int, int, int)
    decreases 12 - month,
{
    if month >= 12 || days < month_length(year, month) {
        (year, month, days as int + 1)
    } else {
        date_in_year((days - month_length(year, month)) as nat, year, month + 1)
    }
}

/// The date `(year, month, day)` that lies `days` days after the first of January of `year`,
/// counting whole years forward while the days left fill them.
pub open spec fn date_after(days: nat, year: int) -> (int, int, int)
    decreases days,
{
    if days < year_length(year) {
        date_in_year(days, year, 1)
    } else {
        date_after((days - year_length(year)) as nat, year + 1)
    }
}

/// The ISO-8601 UTC stamp `YYYY-MM-DDTHH:MM:SSZ` of the instant `secs` seconds after the Unix
/// epoch (1970-01-01T00:00:00Z).
pub open spec fn iso8601_utc(secs: nat) -> Seq<char> {
    let (year, month, day) = date_after(secs / 86400, 1970);
    let time = secs % 86400;
    decimal(year as nat) + seq!['-'] + two_digits(month as nat) + seq!['-'] + two_digits(day as nat) + seq!['T']
        + two_digits(time / 3600) + seq![':'] + two_digits((time % 3600) / 60) + seq![':'] + two_digits(
        time % 60,
    ) + seq!['Z']
}

/// Every stamp names a real calendar date: a month from 1 to 12 and a day within that month.
pub proof fn lemma_stamp_date_is_valid(days: nat, year: int)
    ensures
        1 <= date_after(days, year).1 <= 12,
        1 <= date_after(days, year).2 <= month_length(date_after(days, year).0, date_after(days, year).1),
    decreases days,
{
    if days < year_length(year) {
        lemma_date_in_year_is_valid(days, year, 1);
    } else {
        lemma_stamp_date_is_valid((days - year_length(year)) as nat, year + 1);
    }
}

/// A Gregorian year has 365 days, one more when it is divisible by 4, one fewer again when it is
/// divisible by 100, and one more again when it is divisible by 400.
pub proof fn lemma_year_length_gregorian(year: int)
    ensures
        year_length(year) == 365 + (if year % 4 == 0 {
            1int
        } else {
            0int
        }) - (if year % 100 == 0 {
            1int
        } else {
            0int
        }) + (if year % 400 == 0 {
            1int
        } else {
            0int
        }),
{
    if year % 100 == 0 {
        assert(year % 4 == 0);
    }
    if year % 400 == 0 {
        assert(year % 100 == 0);
    }
}

/// The months have the lengths of the Gregorian calendar: the first of month `m` (1 to 12, and
/// 13 for the end of the year) falls after 0 days in January, 31 in February, and from March on
/// after 59 days, one more in a leap year, plus `(153 (m - 3) + 2) / 5`, the familiar count of a
/// year that starts in March; so April, June, September and November have 30 days, February 28 or
/// 29, the others 31, and a year has `year_length` days.
pub proof fn lemma_months_follow_gregorian_calendar(year: int, m: int)
    requires
        1 <= m <= 13,
    ensures
        days_before_month(year, m) == if m == 1 {
            0
        } else if m == 2 {
            31
        } else {
            59 + (if is_leap_year(year) {
                1int
            } else {
                0int
            }) + (153 * (m - 3) + 2) / 5
        },
        days_before_month(year, 13) == year_length(year),
        m <= 12 ==> month_length(year, m) == days_before_month(year, m + 1) - days_before_month(year, m),
{
    reveal_with_fuel(days_before_month, 14);
    if m == 1 {
    } else if m == 2 {
    } else if m == 3 {
        assert((153 * (3 - 3) + 2) / 5 == 0);
    } else if m == 4 {
        assert((153 * (4 - 3) + 2) / 5 == 31);
    } else if m == 5 {
        assert((153 * (5 - 3) + 2) / 5 == 61);
    } else if m == 6 {
        assert((153 * (6 - 3) + 2) / 5 == 92);
    } else if m == 7 {
        assert((153 * (7 - 3) + 2) / 5 == 122);
    } else if m == 8 {
        assert((153 * (8 - 3) + 2) / 5 == 153);
    } else if m == 9 {
        assert((153 * (9 - 3) + 2) / 5 == 184);
    } else if m == 10 {
        assert((153 * (10 - 3) + 2) / 5 == 214);
    } else if m == 11 {
        assert((153 * (11 - 3) + 2) / 5 == 245);
    } else if m == 12 {
        assert((153 * (12 - 3) + 2) / 5 == 275);
    } else {
        assert((153 * (13 - 3) + 2) / 5 == 306);
    }
}

/// A day of the year lands on the date whose month starts that many days in, less the day of the
/// month: `days` (below the year's length) days after the first of January is day `d` of month
/// `m` of the same year with `days == days_before_month(year, m) + d - 1`.
pub proof fn lemma_day_of_year(days: nat, year: int)
    requires
        days < year_length(year),
    ensures
        date_in_year(days, year, 1).0 == year,
        days == days_before_month(year, date_in_year(days, year, 1).1) + date_in_year(days, year, 1).2 - 1,
{
    lemma_day_of_year_from(days, year, 1);
}

proof fn lemma_day_of_year_from(days: nat, year: int, month: int)
    requires
        1 <= month <= 12,
        days + days_before_month(year, month) < year_length(year),
    ensures
        date_in_year(days, year, month).0 == year,
        days + days_before_month(year, month) == days_before_month(year, date_in_year(days, year, month).1)
            + date_in_year(days, year, month).2 - 1,
    decreases 12 - month,
{
    if month < 12 && days >= month_length(year, month) {
        lemma_day_of_year_from((days - month_length(year, month)) as nat, year, month + 1);
    }
}

proof fn lemma_date_in_year_is_valid(days: nat, year: int, month: int)
    requires
        1 <= month <= 12,
        days + days_before_month(year, month) < year_length(year),
    ensures
        1 <= date_in_year(days, year, month).1 <= 12,
        1 <= date_in_year(days, year, month).2 <= month_length(year, date_in_year(days, year, month).1),
        date_in_year(days, year, month).0 == year,
    decreases 12 - month,
{
    if month >= 12 {
        reveal_with_fuel(days_before_month, 13);
    } else if days >= month_length(year, month) {
        lemma_date_in_year_is_valid((days - month_length(year, month)) as nat, year, month + 1);
    }
}

fn year_days(year: u64) -> (r: u64)
    ensures
        r == year_length(year as int),
{
    if (year % 4 == 0 && year % 100 != 0) || year % 400 == 0 {
        366
    } else {
        365
    }
}

fn month_days(year: u64, month: u64) -> (r: u64)
    ensures
        r == month_length(year as int, month as int),
{
    if month == 2 {
        if (year % 4 == 0 && year % 100 != 0) || year % 400 == 0 {
            29
        } else {
            28
        }
    } else if month == 4 || month == 6 || month == 9 || month == 11 {
        30
    } else {
        31
    }
}

/// The creation stamp of a project made `now_secs` seconds after the Unix epoch: the UTC date and
/// time of that instant in ISO-8601 form, such as `2026-05-31T12:00:00Z`.
pub fn chrono_stamp(now_secs: u64) -> (r: String)
    ensures
        r@ == iso8601_utc(now_secs as nat),
{
    let total_days: u64 = now_secs / 86400;
    let time: u64 = now_secs % 86400;
    let mut days: u64 = total_days;
    let mut year: u64 = 1970;
    while days >= year_days(year)
        invariant
            1970 <= year,
            year - 1970 <= total_days - days,
            days <= total_days,
            total_days == now_secs / 86400,
            date_after(total_days as nat, 1970) == date_after(days as nat, year as int),
        decreases days,
    {
        days = days - year_days(year);
        year = year + 1;
    }
    let ghost in_year = days;
    let mut month: u64 = 1;
    while month < 12 && days >= month_days(year, month)
        invariant
            1 <= month <= 12,
            days <= in_year,
            in_year < year_length(year as int),
            date_in_year(in_year as nat, year as int, 1) == date_in_year(days as nat, year as int, month as int),
            days + days_before_month(year as int, month as int) == in_year,
        decreases 12 - month,
    {
        days = days - month_days(year, month);
        month = month + 1;
    }
    proof {
        assert(date_after(total_days as nat, 1970) == (year as int, month as int, days + 1));
        assert(days + 1 <= 31) by {
            assert(month >= 12 || days < month_length(year as int, month as int));
            assert(month_length(year as int, month as int) <= 31);
            if month >= 12 {
                reveal_with_fuel(days_before_month, 13);
                assert(days_before_month(year as int, 12) + 31 == year_length(year as int));
            }
        }
    }
    proof {
        reveal_strlit("-");
        reveal_strlit("T");
        reveal_strlit(":");
        reveal_strlit("Z");
    }
    let mut s = decimal_string(year);
    s = concat_str(s.as_str(), "-");
    s = concat_str(s.as_str(), two_digit_string(month).as_str());
    s = concat_str(s.as_str(), "-");
    s = concat_str(s.as_str(), two_digit_string(days + 1).as_str());
    s = concat_str(s.as_str(), "T");
    s = concat_str(s.as_str(), two_digit_string(time / 3600).as_str());
    s = concat_str(s.as_str(), ":");
    s = concat_str(s.as_str(), two_digit_string((time % 3600) / 60).as_str());
    s = concat_str(s.as_str(), ":");
    s = concat_str(s.as_str(), two_digit_string(time % 60).as_str());
    s = concat_str(s.as_str(), "Z");
    s
}

/// The metadata of a new project named `name`, made `now_secs` seconds after the Unix epoch.
pub fn new_project_config(name: &str, now_secs: u64) -> (c: ProjectConfig)
    ensures
        c.name@ == name@,
        c.version@ == project_version(),
        c.created_at@ == iso8601_utc(now_secs as nat),
{
    proof {
        reveal_strlit("0.1.0");
    }
    ProjectConfig {
        name: String::from_str(name),
        version: String::from_str("0.1.0"),
        created_at: chrono_stamp(now_secs),
    }
}

} // verus!
