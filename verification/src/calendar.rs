//! Proleptic-Gregorian calendar arithmetic and ISO-8601 formatting for
//! the wall clock.
//!
//! Seconds since the UNIX epoch are split into a date and time of day;
//! the contract states the inverse direction — the computed fields,
//! summed back through the calendar, give exactly the input — which
//! pins the result uniquely. Leap seconds do not exist here.

use vstd::prelude::*;
use vstd::string::StringExecFns;

verus! {

/// Seconds per minute, hour and day.
pub const SECS_PER_MINUTE: u64 = 60;

/// Seconds per hour.
pub const SECS_PER_HOUR: u64 = 3600;

/// Seconds per day.
pub const SECS_PER_DAY: u64 = 86400;

/// A year divisible by four is a leap year, except century years not
/// divisible by four hundred.
pub open spec fn spec_is_leap_year(y: int) -> bool {
    y % 4 == 0 && (y % 100 != 0 || y % 400 == 0)
}

/// Days in a year.
pub open spec fn spec_days_in_year(y: int) -> int {
    if spec_is_leap_year(y) {
        366
    } else {
        365
    }
}

/// Days in a month (1..=12) of a year.
pub open spec fn spec_days_in_month(y: int, m: int) -> int {
    if m == 2 {
        if spec_is_leap_year(y) {
            29
        } else {
            28
        }
    } else if m == 4 || m == 6 || m == 9 || m == 11 {
        30
    } else {
        31
    }
}

/// Days from the epoch (1970-01-01) to the first day of a year.
pub open spec fn spec_days_before_year(y: int) -> int
    decreases y - 1970,
{
    if y <= 1970 {
        0
    } else {
        spec_days_before_year(y - 1) + spec_days_in_year(y - 1)
    }
}

/// Days from the first day of a year to the first day of one of its
/// months.
pub open spec fn spec_days_before_month(y: int, m: int) -> int
    decreases m,
{
    if m <= 1 {
        0
    } else {
        spec_days_before_month(y, m - 1) + spec_days_in_month(y, m - 1)
    }
}

/// More elapsed years never mean fewer elapsed days.
pub proof fn lemma_days_before_year_monotonic(a: int, b: int)
    requires
        a <= b,
    ensures
        spec_days_before_year(a) <= spec_days_before_year(b),
    decreases b - a,
{
    if a < b {
        lemma_days_before_year_monotonic(a, b - 1);
    }
}

/// The twelve months of a year sum to its day count.
pub proof fn lemma_months_cover_year(y: int)
    ensures
        spec_days_before_month(y, 13) == spec_days_in_year(y),
{
    assert(spec_days_before_month(y, 1) == 0);
    assert(spec_days_before_month(y, 2) == 31);
    assert(spec_days_before_month(y, 3) == spec_days_before_month(y, 2) + spec_days_in_month(y, 2));
    assert(spec_days_before_month(y, 4) == spec_days_before_month(y, 3) + 31);
    assert(spec_days_before_month(y, 5) == spec_days_before_month(y, 4) + 30);
    assert(spec_days_before_month(y, 6) == spec_days_before_month(y, 5) + 31);
    assert(spec_days_before_month(y, 7) == spec_days_before_month(y, 6) + 30);
    assert(spec_days_before_month(y, 8) == spec_days_before_month(y, 7) + 31);
    assert(spec_days_before_month(y, 9) == spec_days_before_month(y, 8) + 31);
    assert(spec_days_before_month(y, 10) == spec_days_before_month(y, 9) + 30);
    assert(spec_days_before_month(y, 11) == spec_days_before_month(y, 10) + 31);
    assert(spec_days_before_month(y, 12) == spec_days_before_month(y, 11) + 30);
    assert(spec_days_before_month(y, 13) == spec_days_before_month(y, 12) + 31);
}

/// Later months of a year never begin on an earlier day.
pub proof fn lemma_days_before_month_monotonic(y: int, a: int, b: int)
    requires
        a <= b,
    ensures
        spec_days_before_month(y, a) <= spec_days_before_month(y, b),
    decreases b - a,
{
    if a < b {
        lemma_days_before_month_monotonic(y, a, b - 1);
    }
}

/// A wall-clock instant split into date and time of day.
#[derive(Clone, Copy, Debug, PartialEq, Eq, Structural)]
pub struct DateTime {
    /// Calendar year, 1970..=9999.
    pub year: u64,
    /// Month of the year, 1..=12.
    pub month: u64,
    /// Day of the month, 1-based.
    pub day: u64,
    /// Hour of the day, 0..24.
    pub hour: u64,
    /// Minute of the hour, 0..60.
    pub minute: u64,
    /// Second of the minute, 0..60.
    pub second: u64,
}

impl DateTime {
    /// Every field within its calendar range.
    pub open spec fn wf(self) -> bool {
        &&& 1970 <= self.year <= 9999
        &&& 1 <= self.month <= 12
        &&& 1 <= self.day <= spec_days_in_month(self.year as int, self.month as int)
        &&& self.hour < 24
        &&& self.minute < 60
        &&& self.second < 60
    }

    /// The date part mapped back to days since the epoch.
    pub open spec fn spec_total_days(self) -> int {
        spec_days_before_year(self.year as int) + spec_days_before_month(
            self.year as int,
            self.month as int,
        ) + (self.day - 1)
    }

    /// The time part mapped back to seconds past midnight.
    pub open spec fn spec_time_of_day(self) -> int {
        self.hour * (SECS_PER_HOUR as int) + self.minute * (SECS_PER_MINUTE as int) + self.second
    }

    /// The instant mapped back to seconds since the epoch.
    pub open spec fn spec_total_secs(self) -> int {
        self.spec_total_days() * (SECS_PER_DAY as int) + self.spec_time_of_day()
    }

    /// A well-formed instant's day count falls inside its year.
    proof fn lemma_days_within_year(self)
        requires
            self.wf(),
        ensures
            spec_days_before_year(self.year as int) <= self.spec_total_days()
                < spec_days_before_year(self.year as int + 1),
            0 <= self.spec_total_days() - spec_days_before_year(self.year as int),
    {
        let y = self.year as int;
        let m = self.month as int;
        lemma_days_before_month_monotonic(y, 1, m);
        lemma_days_before_month_monotonic(y, m + 1, 13);
        lemma_months_cover_year(y);
        assert(spec_days_before_month(y, m + 1) == spec_days_before_month(y, m)
            + spec_days_in_month(y, m));
        assert(spec_days_before_year(y + 1) == spec_days_before_year(y) + spec_days_in_year(y));
    }
}

/// A well-formed instant is determined by its seconds since the epoch:
/// the calendar never writes two different dates for one moment.
pub proof fn lemma_datetime_unique(a: DateTime, b: DateTime)
    requires
        a.wf(),
        b.wf(),
        a.spec_total_secs() == b.spec_total_secs(),
    ensures
        a == b,
{
    // time of day is bounded, so day count and time of day each agree
    assert(0 <= a.spec_time_of_day() < SECS_PER_DAY);
    assert(0 <= b.spec_time_of_day() < SECS_PER_DAY);
    assert(a.spec_total_days() == b.spec_total_days() && a.spec_time_of_day()
        == b.spec_time_of_day());
    // hours, minutes and seconds are bounded in turn
    assert(a.hour == b.hour && a.minute == b.minute && a.second == b.second);
    // the day count falls inside exactly one year
    a.lemma_days_within_year();
    b.lemma_days_within_year();
    let ya = a.year as int;
    let yb = b.year as int;
    if ya < yb {
        lemma_days_before_year_monotonic(ya + 1, yb);
        assert(false);
    }
    if yb < ya {
        lemma_days_before_year_monotonic(yb + 1, ya);
        assert(false);
    }
    // and inside the year, inside exactly one month
    let y = ya;
    let ma = a.month as int;
    let mb = b.month as int;
    let doy = a.spec_total_days() - spec_days_before_year(y);
    assert(spec_days_before_month(y, ma) <= doy < spec_days_before_month(y, ma) + spec_days_in_month(
        y,
        ma,
    ));
    assert(spec_days_before_month(y, mb) <= doy < spec_days_before_month(y, mb) + spec_days_in_month(
        y,
        mb,
    ));
    if ma < mb {
        lemma_days_before_month_monotonic(y, ma + 1, mb);
        assert(spec_days_before_month(y, ma + 1) == spec_days_before_month(y, ma)
            + spec_days_in_month(y, ma));
        assert(false);
    }
    if mb < ma {
        lemma_days_before_month_monotonic(y, mb + 1, ma);
        assert(spec_days_before_month(y, mb + 1) == spec_days_before_month(y, mb)
            + spec_days_in_month(y, mb));
        assert(false);
    }
}

/// Whether a year is a leap year.
pub fn is_leap_year(y: u64) -> (b: bool)
    ensures
        b == spec_is_leap_year(y as int),
{
    y % 4 == 0 && (y % 100 != 0 || y % 400 == 0)
}

/// Days in a year.
pub fn days_in_year(y: u64) -> (d: u64)
    ensures
        d == spec_days_in_year(y as int),
{
    if is_leap_year(y) {
        366
    } else {
        365
    }
}

/// Days in a month of a year.
pub fn days_in_month(y: u64, m: u64) -> (d: u64)
    requires
        1 <= m <= 12,
    ensures
        d == spec_days_in_month(y as int, m as int),
{
    if m == 2 {
        if is_leap_year(y) {
            29
        } else {
            28
        }
    } else if m == 4 || m == 6 || m == 9 || m == 11 {
        30
    } else {
        31
    }
}

/// Split seconds since the epoch into a calendar instant.
///
/// Returns `None` exactly when the instant lies at or beyond year
/// 10000 and cannot be written with a four-digit year. Otherwise the
/// returned fields are in range and, mapped back through the calendar,
/// give exactly the input: the computation is pinned as the inverse of
/// `spec_total_secs`, and `lemma_datetime_unique` shows that no other
/// well-formed instant maps back to the same input.
pub fn datetime_from_secs(secs: u64) -> (r: Option<DateTime>)
    ensures
        r is Some <==> secs as int / (SECS_PER_DAY as int) < spec_days_before_year(10000),
        r is Some ==> r->0.wf() && r->0.spec_total_secs() == secs,
{
    let mut rem_days = secs / SECS_PER_DAY;
    let time_of_day = secs % SECS_PER_DAY;
    let ghost z = secs as int / (SECS_PER_DAY as int);
    let mut year: u64 = 1970;
    loop
        invariant
            1970 <= year <= 9999,
            spec_days_before_year(year as int) + rem_days == z,
        ensures
            spec_days_before_year(year as int) + rem_days == z,
            1970 <= year <= 9999,
            rem_days < spec_days_in_year(year as int) || (year == 9999 && rem_days
                >= spec_days_in_year(year as int)),
        decreases 9999 - year,
    {
        let dy = days_in_year(year);
        if rem_days < dy || year == 9999 {
            break ;
        }
        rem_days = rem_days - dy;
        year = year + 1;
    }
    let dy = days_in_year(year);
    if rem_days >= dy {
        proof {
            assert(year == 9999);
            assert(spec_days_before_year(10000) == spec_days_before_year(9999)
                + spec_days_in_year(9999));
            assert(z >= spec_days_before_year(10000));
        }
        return Option::None;
    }
    proof {
        assert(z < spec_days_before_year(year as int) + spec_days_in_year(year as int));
        assert(spec_days_before_year(year as int + 1) == spec_days_before_year(year as int)
            + spec_days_in_year(year as int));
        lemma_days_before_year_monotonic(year as int + 1, 10000);
        assert(z < spec_days_before_year(10000));
    }
    let ghost doy = rem_days as int;
    let mut month: u64 = 1;
    loop
        invariant
            1 <= month <= 12,
            spec_days_before_month(year as int, month as int) + rem_days == doy,
            doy < spec_days_in_year(year as int),
        ensures
            1 <= month <= 12,
            spec_days_before_month(year as int, month as int) + rem_days == doy,
            rem_days < spec_days_in_month(year as int, month as int),
        decreases 12 - month,
    {
        let dm = days_in_month(year, month);
        if rem_days < dm {
            break ;
        }
        proof {
            lemma_months_cover_year(year as int);
            if month == 12 {
                assert(spec_days_before_month(year as int, 13) == spec_days_before_month(
                    year as int,
                    12,
                ) + spec_days_in_month(year as int, 12));
                assert(false);
            }
        }
        rem_days = rem_days - dm;
        month = month + 1;
    }
    let day = rem_days + 1;
    let hour = time_of_day / SECS_PER_HOUR;
    let hour_rem = time_of_day % SECS_PER_HOUR;
    let minute = hour_rem / SECS_PER_MINUTE;
    let second = hour_rem % SECS_PER_MINUTE;
    let dt = DateTime { year, month, day, hour, minute, second };
    proof {
        assert(dt.wf());
        assert(dt.spec_total_secs() == secs) by {
            assert(secs == (SECS_PER_DAY as int) * z + time_of_day);
            assert(time_of_day == (SECS_PER_HOUR as int) * (hour as int) + hour_rem);
            assert(hour_rem == (SECS_PER_MINUTE as int) * (minute as int) + second);
        }
    }
    Option::Some(dt)
}

/// The decimal digit character for a value 0..=9.
pub open spec fn digit_char(d: int) -> char {
    if d == 0 {
        '0'
    } else if d == 1 {
        '1'
    } else if d == 2 {
        '2'
    } else if d == 3 {
        '3'
    } else if d == 4 {
        '4'
    } else if d == 5 {
        '5'
    } else if d == 6 {
        '6'
    } else if d == 7 {
        '7'
    } else if d == 8 {
        '8'
    } else {
        '9'
    }
}

/// The twenty characters `YYYY-MM-DDTHH:MM:SSZ` for an instant.
pub open spec fn spec_iso8601(dt: DateTime) -> Seq<char> {
    seq![
        digit_char(dt.year as int / 1000 % 10),
        digit_char(dt.year as int / 100 % 10),
        digit_char(dt.year as int / 10 % 10),
        digit_char(dt.year as int % 10),
        '-',
        digit_char(dt.month as int / 10 % 10),
        digit_char(dt.month as int % 10),
        '-',
        digit_char(dt.day as int / 10 % 10),
        digit_char(dt.day as int % 10),
        'T',
        digit_char(dt.hour as int / 10 % 10),
        digit_char(dt.hour as int % 10),
        ':',
        digit_char(dt.minute as int / 10 % 10),
        digit_char(dt.minute as int % 10),
        ':',
        digit_char(dt.second as int / 10 % 10),
        digit_char(dt.second as int % 10),
        'Z',
    ]
}

/// One decimal digit as a string slice.
fn digit_str(d: u64) -> (s: &'static str)
    requires
        d < 10,
    ensures
        s@.len() == 1,
        s@[0] == digit_char(d as int),
{
    proof {
        reveal_strlit("0");
        reveal_strlit("1");
        reveal_strlit("2");
        reveal_strlit("3");
        reveal_strlit("4");
        reveal_strlit("5");
        reveal_strlit("6");
        reveal_strlit("7");
        reveal_strlit("8");
        reveal_strlit("9");
    }
    if d == 0 {
        "0"
    } else if d == 1 {
        "1"
    } else if d == 2 {
        "2"
    } else if d == 3 {
        "3"
    } else if d == 4 {
        "4"
    } else if d == 5 {
        "5"
    } else if d == 6 {
        "6"
    } else if d == 7 {
        "7"
    } else if d == 8 {
        "8"
    } else {
        "9"
    }
}

/// Append a value below one hundred as exactly two decimal digits.
fn push_two_digits(s: &mut String, v: u64)
    requires
        v < 100,
    ensures
        final(s)@ == old(s)@ + seq![digit_char(v as int / 10 % 10), digit_char(v as int % 10)],
{
    s.append(digit_str(v / 10));
    s.append(digit_str(v % 10));
    proof {
        assert(s@ =~= old(s)@ + seq![digit_char(v as int / 10 % 10), digit_char(v as int % 10)]);
    }
}

/// Format an instant as `YYYY-MM-DDTHH:MM:SSZ`.
pub fn format_iso8601(dt: &DateTime) -> (s: String)
    requires
        dt.wf(),
    ensures
        s@ == spec_iso8601(*dt),
        s@.len() == 20,
{
    proof {
        reveal_strlit("-");
        reveal_strlit("T");
        reveal_strlit(":");
        reveal_strlit("Z");
    }
    let mut s = String::new();
    s.append(digit_str(dt.year / 1000 % 10));
    s.append(digit_str(dt.year / 100 % 10));
    s.append(digit_str(dt.year / 10 % 10));
    s.append(digit_str(dt.year % 10));
    s.append("-");
    push_two_digits(&mut s, dt.month);
    s.append("-");
    push_two_digits(&mut s, dt.day);
    s.append("T");
    push_two_digits(&mut s, dt.hour);
    s.append(":");
    push_two_digits(&mut s, dt.minute);
    s.append(":");
    push_two_digits(&mut s, dt.second);
    s.append("Z");
    proof {
        assert(s@ =~= spec_iso8601(*dt));
    }
    s
}

} // verus!
