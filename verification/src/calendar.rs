//! Dates and times of day: days of the Gregorian calendar, and the local times in which the
//! user interface speaks.
use vstd::prelude::*;

use crate::text;

verus! {

// ---- days ----

/// Whether a year has a twenty-ninth of February.
pub open spec fn is_leap(year: int) -> bool {
    year % 4 == 0 && (year % 100 != 0 || year % 400 == 0)
}

/// How many days lie between the first of January of the year 1 and that of another year.
pub open spec fn days_before_year(year: int) -> int {
    365 * (year - 1) + (year - 1) / 4 - (year - 1) / 100 + (year - 1) / 400
}

/// How many days of a year lie before a month.
pub open spec fn days_before_month(year: int, month: int) -> int {
    let leap: int = if is_leap(year) {
        1
    } else {
        0
    };
    if month == 1 {
        0
    } else if month == 2 {
        31
    } else if month == 3 {
        59 + leap
    } else if month == 4 {
        90 + leap
    } else if month == 5 {
        120 + leap
    } else if month == 6 {
        151 + leap
    } else if month == 7 {
        181 + leap
    } else if month == 8 {
        212 + leap
    } else if month == 9 {
        243 + leap
    } else if month == 10 {
        273 + leap
    } else if month == 11 {
        304 + leap
    } else {
        334 + leap
    }
}

/// How many days a year has before the month that follows.
pub open spec fn days_to_month_end(year: int, month: int) -> int {
    if month == 12 {
        365 + days_before_month(year, 3) - 59
    } else {
        days_before_month(year, month + 1)
    }
}

/// The number of a day, counted from the first of January 1970. A day beyond the end of a
/// month counts on into the next.
pub open spec fn day_number(year: int, month: int, day: int) -> int {
    days_before_year(year) + days_before_month(year, month) + day - 1 - 719_162
}

/// Whether there is such a day.
pub open spec fn is_date(year: int, month: int, day: int) -> bool {
    &&& 1 <= month <= 12
    &&& 1 <= day <= days_to_month_end(year, month) - days_before_month(year, month)
}

/// The year, counted from March, and its place in four hundred years.
spec fn march_year(year: int, month: int) -> int {
    if month <= 2 {
        year - 1
    } else {
        year
    }
}

/// A quotient grows by one at each multiple of the divisor.
proof fn lemma_quotient_step(y: int, d: int)
    requires
        d > 1,
    ensures
        y / d - (y - 1) / d == if y % d == 0 {
            1int
        } else {
            0
        },
{
    let q = y / d;
    let r = y % d;
    vstd::arithmetic::div_mod::lemma_fundamental_div_mod(y, d);
    vstd::arithmetic::div_mod::lemma_mod_bound(y, d);
    if r == 0 {
        assert(y - 1 == (q - 1) * d + (d - 1)) by (nonlinear_arith)
            requires
                y == d * q + r,
                r == 0,
        ;
        vstd::arithmetic::div_mod::lemma_fundamental_div_mod_converse(y - 1, d, q - 1, d - 1);
    } else {
        assert(y - 1 == q * d + (r - 1)) by (nonlinear_arith)
            requires
                y == d * q + r,
        ;
        vstd::arithmetic::div_mod::lemma_fundamental_div_mod_converse(y - 1, d, q, r - 1);
    }
}

/// A multiple of a hundred is a multiple of four, one of four hundred is one of a hundred.
proof fn lemma_multiples(y: int)
    ensures
        y % 100 == 0 ==> y % 4 == 0,
        y % 400 == 0 ==> y % 100 == 0,
{
    vstd::arithmetic::div_mod::lemma_mod_multiples_vanish(25 * (y / 100), 0, 4);
    vstd::arithmetic::div_mod::lemma_mod_multiples_vanish(4 * (y / 400), 0, 100);
}

proof fn lemma_year_length(year: int)
    ensures
        days_before_year(year + 1) - days_before_year(year) == if is_leap(year) {
            366int
        } else {
            365
        },
{
    lemma_quotient_step(year, 4);
    lemma_quotient_step(year, 100);
    lemma_quotient_step(year, 400);
    lemma_multiples(year);
}

/// The days before a month, counted from March.
proof fn lemma_march_months(mp: int)
    requires
        0 <= mp <= 11,
    ensures
        (153 * mp + 2) / 5 == seq![0int, 31, 61, 92, 122, 153, 184, 214, 245, 275, 306, 337][mp],
{
    if mp < 4 {
        assert(mp == 0 || mp == 1 || mp == 2 || mp == 3);
    } else if mp < 8 {
        assert(mp == 4 || mp == 5 || mp == 6 || mp == 7);
    } else {
        assert(mp == 8 || mp == 9 || mp == 10 || mp == 11);
    }
}

proof fn lemma_march(year: int, month: int)
    requires
        1 <= month <= 12,
    ensures
        ({
            let y = march_year(year, month);
            let mp = if month > 2 {
                month - 3
            } else {
                month + 9
            };
            365 * y + y / 4 - y / 100 + y / 400 + (153 * mp + 2) / 5 == days_before_year(year)
                + days_before_month(year, month) + 306
        }),
{
    let y = march_year(year, month);
    if month > 2 {
        lemma_march_months(month - 3);
        lemma_year_length(y);
        assert(365 * y + y / 4 - y / 100 + y / 400 == days_before_year(y + 1));
    } else {
        lemma_march_months(month + 9);
    }
}

proof fn lemma_era(y: int, era: int, yoe: int)
    requires
        y == 400 * era + yoe,
        0 <= yoe < 400,
    ensures
        y / 4 == 100 * era + yoe / 4,
        y / 100 == 4 * era + yoe / 100,
        y / 400 == era,
{
}

/// Whether the number of a day can be told in 64 bits, with the days of the calendar before
/// 1970 added.
pub open spec fn day_fits(year: int, month: int, day: int) -> bool {
    i64::MIN <= day_number(year, month, day) <= i64::MAX - 719_468
}

/// The quotient, rounded down.
fn floor_div(n: i128, d: i128) -> (r: i128)
    requires
        d > 0,
        -0x1_0000_0000_0000_0000 <= n <= 0x1_0000_0000_0000_0000,
    ensures
        r == n as int / d as int,
{
    if n >= 0 {
        n / d
    } else {
        let r: i128 = -((-1 - n) / d) - 1;
        proof {
            let m = -1 - n;
            assert(n as int / d as int == -(m as int / d as int) - 1) by (nonlinear_arith)
                requires
                    d > 0,
                    m == -1 - n,
                    m >= 0,
            {
                vstd::arithmetic::div_mod::lemma_fundamental_div_mod(m as int, d as int);
                vstd::arithmetic::div_mod::lemma_fundamental_div_mod_converse(
                    n as int,
                    d as int,
                    -(m as int / d as int) - 1,
                    d - 1 - m as int % d as int,
                );
            }
        }
        r
    }
}

pub fn days_from_civil(year: i64, month: i64, day: i64) -> (r: i64)
    requires
        1 <= month <= 12,
        1 <= day <= 31,
        day_fits(year as int, month as int, day as int),
    ensures
        r == day_number(year as int, month as int, day as int),
{
    let y: i128 = if month <= 2 {
        year as i128 - 1
    } else {
        year as i128
    };
    let era: i128 = floor_div(y, 400);
    let yoe: i128 = y - era * 400;
    let mp: i128 = if month > 2 {
        month as i128 - 3
    } else {
        month as i128 + 9
    };
    let doy: i128 = (153 * mp + 2) / 5 + day as i128 - 1;
    let doe: i128 = yoe * 365 + yoe / 4 - yoe / 100 + doy;
    proof {
        lemma_era(y as int, era as int, yoe as int);
        lemma_march(year as int, month as int);
    }
    (era * 146_097 + doe - 719_468) as i64
}

/// The years of a century that have passed after some of its days, the `b`-th century of four.
proof fn lemma_year_of_century(b: int, r: int)
    requires
        0 <= b <= 3,
        0 <= r < 36_524,
    ensures
        ({
            let a = (24 * b + r) / 1_460;
            let k = (r - a) / 365;
            let day = r - 365 * k - k / 4;
            &&& 0 <= k < 100
            &&& 0 <= day <= 365
            &&& day == 365 ==> k % 4 == 3 && k != 99
        }),
{
    let a = (24 * b + r) / 1_460;
    let k = (r - a) / 365;
    let j = k / 4;
    let s = k - 4 * j;
    assert(1_460 * a <= 24 * b + r < 1_460 * a + 1_460);
    assert(0 <= a <= 25);
    assert(365 * k <= r - a < 365 * k + 365);
    assert(0 <= s <= 3);
    assert(r == 1_460 * j + 365 * s + a + (r - a - 365 * k));
    assert(j <= a) by {
        assert(1_460 * j < 1_460 * (a + 1));
    }
    assert(a <= j + 1) by {
        assert(1_460 * a < 1_460 * (j + 2));
    }
    if r - 365 * k - k / 4 == 365 {
        assert(a == j + 1);
        assert(365 * s >= 1_095 - 24 * b - j);
        assert(j <= 24);
        assert(s == 3);
    }
}

/// The years of four hundred that have passed after some of their days.
proof fn lemma_year_of_era(doe: int)
    requires
        0 <= doe < 146_097,
    ensures
        ({
            let yoe = (doe - doe / 1_460 + doe / 36_524 - doe / 146_096) / 365;
            let doy = doe - (365 * yoe + yoe / 4 - yoe / 100);
            &&& 0 <= yoe < 400
            &&& 0 <= doy <= 365
            &&& doy == 365 ==> is_leap(yoe + 1)
        }),
{
    if doe == 146_096 {
        assert((146_096int - 146_096int / 1_460 + 146_096int / 36_524 - 146_096int / 146_096) / 365
            == 399);
    } else {
        let b = doe / 36_524;
        let r = doe - 36_524 * b;
        assert(0 <= r < 36_524 && 0 <= b <= 3);
        lemma_year_of_century(b, r);
        let a = (24 * b + r) / 1_460;
        let k = (r - a) / 365;
        vstd::arithmetic::div_mod::lemma_fundamental_div_mod_converse(
            doe,
            1_460,
            25 * b + a,
            24 * b + r - 1_460 * a,
        );
        assert(doe / 146_096 == 0);
        let n = 36_500 * b + r - a;
        vstd::arithmetic::div_mod::lemma_fundamental_div_mod_converse(
            n,
            365,
            100 * b + k,
            r - a - 365 * k,
        );
        let yoe = 100 * b + k;
        vstd::arithmetic::div_mod::lemma_fundamental_div_mod_converse(yoe, 100, b, k);
        vstd::arithmetic::div_mod::lemma_fundamental_div_mod_converse(
            yoe,
            4,
            25 * b + k / 4,
            k - 4 * (k / 4),
        );
        if r - 365 * k - k / 4 == 365 {
            vstd::arithmetic::div_mod::lemma_fundamental_div_mod_converse(
                yoe + 1,
                4,
                25 * b + k / 4 + 1,
                0,
            );
            vstd::arithmetic::div_mod::lemma_fundamental_div_mod_converse(yoe + 1, 100, b, k + 1);
        }
    }
}

pub fn civil_from_days(days: i64) -> (r: (i64, i64, i64))
    requires
        days <= i64::MAX - 719_468,
    ensures
        is_date(r.0 as int, r.1 as int, r.2 as int),
        day_number(r.0 as int, r.1 as int, r.2 as int) == days,
{
    let z: i128 = days as i128 + 719_468;
    let era: i128 = floor_div(z, 146_097);
    let doe: i128 = z - era * 146_097;
    let yoe: i128 = (doe - doe / 1_460 + doe / 36_524 - doe / 146_096) / 365;
    let y: i128 = yoe + era * 400;
    let doy: i128 = doe - (365 * yoe + yoe / 4 - yoe / 100);
    proof {
        lemma_year_of_era(doe as int);
        lemma_era(y as int, era as int, yoe as int);
    }
    let mp: i128 = (5 * doy + 2) / 153;
    let d: i128 = doy - (153 * mp + 2) / 5 + 1;
    let m: i128 = if mp < 10 {
        mp + 3
    } else {
        mp - 9
    };
    let year: i128 = if m <= 2 {
        y + 1
    } else {
        y
    };
    proof {
        lemma_same_leap(y as int, era as int, yoe as int);
        lemma_month_of_year(y as int, doy as int);
        assert(365 * y + y as int / 4 - y as int / 100 + y as int / 400 + doy == z);
        assert(-30_000_000_000_000_000 <= era <= 30_000_000_000_000_000);
    }
    (year as i64, m as i64, d as i64)
}

proof fn lemma_same_leap(y: int, era: int, yoe: int)
    requires
        y == 400 * era + yoe,
    ensures
        is_leap(y + 1) == is_leap(yoe + 1),
{
    vstd::arithmetic::div_mod::lemma_mod_multiples_vanish(100 * era, yoe + 1, 4);
    vstd::arithmetic::div_mod::lemma_mod_multiples_vanish(4 * era, yoe + 1, 100);
    vstd::arithmetic::div_mod::lemma_mod_multiples_vanish(era, yoe + 1, 400);
}

/// The month and the day of a day of a year that is counted from March.
proof fn lemma_month_of_year(y: int, doy: int)
    requires
        0 <= doy <= 365,
        doy == 365 ==> is_leap(y + 1),
    ensures
        ({
            let mp = (5 * doy + 2) / 153;
            let d = doy - (153 * mp + 2) / 5 + 1;
            let m = if mp < 10 {
                mp + 3
            } else {
                mp - 9
            };
            let year = if m <= 2 {
                y + 1
            } else {
                y
            };
            &&& 0 <= mp <= 11
            &&& is_date(year, m, d)
            &&& day_number(year, m, d) == 365 * y + y / 4 - y / 100 + y / 400 + doy - 719_468
        }),
{
    let mp = (5 * doy + 2) / 153;
    let d = doy - (153 * mp + 2) / 5 + 1;
    let m = if mp < 10 {
        mp + 3
    } else {
        mp - 9
    };
    let year = if m <= 2 {
        y + 1
    } else {
        y
    };
    assert(0 <= mp <= 11);
    lemma_march(year, m);
    assert(march_year(year, m) == y);
    assert(1 <= d <= days_to_month_end(year, m) - days_before_month(year, m));
}

/// No two dates share a number: a later date has a larger one.
pub proof fn law_days_in_order(y1: int, m1: int, d1: int, y2: int, m2: int, d2: int)
    requires
        is_date(y1, m1, d1),
        is_date(y2, m2, d2),
        y1 < y2 || (y1 == y2 && (m1 < m2 || (m1 == m2 && d1 < d2))),
    ensures
        day_number(y1, m1, d1) < day_number(y2, m2, d2),
{
    lemma_year_grows(y1, y2);
    assert(days_to_month_end(y1, m1) <= days_before_year(y1 + 1) - days_before_year(y1)) by {
        lemma_year_length(y1);
    }
}

proof fn lemma_year_grows(y1: int, y2: int)
    requires
        y1 <= y2,
    ensures
        y1 < y2 ==> days_before_year(y1 + 1) <= days_before_year(y2),
        days_before_year(y1) <= days_before_year(y2),
    decreases y2 - y1,
{
    if y1 < y2 {
        lemma_year_grows(y1 + 1, y2);
        lemma_year_length(y1);
    }
}

/// The date of a day.
pub open spec fn date_of(days: int) -> (int, int, int) {
    choose|date: (int, int, int)|
        is_date(date.0, date.1, date.2) && #[trigger] day_number(date.0, date.1, date.2) == days
}

proof fn lemma_date_of(year: int, month: int, day: int)
    requires
        is_date(year, month, day),
    ensures
        date_of(day_number(year, month, day)) == (year, month, day),
{
    let days = day_number(year, month, day);
    let date = (year, month, day);
    assert(is_date(date.0, date.1, date.2) && day_number(date.0, date.1, date.2) == days);
    let found = date_of(days);
    if found != date {
        let (y, m, d) = found;
        if y < year || (y == year && (m < month || (m == month && d < day))) {
            law_days_in_order(y, m, d, year, month, day);
        } else {
            law_days_in_order(year, month, day, y, m, d);
        }
    }
}

// ---- moments ----

/// The local time is eight hours ahead of universal time.
pub const DISPLAY_TZ_OFFSET_SECS: i64 = 28_800;

/// The seconds since the first of January 1970, local time, of a moment in milliseconds.
pub open spec fn local_seconds(ts_ms: int) -> int {
    ts_ms / 1000 + DISPLAY_TZ_OFFSET_SECS
}

/// The local date and time of a moment.
pub ghost struct LocalTime {
    pub year: int,
    pub month: int,
    pub day: int,
    pub hour: int,
    pub minute: int,
    pub second: int,
}

pub open spec fn local_time(ts_ms: int) -> LocalTime {
    let date = date_of(local_seconds(ts_ms) / 86_400);
    let secs = local_seconds(ts_ms) % 86_400;
    LocalTime {
        year: date.0,
        month: date.1,
        day: date.2,
        hour: secs / 3600,
        minute: secs % 3600 / 60,
        second: secs % 60,
    }
}

struct Moment {
    year: i64,
    month: u64,
    day: u64,
    hour: u64,
    minute: u64,
    second: u64,
}

impl Moment {
    spec fn is(self, t: LocalTime) -> bool {
        &&& self.year == t.year
        &&& self.month == t.month
        &&& self.day == t.day
        &&& self.hour == t.hour
        &&& self.minute == t.minute
        &&& self.second == t.second
    }
}

fn moment_of(ts_ms: i64) -> (r: Moment)
    ensures
        r.is(local_time(ts_ms as int)),
        1 <= r.month <= 12,
        1 <= r.day <= 31,
        r.hour <= 23,
        r.minute <= 59,
        r.second <= 59,
{
    let total: i128 = floor_div(ts_ms as i128, 1000) + DISPLAY_TZ_OFFSET_SECS as i128;
    let days: i128 = floor_div(total, 86_400);
    let secs: i128 = total - days * 86_400;
    proof {
        assert(total == local_seconds(ts_ms as int));
        assert(secs == total as int % 86_400);
    }
    let (year, month, day) = civil_from_days(days as i64);
    proof {
        lemma_date_of(year as int, month as int, day as int);
    }
    Moment {
        year,
        month: month as u64,
        day: day as u64,
        hour: (secs / 3600) as u64,
        minute: (secs % 3600 / 60) as u64,
        second: (secs % 60) as u64,
    }
}

/// A number of at least two digits.
pub open spec fn two_digits(n: int) -> Seq<char> {
    text::zero_padded(text::decimal(n as nat), 2)
}

/// A year of at least four characters.
pub open spec fn year_text(year: int) -> Seq<char> {
    if year >= 0 {
        text::zero_padded(text::decimal(year as nat), 4)
    } else {
        "-"@ + text::zero_padded(text::decimal((-year) as nat), 3)
    }
}

/// The time of day, its parts behind each other with the given character between them.
pub open spec fn clock_text(t: LocalTime, sep: Seq<char>) -> Seq<char> {
    two_digits(t.hour) + sep + two_digits(t.minute) + sep + two_digits(t.second)
}

fn push_clock(out: &mut String, m: &Moment, sep: &str)
    ensures
        forall|t: LocalTime|
            #[trigger] m.is(t) ==> final(out)@ == old(out)@ + clock_text(t, sep@),
{
    text::push_decimal_padded(out, m.hour, 2);
    text::push_text(out, sep);
    text::push_decimal_padded(out, m.minute, 2);
    text::push_text(out, sep);
    text::push_decimal_padded(out, m.second, 2);
    proof {
        assert forall|t: LocalTime| #[trigger] m.is(t) implies out@ == old(out)@ + clock_text(
            t,
            sep@,
        ) by {
            assert(out@ =~= old(out)@ + clock_text(t, sep@));
        }
    }
}

/// A moment as it is typed in.
pub open spec fn datetime_text(ts_ms: int) -> Seq<char> {
    let t = local_time(ts_ms);
    year_text(t.year) + "-"@ + two_digits(t.month) + "-"@ + two_digits(t.day) + " "@ + clock_text(
        t,
        ":"@,
    )
}

pub fn format_datetime_input(ts_ms: i64) -> (r: String)
    ensures
        r@ == datetime_text(ts_ms as int),
{
    let m: Moment = moment_of(ts_ms);
    let mut r = text::owned("");
    proof {
        reveal_strlit("");
    }
    if m.year >= 0 {
        text::push_decimal_padded(&mut r, m.year as u64, 4);
    } else {
        text::push_text(&mut r, "-");
        text::push_decimal_padded(&mut r, (-(m.year as i128)) as u64, 3);
    }
    proof {
        assert(r@ =~= year_text(m.year as int));
    }
    text::push_text(&mut r, "-");
    text::push_decimal_padded(&mut r, m.month, 2);
    text::push_text(&mut r, "-");
    text::push_decimal_padded(&mut r, m.day, 2);
    text::push_text(&mut r, " ");
    push_clock(&mut r, &m, ":");
    r
}

/// A moment as a part of a file's name.
pub open spec fn filename_text(ts_ms: int) -> Seq<char> {
    let t = local_time(ts_ms);
    two_digits(t.month) + "-"@ + two_digits(t.day) + "_"@ + clock_text(t, "-"@)
}

pub fn format_datetime_for_filename(ts_ms: i64) -> (r: String)
    ensures
        r@ == filename_text(ts_ms as int),
{
    let m: Moment = moment_of(ts_ms);
    let mut r = text::owned("");
    text::push_decimal_padded(&mut r, m.month, 2);
    text::push_text(&mut r, "-");
    text::push_decimal_padded(&mut r, m.day, 2);
    text::push_text(&mut r, "_");
    proof {
        reveal_strlit("");
        let t = local_time(ts_ms as int);
        assert(r@ =~= two_digits(t.month) + "-"@ + two_digits(t.day) + "_"@);
    }
    push_clock(&mut r, &m, "-");
    r
}

/// The moment of an alarm, in milliseconds.
pub fn format_alarm_datetime(ts_ms: i64) -> (r: String)
    ensures
        ({
            let t = local_time(ts_ms as int);
            r@ == two_digits(t.month) + "/"@ + two_digits(t.day) + " "@ + clock_text(t, ":"@)
        }),
{
    let m: Moment = moment_of(ts_ms);
    let mut r = text::owned("");
    text::push_decimal_padded(&mut r, m.month, 2);
    text::push_text(&mut r, "/");
    text::push_decimal_padded(&mut r, m.day, 2);
    text::push_text(&mut r, " ");
    proof {
        reveal_strlit("");
        let t = local_time(ts_ms as int);
        assert(r@ =~= two_digits(t.month) + "/"@ + two_digits(t.day) + " "@);
    }
    push_clock(&mut r, &m, ":");
    r
}

/// The time of day of a moment.
pub fn format_ts_ms(ts_ms: i64) -> (r: String)
    ensures
        r@ == clock_text(local_time(ts_ms as int), ":"@),
{
    let m: Moment = moment_of(ts_ms);
    let mut r = text::owned("");
    push_clock(&mut r, &m, ":");
    proof {
        reveal_strlit("");
        assert(r@ =~= clock_text(local_time(ts_ms as int), ":"@));
    }
    r
}

/// The name of the file that a recording is written to.
pub fn default_can_export_filename(start_ts_ms: i64, end_ts_ms: i64, now_ts_ms: i64) -> (r: String)
    ensures
        r@ == "can_export_"@ + filename_text(now_ts_ms as int) + "_"@ + filename_text(
            start_ts_ms as int,
        ) + "_"@ + filename_text(end_ts_ms as int) + ".txt"@,
{
    let now: String = format_datetime_for_filename(now_ts_ms);
    let start: String = format_datetime_for_filename(start_ts_ms);
    let end: String = format_datetime_for_filename(end_ts_ms);
    let mut r = text::owned("can_export_");
    text::push_text(&mut r, now.as_str());
    text::push_text(&mut r, "_");
    text::push_text(&mut r, start.as_str());
    text::push_text(&mut r, "_");
    text::push_text(&mut r, end.as_str());
    text::push_text(&mut r, ".txt");
    r
}

/// A text with the other separators of dates replaced: `/` by `-`, and `T` by a space.
pub open spec fn normalized(s: Seq<char>) -> Seq<char> {
    s.map_values(
        |c: char|
            if c == '/' {
                '-'
            } else if c == 'T' {
                ' '
            } else {
                c
            },
    )
}

/// The date that a word spells: year, month and day, with `-` between them.
pub open spec fn date_value(word: Seq<char>) -> Option<(int, int, int)> {
    let parts = text::split_on(word, '-');
    if parts.len() != 3 {
        None
    } else {
        match (
            text::parsed_signed(parts[0]),
            text::parsed_signed(parts[1]),
            text::parsed_signed(parts[2]),
        ) {
            (Some(year), Some(month), Some(day)) => Some((year, month, day)),
            _ => None,
        }
    }
}

/// The time of day that a word spells: hour, minute and second, with `:` between them;
/// minute and second may be missing.
pub open spec fn clock_value(word: Seq<char>) -> Option<(int, int, int)> {
    let parts = text::split_on(word, ':');
    if parts.len() > 3 {
        None
    } else {
        let hour = text::parsed_signed(parts[0]);
        let minute = if parts.len() > 1 {
            text::parsed_signed(parts[1])
        } else {
            Some(0)
        };
        let second = if parts.len() > 2 {
            text::parsed_signed(parts[2])
        } else {
            Some(0)
        };
        match (hour, minute, second) {
            (Some(hour), Some(minute), Some(second)) => Some((hour, minute, second)),
            _ => None,
        }
    }
}

/// The moment of a local date and time, in milliseconds; there is none where the parts are
/// out of range, or where a 64-bit number cannot hold it.
pub open spec fn moment_value(date: (int, int, int), clock: (int, int, int)) -> Option<int> {
    let ts_ms = (day_number(date.0, date.1, date.2) * 86_400 + clock.0 * 3600 + clock.1 * 60
        + clock.2 - DISPLAY_TZ_OFFSET_SECS) * 1000;
    if 1 <= date.1 <= 12 && 1 <= date.2 <= 31 && 0 <= clock.0 <= 23 && 0 <= clock.1 <= 59 && 0
        <= clock.2 <= 59 && i64::MIN <= ts_ms <= i64::MAX {
        Some(ts_ms)
    } else {
        None
    }
}

/// The moment that a typed text stands for: a number of milliseconds, or a local date with
/// or without a time of day.
pub open spec fn time_value(s: Seq<char>) -> Option<int> {
    let t = text::trimmed(s);
    if t.len() == 0 {
        None
    } else if text::parsed_signed(t) is Some {
        text::parsed_signed(t)
    } else {
        let words = text::words_of(normalized(t));
        if words.len() == 0 || words.len() > 2 {
            None
        } else {
            let clock = if words.len() == 2 {
                clock_value(words[1])
            } else {
                Some((0, 0, 0))
            };
            match (date_value(words[0]), clock) {
                (Some(date), Some(clock)) => moment_value(date, clock),
                _ => None,
            }
        }
    }
}

fn normalize(s: &[char]) -> (r: Vec<char>)
    ensures
        r@ == normalized(s@),
{
    let mut r: Vec<char> = Vec::new();
    for i in 0..s.len()
        invariant
            r@ == normalized(s@.take(i as int)),
    {
        let c: char = s[i];
        if c == '/' {
            r.push('-');
        } else if c == 'T' {
            r.push(' ');
        } else {
            r.push(c);
        }
        proof {
            assert(r@ =~= normalized(s@.take(i + 1)));
        }
    }
    proof {
        assert(s@.take(s@.len() as int) =~= s@);
    }
    r
}

fn parse_date(word: &[char]) -> (r: Option<(i64, i64, i64)>)
    ensures
        match date_value(word@) {
            Some(date) => r is Some && (r->0).0 == date.0 && (r->0).1 == date.1 && (r->0).2
                == date.2,
            None => r is None,
        },
{
    let parts: Vec<Vec<char>> = text::split(word, '-');
    let ghost views = text::views(parts@);
    if parts.len() != 3 {
        return None;
    }
    proof {
        assert(views[0] == parts@[0]@ && views[1] == parts@[1]@ && views[2] == parts@[2]@);
    }
    match (
        text::parse_signed(parts[0].as_slice()),
        text::parse_signed(parts[1].as_slice()),
        text::parse_signed(parts[2].as_slice()),
    ) {
        (Some(year), Some(month), Some(day)) => Some((year, month, day)),
        _ => None,
    }
}

fn parse_clock(word: &[char]) -> (r: Option<(i64, i64, i64)>)
    ensures
        match clock_value(word@) {
            Some(clock) => r is Some && (r->0).0 == clock.0 && (r->0).1 == clock.1 && (r->0).2
                == clock.2,
            None => r is None,
        },
{
    let parts: Vec<Vec<char>> = text::split(word, ':');
    let ghost views = text::views(parts@);
    if parts.len() > 3 {
        return None;
    }
    proof {
        assert(views[0] == parts@[0]@);
        assert(parts@.len() > 1 ==> views[1] == parts@[1]@);
        assert(parts@.len() > 2 ==> views[2] == parts@[2]@);
    }
    let hour: Option<i64> = text::parse_signed(parts[0].as_slice());
    let minute: Option<i64> = if parts.len() > 1 {
        text::parse_signed(parts[1].as_slice())
    } else {
        Some(0)
    };
    let second: Option<i64> = if parts.len() > 2 {
        text::parse_signed(parts[2].as_slice())
    } else {
        Some(0)
    };
    match (hour, minute, second) {
        (Some(hour), Some(minute), Some(second)) => Some((hour, minute, second)),
        _ => None,
    }
}

/// A year beyond which no moment fits 64 bits.
const FAR_YEAR: i64 = 300_000_000;

fn moment_ms(date: (i64, i64, i64), clock: (i64, i64, i64)) -> (r: Option<i64>)
    ensures
        match moment_value(
            (date.0 as int, date.1 as int, date.2 as int),
            (clock.0 as int, clock.1 as int, clock.2 as int),
        ) {
            Some(ts_ms) => r is Some && r->0 == ts_ms,
            None => r is None,
        },
{
    let (year, month, day) = date;
    let (hour, minute, second) = clock;
    if month < 1 || month > 12 || day < 1 || day > 31 || hour < 0 || hour > 23 || minute < 0
        || minute > 59 || second < 0 || second > 59 {
        return None;
    }
    proof {
        assert(-FAR_YEAR <= year <= FAR_YEAR ==> -120_000_000_000 <= day_number(
            year as int,
            month as int,
            day as int,
        ) <= 120_000_000_000);
        assert(year > FAR_YEAR ==> day_number(year as int, month as int, day as int)
            > 109_000_000_000);
        assert(year < -FAR_YEAR ==> day_number(year as int, month as int, day as int)
            < -109_000_000_000);
    }
    if year < -FAR_YEAR || year > FAR_YEAR {
        return None;
    }
    let days: i64 = days_from_civil(year, month, day);
    let ts_ms: i128 = (days as i128 * 86_400 + hour as i128 * 3600 + minute as i128 * 60
        + second as i128 - DISPLAY_TZ_OFFSET_SECS as i128) * 1000;
    if ts_ms < i64::MIN as i128 || ts_ms > i64::MAX as i128 {
        return None;
    }
    Some(ts_ms as i64)
}

pub fn parse_time_input(input: &str) -> (r: Option<i64>)
    ensures
        match time_value(input@) {
            Some(ts_ms) => r is Some && r->0 == ts_ms,
            None => r is None,
        },
{
    let chars: Vec<char> = text::chars_of(input);
    let trimmed: &[char] = text::trim(chars.as_slice());
    if trimmed.len() == 0 {
        return None;
    }
    match text::parse_signed(trimmed) {
        Some(ts_ms) => {
            return Some(ts_ms);
        },
        None => {},
    }
    let plain: Vec<char> = normalize(trimmed);
    let words: Vec<Vec<char>> = text::words(plain.as_slice());
    let ghost views = text::views(words@);
    if words.len() == 0 || words.len() > 2 {
        return None;
    }
    proof {
        assert(views[0] == words@[0]@);
        assert(words@.len() == 2 ==> views[1] == words@[1]@);
    }
    let clock: Option<(i64, i64, i64)> = if words.len() == 2 {
        parse_clock(words[1].as_slice())
    } else {
        Some((0, 0, 0))
    };
    match (parse_date(words[0].as_slice()), clock) {
        (Some(date), Some(clock)) => moment_ms(date, clock),
        _ => None,
    }
}

proof fn lemma_date_exists(days: int)
    ensures
        ({
            let date = date_of(days);
            is_date(date.0, date.1, date.2) && day_number(date.0, date.1, date.2) == days
        }),
{
    let z = days + 719_468;
    let era = z / 146_097;
    let doe = z % 146_097;
    let yoe = (doe - doe / 1_460 + doe / 36_524 - doe / 146_096) / 365;
    let y = yoe + era * 400;
    let doy = doe - (365 * yoe + yoe / 4 - yoe / 100);
    lemma_year_of_era(doe);
    lemma_era(y, era, yoe);
    lemma_same_leap(y, era, yoe);
    lemma_month_of_year(y, doy);
    let mp = (5 * doy + 2) / 153;
    let d = doy - (153 * mp + 2) / 5 + 1;
    let m = if mp < 10 {
        mp + 3
    } else {
        mp - 9
    };
    let year = if m <= 2 {
        y + 1
    } else {
        y
    };
    lemma_date_of(year, m, d);
}

proof fn lemma_plain_digits(s: Seq<char>)
    requires
        text::all_digits(s),
    ensures
        forall|i: int|
            0 <= i < s.len() ==> {
                let c = #[trigger] s[i];
                c != '-' && c != ':' && c != '/' && c != 'T' && !text::white_space(c)
            },
{
    assert forall|i: int| 0 <= i < s.len() implies {
        let c = #[trigger] s[i];
        c != '-' && c != ':' && c != '/' && c != 'T' && !text::white_space(c)
    } by {
        assert(text::is_digit(s[i]));
    }
}

proof fn lemma_three_parts(a: Seq<char>, b: Seq<char>, c: Seq<char>, sep: char)
    requires
        text::all_digits(a),
        text::all_digits(b),
        text::all_digits(c),
        sep == '-' || sep == ':',
    ensures
        text::split_on(a + seq![sep] + b + seq![sep] + c, sep) == seq![a, b, c],
{
    lemma_plain_digits(a);
    lemma_plain_digits(b);
    lemma_plain_digits(c);
    let tail = b + seq![sep] + c;
    assert(a + seq![sep] + b + seq![sep] + c =~= a + seq![sep] + tail);
    text::lemma_split_front(a, sep, tail);
    text::lemma_split_front(b, sep, c);
    text::lemma_split_front(c, sep, c);
    assert(text::split_on(a + seq![sep] + tail, sep) =~= seq![a, b, c]);
}

/// Six numbers that are written as a date and a time of day are found again.
#[verifier::spinoff_prover]
#[verifier::rlimit(40)]
proof fn lemma_parts_found(
    y: Seq<char>,
    m: Seq<char>,
    d: Seq<char>,
    h: Seq<char>,
    n: Seq<char>,
    s: Seq<char>,
)
    requires
        text::all_digits(y) && y.len() > 0,
        text::all_digits(m) && m.len() > 0,
        text::all_digits(d) && d.len() > 0,
        text::all_digits(h) && h.len() > 0,
        text::all_digits(n) && n.len() > 0,
        text::all_digits(s) && s.len() > 0,
    ensures
        ({
            let date = y + seq!['-'] + m + seq!['-'] + d;
            let clock = h + seq![':'] + n + seq![':'] + s;
            let all = date + seq![' '] + clock;
            &&& text::trimmed(all) == all
            &&& all.len() > 0
            &&& text::parsed_signed(all) is None
            &&& normalized(all) == all
            &&& text::words_of(all) == seq![date, clock]
            &&& text::split_on(date, '-') == seq![y, m, d]
            &&& text::split_on(clock, ':') == seq![h, n, s]
        }),
{
    lemma_plain_digits(y);
    lemma_plain_digits(m);
    lemma_plain_digits(d);
    lemma_plain_digits(h);
    lemma_plain_digits(n);
    lemma_plain_digits(s);
    let date = y + seq!['-'] + m + seq!['-'] + d;
    let clock = h + seq![':'] + n + seq![':'] + s;
    let all = date + seq![' '] + clock;
    lemma_three_parts(y, m, d, '-');
    lemma_three_parts(h, n, s, ':');
    assert(forall|i: int| 0 <= i < date.len() ==> !text::white_space(#[trigger] date[i]));
    assert(forall|i: int| 0 <= i < clock.len() ==> !text::white_space(#[trigger] clock[i]));
    text::lemma_two_words(date, clock);
    assert(all[0] == y[0]);
    assert(all.last() == s.last());
    text::lemma_trimmed_already(all);
    assert(all[y.len() as int] == '-');
    assert(text::is_digit(y[0]));
    assert(!text::is_digit(all[y.len() as int]));
    assert(text::parsed_signed(all) is None);
    assert(normalized(all) =~= all);
}

/// A moment that is shown and typed in again is the same moment, to the second.
#[verifier::spinoff_prover]
#[verifier::rlimit(40)]
pub proof fn law_datetime_is_read_back(ts_ms: int)
    requires
        i64::MIN <= ts_ms <= i64::MAX,
        local_time(ts_ms).year >= 0,
    ensures
        time_value(datetime_text(ts_ms)) == Some(ts_ms / 1000 * 1000),
{
    let t = local_time(ts_ms);
    let days = local_seconds(ts_ms) / 86_400;
    lemma_date_exists(days);
    assert(days_before_year(t.year) <= days + 719_162);
    assert(0 <= t.year <= i64::MAX) by {
        assert(365 * (t.year - 1) <= days_before_year(t.year) + 2);
    }
    text::law_padded_round_trip(t.year as nat, 4);
    text::law_padded_round_trip(t.month as nat, 2);
    text::law_padded_round_trip(t.day as nat, 2);
    text::law_padded_round_trip(t.hour as nat, 2);
    text::law_padded_round_trip(t.minute as nat, 2);
    text::law_padded_round_trip(t.second as nat, 2);
    let (y, m, d) = (year_text(t.year), two_digits(t.month), two_digits(t.day));
    let (h, n, s) = (two_digits(t.hour), two_digits(t.minute), two_digits(t.second));
    reveal_strlit("-");
    reveal_strlit(":");
    reveal_strlit(" ");
    assert("-"@ =~= seq!['-']);
    assert(":"@ =~= seq![':']);
    assert(" "@ =~= seq![' ']);
    let date = y + seq!['-'] + m + seq!['-'] + d;
    let clock = h + seq![':'] + n + seq![':'] + s;
    assert(datetime_text(ts_ms) =~= date + seq![' '] + clock);
    lemma_parts_found(y, m, d, h, n, s);
    assert(date_value(date) == Some((t.year, t.month, t.day)));
    assert(clock_value(clock) == Some((t.hour, t.minute, t.second)));
}

// ---- what holds of all days and moments ----

/// The months have 31, 28, 31, 30, 31, 30, 31, 31, 30, 31, 30 and 31 days, the second one more
/// in a leap year: in every fourth year, but of the hundredth years only in every fourth.
pub proof fn law_month_lengths(year: int, month: int)
    requires
        1 <= month <= 12,
    ensures
        ({
            let n = days_to_month_end(year, month) - days_before_month(year, month);
            &&& month == 4 || month == 6 || month == 9 || month == 11 ==> n == 30
            &&& month == 2 && is_leap(year) ==> n == 29
            &&& month == 2 && !is_leap(year) ==> n == 28
            &&& month != 2 && month != 4 && month != 6 && month != 9 && month != 11 ==> n == 31
        }),
        is_leap(year) <==> year % 400 == 0 || (year % 4 == 0 && year % 100 != 0),
{
}

/// Days are counted one by one from the first of January 1970: the day after a day counts one
/// more, also over the end of a month and of a year.
pub proof fn law_days_count_up(year: int, month: int, day: int)
    requires
        is_date(year, month, day),
    ensures
        day_number(1970, 1, 1) == 0,
        is_date(year, month, day + 1) ==> day_number(year, month, day + 1) == day_number(
            year,
            month,
            day,
        ) + 1,
        !is_date(year, month, day + 1) && month < 12 ==> is_date(year, month + 1, 1) && day_number(
            year,
            month + 1,
            1,
        ) == day_number(year, month, day) + 1,
        !is_date(year, month, day + 1) && month == 12 ==> is_date(year + 1, 1, 1) && day_number(
            year + 1,
            1,
            1,
        ) == day_number(year, month, day) + 1,
{
    lemma_year_length(year);
}

/// The local time of a moment is eight hours ahead: its day, hour, minute and second, taken
/// together, are the seconds since 1970 and eight hours more.
pub proof fn law_local_time(ts_ms: int)
    requires
        i64::MIN <= ts_ms <= i64::MAX,
    ensures
        ({
            let t = local_time(ts_ms);
            &&& is_date(t.year, t.month, t.day)
            &&& 0 <= t.hour < 24
            &&& 0 <= t.minute < 60
            &&& 0 <= t.second < 60
            &&& day_number(t.year, t.month, t.day) * 86_400 + t.hour * 3600 + t.minute * 60
                + t.second == ts_ms / 1000 + 8 * 3600
        }),
{
    let t = local_time(ts_ms);
    let days = local_seconds(ts_ms) / 86_400;
    let secs = local_seconds(ts_ms) % 86_400;
    lemma_date_exists(days);
    assert(day_number(t.year, t.month, t.day) == days);
    assert(days * 86_400 + secs == local_seconds(ts_ms));
    assert(secs / 3600 * 3600 + secs % 3600 == secs);
    assert(secs % 3600 / 60 * 60 + secs % 3600 % 60 == secs % 3600);
    assert(secs % 3600 % 60 == secs % 60);
}

/// A moment is written as year, month and day, and hour, minute and second; in the name of a
/// file as month and day, and hour, minute and second with hyphens.
pub proof fn law_time_texts(ts_ms: int)
    ensures
        ({
            let t = local_time(ts_ms);
            let hour = two_digits(t.hour);
            let minute = two_digits(t.minute);
            let second = two_digits(t.second);
            &&& datetime_text(ts_ms) == year_text(t.year) + "-"@ + two_digits(t.month) + "-"@
                + two_digits(t.day) + " "@ + (hour + ":"@ + minute + ":"@ + second)
            &&& filename_text(ts_ms) == two_digits(t.month) + "-"@ + two_digits(t.day) + "_"@ + (
            hour + "-"@ + minute + "-"@ + second)
        }),
{
}

/// A date and a time of day are a moment where the month is one of twelve, the day one of
/// thirty-one, the time one of the day, and the moment can be counted; it is counted in
/// milliseconds, eight hours behind.
pub proof fn law_moment_of_date(year: int, month: int, day: int, hour: int, minute: int, second: int)
    ensures
        ({
            let secs = day_number(year, month, day) * 86_400 + hour * 3600 + minute * 60 + second
                - 8 * 3600;
            let ok = 1 <= month <= 12 && 1 <= day <= 31 && 0 <= hour < 24 && 0 <= minute < 60 && 0
                <= second < 60 && i64::MIN <= secs * 1000 <= i64::MAX;
            moment_value((year, month, day), (hour, minute, second)) == if ok {
                Some(secs * 1000)
            } else {
                None
            }
        }),
{
}

/// A number stands for the moment itself, in milliseconds, and a blank field for none. A slash
/// counts as a hyphen and a T as a blank.
pub proof fn law_typed_times(s: Seq<char>, i: int)
    ensures
        text::trimmed(s).len() == 0 ==> time_value(s) is None,
        text::trimmed(s).len() > 0 && text::parsed_signed(text::trimmed(s)) is Some ==> time_value(s)
            == text::parsed_signed(text::trimmed(s)),
        normalized(s).len() == s.len(),
        0 <= i < s.len() ==> normalized(s)[i] == if s[i] == '/' {
            '-'
        } else if s[i] == 'T' {
            ' '
        } else {
            s[i]
        },
{
}

/// A time of day may leave out its seconds, or its minutes and seconds: they are then zero. A
/// date may leave out nothing.
pub proof fn law_typed_parts(word: Seq<char>)
    ensures
        ({
            let parts = text::split_on(word, ':');
            &&& parts.len() > 3 ==> clock_value(word) is None
            &&& clock_value(word) matches Some((hour, minute, second)) ==> {
                &&& text::parsed_signed(parts[0]) == Some(hour)
                &&& parts.len() > 1 ==> text::parsed_signed(parts[1]) == Some(minute)
                &&& parts.len() <= 1 ==> minute == 0
                &&& parts.len() > 2 ==> text::parsed_signed(parts[2]) == Some(second)
                &&& parts.len() <= 2 ==> second == 0
            }
            &&& parts.len() == 3 && text::parsed_signed(parts[0]) is Some && text::parsed_signed(
                parts[1],
            ) is Some && text::parsed_signed(parts[2]) is Some ==> clock_value(word) is Some
        }),
        ({
            let parts = text::split_on(word, '-');
            &&& date_value(word) is Some <==> parts.len() == 3 && text::parsed_signed(parts[0])
                is Some && text::parsed_signed(parts[1]) is Some && text::parsed_signed(parts[2])
                is Some
            &&& date_value(word) matches Some((year, month, day)) ==> text::parsed_signed(parts[0])
                == Some(year) && text::parsed_signed(parts[1]) == Some(month)
                && text::parsed_signed(parts[2]) == Some(day)
        }),
{
}

/// Years are written with four digits, and with three behind a hyphen before the year zero;
/// all else is written with two.
pub proof fn law_digits_of_times(year: int, n: int)
    ensures
        year >= 0 ==> year_text(year) == text::zero_padded(text::decimal(year as nat), 4),
        year < 0 ==> year_text(year) == "-"@ + text::zero_padded(text::decimal((-year) as nat), 3),
        two_digits(n) == text::zero_padded(text::decimal(n as nat), 2),
{
}

} // verus!
