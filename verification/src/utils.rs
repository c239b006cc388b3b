use vstd::prelude::*;
use crate::text::{
    dec_str_int, two_digit_chars, i64_to_dec_string, two_digit_string,
};

verus! {

/// Whether a year is a leap year in the proleptic Gregorian calendar.
pub open spec fn is_leap_year(y: int) -> bool {
    (y % 4 == 0 && y % 100 != 0) || y % 400 == 0
}

/// The number of days of a month in a given year.
pub open spec fn days_in_month(m: int, y: int) -> int {
    if m == 2 {
        if is_leap_year(y) {
            29
        } else {
            28
        }
    } else if m == 4 || m == 6 || m == 9 || m == 11 {
        30
    } else {
        31
    }
}

/// Whether day, month and year form a real calendar date.
pub open spec fn valid_date(d: int, m: int, y: int) -> bool {
    &&& 1 <= m <= 12
    &&& 1 <= d <= days_in_month(m, y)
}

/// Days since 1970-01-01 of a calendar date, counted in the proleptic
/// Gregorian calendar (negative before the epoch).
pub open spec fn days_from_civil(d: int, m: int, y: int) -> int {
    let yy = if m <= 2 {
        y - 1
    } else {
        y
    };
    let era = yy / 400;
    let yoe = yy - era * 400;
    let mp = if m > 2 {
        m - 3
    } else {
        m + 9
    };
    let doy = (153 * mp + 2) / 5 + d - 1;
    let doe = yoe * 365 + yoe / 4 - yoe / 100 + doy;
    era * 146097 + doe - 719468
}

/// The Unix timestamp of 00:00:00 UTC on a calendar date.
pub open spec fn midnight_timestamp(d: int, m: int, y: int) -> int {
    86400 * days_from_civil(d, m, y)
}

/// The calendar date (day, month, year) containing a count of days since
/// 1970-01-01, in the proleptic Gregorian calendar.
pub open spec fn civil_from_days(days: int) -> (int, int, int) {
    let z = days + 719468;
    let era = z / 146097;
    let doe = z - era * 146097;
    let yoe = (doe - doe / 1460 + doe / 2918 - doe / 146096) / 365;
    let y = yoe + era * 400;
    let doy = doe - (365 * yoe + yoe / 4 - yoe / 100);
    let mp = (5 * doy + 2) / 153;
    let d = doy - (153 * mp + 2) / 5 + 1;
    let m = if mp < 10 {
        mp + 3
    } else {
        mp - 9
    };
    (d, m, if m <= 2 {
        y + 1
    } else {
        y
    })
}

/// The calendar date of the day containing a Unix timestamp.
pub open spec fn date_of_timestamp(ts: int) -> (int, int, int) {
    civil_from_days(ts / 86400)
}

/// The Unix timestamp of 00:00:00 UTC on the calendar day containing a
/// timestamp.
pub open spec fn midnight_of(ts: int) -> int {
    86400 * (ts / 86400)
}

/// The "dd/mm/yyyy" rendering of a calendar date (day and month zero-padded
/// to two digits, year unpadded).
pub open spec fn date_string_chars(d: int, m: int, y: int) -> Seq<char> {
    two_digit_chars(d) + seq!['/'] + two_digit_chars(m) + seq!['/'] + dec_str_int(y)
}

/// A calendar date held as plain day, month and year numbers.
#[derive(Clone, Copy, Debug, PartialEq, Eq, Structural)]
pub struct Date {
    pub day: i64,
    pub month: i64,
    pub year: i64,
}

/// Whether day, month and year form a real calendar date.
pub fn validate_date(day: u16, month: u16, year: u16) -> (r: bool)
    ensures
        r == valid_date(day as int, month as int, year as int),
{
    if month < 1 || month > 12 || day < 1 {
        return false;
    }
    let dim: u16 = if month == 2 {
        let y = year as u64;
        if (y % 4 == 0 && y % 100 != 0) || y % 400 == 0 {
            29
        } else {
            28
        }
    } else if month == 4 || month == 6 || month == 9 || month == 11 {
        30
    } else {
        31
    };
    day <= dim
}

/// Floor division of a signed value by a positive divisor; agrees with the
/// mathematical division used in specifications.
fn floor_div(a: i64, b: i64) -> (q: i64)
    requires
        1 <= b,
    ensures
        q == a as int / b as int,
{
    match a.checked_div_euclid(b) {
        Some(q) => q,
        None => {
            proof {
                vstd::arithmetic::div_mod::lemma_fundamental_div_mod(a as int, b as int);
                vstd::arithmetic::div_mod::lemma_mod_division_less_than_divisor(a as int, b as int);
                assert(i64::MIN <= a as int / b as int <= i64::MAX) by (nonlinear_arith)
                    requires
                        1 <= b as int,
                        a as int == b as int * (a as int / b as int) + a as int % b as int,
                        0 <= (a as int % b as int) && (a as int % b as int) < b as int,
                        i64::MIN <= a as int <= i64::MAX,
                ;
                assert(false);
            }
            0
        },
    }
}

/// The Unix timestamp of 00:00:00 UTC on a valid calendar date.
pub fn date_to_timestamp(day: u16, month: u16, year: u16) -> (ts: i64)
    requires
        valid_date(day as int, month as int, year as int),
    ensures
        ts == midnight_timestamp(day as int, month as int, year as int),
{
    let yy: i64 = if month <= 2 {
        year as i64 - 1
    } else {
        year as i64
    };
    let era: i64 = floor_div(yy, 400);
    let yoe: i64 = yy - era * 400;
    proof {
        vstd::arithmetic::div_mod::lemma_fundamental_div_mod(yy as int, 400);
        vstd::arithmetic::div_mod::lemma_mod_division_less_than_divisor(yy as int, 400);
        assert(0 <= yoe < 400);
    }
    let mp: i64 = if month > 2 {
        month as i64 - 3
    } else {
        month as i64 + 9
    };
    let doy: i64 = floor_div(153 * mp + 2, 5) + day as i64 - 1;
    let doe: i64 = yoe * 365 + floor_div(yoe, 4) - floor_div(yoe, 100) + doy;
    let days: i64 = era * 146097 + doe - 719468;
    86400 * days
}

/// The calendar date of the day containing a count of days since the epoch.
fn days_to_date(days: i64) -> (r: Date)
    requires
        -200000000000000 <= days <= 200000000000000,
    ensures
        (r.day as int, r.month as int, r.year as int) == civil_from_days(days as int),
{
    let z: i64 = days + 719468;
    let era: i64 = floor_div(z, 146097);
    let doe: i64 = z - era * 146097;
    proof {
        vstd::arithmetic::div_mod::lemma_fundamental_div_mod(z as int, 146097);
        vstd::arithmetic::div_mod::lemma_mod_division_less_than_divisor(z as int, 146097);
        assert(0 <= doe < 146097);
    }
    let yoe: i64 = floor_div(doe - floor_div(doe, 1460) + floor_div(doe, 2918) - floor_div(doe, 146096), 365);
    proof {
        vstd::arithmetic::div_mod::lemma_fundamental_div_mod(doe as int, 1460);
        vstd::arithmetic::div_mod::lemma_mod_division_less_than_divisor(doe as int, 1460);
        vstd::arithmetic::div_mod::lemma_fundamental_div_mod(doe as int, 2918);
        vstd::arithmetic::div_mod::lemma_mod_division_less_than_divisor(doe as int, 2918);
        vstd::arithmetic::div_mod::lemma_fundamental_div_mod(doe as int, 146096);
        vstd::arithmetic::div_mod::lemma_mod_division_less_than_divisor(doe as int, 146096);
        vstd::arithmetic::div_mod::lemma_fundamental_div_mod(
            doe as int - doe as int / 1460 + doe as int / 2918 - doe as int / 146096,
            365,
        );
        vstd::arithmetic::div_mod::lemma_mod_division_less_than_divisor(
            doe as int - doe as int / 1460 + doe as int / 2918 - doe as int / 146096,
            365,
        );
    }
    let y: i64 = yoe + era * 400;
    let doy: i64 = doe - (365 * yoe + floor_div(yoe, 4) - floor_div(yoe, 100));
    let mp: i64 = floor_div(5 * doy + 2, 153);
    let d: i64 = doy - floor_div(153 * mp + 2, 5) + 1;
    let m: i64 = if mp < 10 {
        mp + 3
    } else {
        mp - 9
    };
    let yr: i64 = if m <= 2 {
        y + 1
    } else {
        y
    };
    Date { day: d, month: m, year: yr }
}

/// The calendar date containing a Unix timestamp, given in seconds, or in
/// milliseconds when the flag says so.
pub fn timestamp_to_date(timestamp: i64, millis: bool) -> (r: Date)
    ensures
        ({
            let sec = if millis {
                timestamp as int / 1000
            } else {
                timestamp as int
            };
            (r.day as int, r.month as int, r.year as int) == date_of_timestamp(sec)
        }),
{
    let sec: i64 = if millis {
        floor_div(timestamp, 1000)
    } else {
        timestamp
    };
    let days: i64 = floor_div(sec, 86400);
    proof {
        vstd::arithmetic::div_mod::lemma_fundamental_div_mod(sec as int, 86400);
        vstd::arithmetic::div_mod::lemma_mod_division_less_than_divisor(sec as int, 86400);
    }
    days_to_date(days)
}

/// The "dd/mm/yyyy" rendering of the calendar date containing a Unix
/// timestamp.
pub fn timestamp_to_date_string(timestamp: i64, millis: bool) -> (s: String)
    ensures
        ({
            let sec = if millis {
                timestamp as int / 1000
            } else {
                timestamp as int
            };
            let (d, m, y) = date_of_timestamp(sec);
            s@ == date_string_chars(d, m, y)
        }),
{
    proof {
        reveal_strlit("/");
    }
    let date = timestamp_to_date(timestamp, millis);
    let mut s = two_digit_string(date.day);
    s.append("/");
    let month_part = two_digit_string(date.month);
    s.append(month_part.as_str());
    s.append("/");
    let year_part = i64_to_dec_string(date.year);
    s.append(year_part.as_str());
    proof {
        let sec = if millis {
            timestamp as int / 1000
        } else {
            timestamp as int
        };
        let (d, m, y) = date_of_timestamp(sec);
        assert(s@ =~= date_string_chars(d, m, y));
    }
    s
}

/// The midnight truncation of a timestamp, kept verbatim in the handful of
/// cases at the very bottom of the representable range where the midnight
/// itself cannot be represented.
pub open spec fn representable_midnight(ts: int) -> int {
    if i64::MIN <= midnight_of(ts) {
        midnight_of(ts)
    } else {
        ts
    }
}

/// A timestamp truncated to 00:00:00 UTC of its calendar day. The handful
/// of timestamps at the very bottom of the representable range, whose
/// midnight lies below it, are kept as they are.
pub fn truncate_to_midnight(ts: i64) -> (r: i64)
    ensures
        r as int == representable_midnight(ts as int),
{
    proof {
        vstd::arithmetic::div_mod::lemma_fundamental_div_mod(ts as int, 86400);
        vstd::arithmetic::div_mod::lemma_mod_division_less_than_divisor(ts as int, 86400);
    }
    let rem: i64 = match ts.checked_rem_euclid(86400) {
        Some(rem) => rem,
        None => {
            proof {
                assert(false);
            }
            0
        },
    };
    if ts >= i64::MIN + rem {
        ts - rem
    } else {
        ts
    }
}

/// Whether a digit character sits at a position of a character sequence.
pub open spec fn is_digit_char(c: char) -> bool {
    '0' <= c && c <= '9'
}

/// Whether a string matches the "dd/mm/yyyy" shape: a day from 00 to 31, a
/// month from 00 to 12, and a four-digit year.
pub open spec fn date_format_ok(s: Seq<char>) -> bool {
    &&& s.len() == 10
    &&& (('0' <= s[0] && s[0] <= '2' && is_digit_char(s[1])) || (s[0] == '3' && ('0' <= s[1]
        && s[1] <= '1')))
    &&& s[2] == '/'
    &&& ((s[3] == '0' && is_digit_char(s[4])) || (s[3] == '1' && ('0' <= s[4] && s[4] <= '2')))
    &&& s[5] == '/'
    &&& is_digit_char(s[6])
    &&& is_digit_char(s[7])
    &&& is_digit_char(s[8])
    &&& is_digit_char(s[9])
}

/// Whether a string matches the "dd/mm/yyyy" shape.
pub fn check_date_format(date: &str) -> (r: bool)
    ensures
        r == date_format_ok(date@),
{
    if date.unicode_len() != 10 {
        return false;
    }
    let c0 = date.get_char(0);
    let c1 = date.get_char(1);
    let c2 = date.get_char(2);
    let c3 = date.get_char(3);
    let c4 = date.get_char(4);
    let c5 = date.get_char(5);
    let c6 = date.get_char(6);
    let c7 = date.get_char(7);
    let c8 = date.get_char(8);
    let c9 = date.get_char(9);
    let day_ok = ('0' <= c0 && c0 <= '2' && '0' <= c1 && c1 <= '9') || (c0 == '3' && '0' <= c1
        && c1 <= '1');
    let month_ok = (c3 == '0' && '0' <= c4 && c4 <= '9') || (c3 == '1' && '0' <= c4 && c4 <= '2');
    let year_ok = '0' <= c6 && c6 <= '9' && '0' <= c7 && c7 <= '9' && '0' <= c8 && c8 <= '9' && '0'
        <= c9 && c9 <= '9';
    day_ok && c2 == '/' && month_ok && c5 == '/' && year_ok
}

/// The March-based year a date belongs to: January and February count to
/// the previous year.
spec fn sh_year(m: int, y: int) -> int {
    if m <= 2 {
        y - 1
    } else {
        y
    }
}

/// The March-based month index of a calendar month, from zero for March to
/// eleven for February.
spec fn sh_month(m: int) -> int {
    if m > 2 {
        m - 3
    } else {
        m + 9
    }
}

/// The first day-of-year of a March-based month.
spec fn month_start(mp: int) -> int {
    (153 * mp + 2) / 5
}

/// The day a date has within its March-based year, counted from zero.
spec fn day_of_year(d: int, m: int) -> int {
    month_start(sh_month(m)) + d - 1
}

/// The first day-of-era of a year of a 400-year era.
spec fn year_start(yoe: int) -> int {
    yoe * 365 + yoe / 4 - yoe / 100
}

/// Dividing a value one larger bumps the quotient exactly when the larger
/// value is a multiple of the divisor.
proof fn lemma_div_step(x: int, k: int)
    requires
        0 <= x,
        1 <= k,
    ensures
        (x + 1) / k == x / k + (if (x + 1) % k == 0 {
            1int
        } else {
            0int
        }),
        (x + 1) % k == (if x % k + 1 == k {
            0int
        } else {
            x % k + 1
        }),
{
    vstd::arithmetic::div_mod::lemma_fundamental_div_mod(x, k);
    vstd::arithmetic::div_mod::lemma_mod_division_less_than_divisor(x, k);
    if x % k + 1 < k {
        assert(x + 1 == (x / k) * k + (x % k + 1)) by (nonlinear_arith)
            requires
                x == k * (x / k) + x % k,
        ;
        vstd::arithmetic::div_mod::lemma_fundamental_div_mod_converse(x + 1, k, x / k, x % k + 1);
    } else {
        assert(x + 1 == (x / k + 1) * k + 0) by (nonlinear_arith)
            requires
                x == k * (x / k) + x % k,
                x % k + 1 == k,
        ;
        vstd::arithmetic::div_mod::lemma_fundamental_div_mod_converse(x + 1, k, x / k + 1, 0);
    }
}

/// From one year of an era to the next, the era's day count advances by a
/// year's length: 365 days, or 366 when the boundary year adds a leap day.
proof fn lemma_year_start_gap(yoe: int)
    requires
        0 <= yoe < 400,
    ensures
        year_start(yoe + 1) == year_start(yoe) + 365 + (if (yoe + 1) % 4 == 0 {
            1int
        } else {
            0int
        }) - (if (yoe + 1) % 100 == 0 {
            1int
        } else {
            0int
        }),
        year_start(yoe) + 365 <= year_start(yoe + 1) <= year_start(yoe) + 366,
{
    lemma_div_step(yoe, 4);
    lemma_div_step(yoe, 100);
    if (yoe + 1) % 100 == 0 {
        vstd::arithmetic::div_mod::lemma_fundamental_div_mod((yoe + 1) / 100, 1);
        let q = (yoe + 1) / 100;
        vstd::arithmetic::div_mod::lemma_fundamental_div_mod(yoe + 1, 100);
        assert(yoe + 1 == 100 * q);
        assert(yoe + 1 == 4 * (25 * q) + 0);
        vstd::arithmetic::div_mod::lemma_fundamental_div_mod_converse(yoe + 1, 4, 25 * q, 0);
    }
}

/// Year starts never decrease along an era, and from any strictly earlier
/// year even the next year's start is not beyond the later year's start.
proof fn lemma_year_start_monotone(a: int, b: int)
    requires
        0 <= a <= b <= 400,
    ensures
        year_start(a) <= year_start(b),
    decreases b - a,
{
    if a < b {
        lemma_year_start_gap(b - 1);
        lemma_year_start_monotone(a, b - 1);
    }
}

/// The day-of-year window of each calendar month, and how day and month
/// are recovered from a day of the year.
proof fn lemma_month_window(d: int, m: int, y: int)
    requires
        valid_date(d, m, y),
    ensures
        month_start(sh_month(m)) <= day_of_year(d, m) <= month_start(sh_month(m) + 1) - 1,
        month_start(sh_month(m) + 1) <= month_start(12),
        0 <= day_of_year(d, m) <= 365,
        day_of_year(d, m) == 365 ==> m == 2 && d == 29,
{
    assert(month_start(0) == 0);
    assert(month_start(1) == 31);
    assert(month_start(2) == 61);
    assert(month_start(3) == 92);
    assert(month_start(4) == 122);
    assert(month_start(5) == 153);
    assert(month_start(6) == 184);
    assert(month_start(7) == 214);
    assert(month_start(8) == 245);
    assert(month_start(9) == 275);
    assert(month_start(10) == 306);
    assert(month_start(11) == 337);
    assert(month_start(12) == 367);
}

/// Two valid dates with the same day of the year share day and month.
proof fn lemma_day_of_year_injective(d1: int, m1: int, y1: int, d2: int, m2: int, y2: int)
    requires
        valid_date(d1, m1, y1),
        valid_date(d2, m2, y2),
        day_of_year(d1, m1) == day_of_year(d2, m2),
    ensures
        d1 == d2,
        m1 == m2,
{
    lemma_month_window(d1, m1, y1);
    lemma_month_window(d2, m2, y2);
}

/// Law: the midnight timestamp names its calendar date uniquely — two valid
/// dates with the same midnight timestamp are the same date. Keying the
/// daily-channel directory by midnight timestamps therefore enforces the
/// one-channel-per-calendar-day invariant.
pub proof fn lemma_midnight_timestamp_injective(
    d1: int,
    m1: int,
    y1: int,
    d2: int,
    m2: int,
    y2: int,
)
    requires
        valid_date(d1, m1, y1),
        valid_date(d2, m2, y2),
        midnight_timestamp(d1, m1, y1) == midnight_timestamp(d2, m2, y2),
    ensures
        d1 == d2,
        m1 == m2,
        y1 == y2,
{
    assert(days_from_civil(d1, m1, y1) == days_from_civil(d2, m2, y2));
    let yy1 = sh_year(m1, y1);
    let yy2 = sh_year(m2, y2);
    let era1 = yy1 / 400;
    let era2 = yy2 / 400;
    let yoe1 = yy1 - era1 * 400;
    let yoe2 = yy2 - era2 * 400;
    let doy1 = day_of_year(d1, m1);
    let doy2 = day_of_year(d2, m2);
    let doe1 = year_start(yoe1) + doy1;
    let doe2 = year_start(yoe2) + doy2;
    proof_civil_decomposition(d1, m1, y1);
    proof_civil_decomposition(d2, m2, y2);
    // The same day count names the same era and day of era.
    let z = days_from_civil(d1, m1, y1) + 719468;
    vstd::arithmetic::div_mod::lemma_fundamental_div_mod_converse(z, 146097, era1, doe1);
    vstd::arithmetic::div_mod::lemma_fundamental_div_mod_converse(z, 146097, era2, doe2);
    assert(era1 == era2);
    assert(doe1 == doe2);
    // The same day of era names the same year of era.
    proof_same_year_of_era(d1, m1, y1, d2, m2, y2);
    assert(yoe1 == yoe2);
    assert(doy1 == doy2);
    lemma_day_of_year_injective(d1, m1, y1, d2, m2, y2);
    assert(yy1 == yy2);
}

/// The day count of a date splits into its era and day of era, with the
/// day of era inside the 146097 days of one era.
proof fn proof_civil_decomposition(d: int, m: int, y: int)
    requires
        valid_date(d, m, y),
    ensures
        ({
            let yy = sh_year(m, y);
            let era = yy / 400;
            let yoe = yy - era * 400;
            &&& 0 <= yoe < 400
            &&& days_from_civil(d, m, y) + 719468 == era * 146097 + (year_start(yoe) + day_of_year(
                d,
                m,
            ))
            &&& 0 <= year_start(yoe) + day_of_year(d, m) < 146097
        }),
{
    let yy = sh_year(m, y);
    let era = yy / 400;
    let yoe = yy - era * 400;
    vstd::arithmetic::div_mod::lemma_fundamental_div_mod(yy, 400);
    vstd::arithmetic::div_mod::lemma_mod_division_less_than_divisor(yy, 400);
    assert(0 <= yoe < 400);
    lemma_month_window(d, m, y);
    lemma_year_start_monotone(yoe, 399);
    assert(year_start(399) == 145731);
    assert(year_start(yoe) >= 0) by {
        vstd::arithmetic::div_mod::lemma_div_is_ordered(0, yoe, 4);
        vstd::arithmetic::div_mod::lemma_div_is_ordered(yoe / 4 * 4, yoe, 100);
        assert(yoe / 100 <= yoe) by {
            vstd::arithmetic::div_mod::lemma_fundamental_div_mod(yoe, 100);
            vstd::arithmetic::div_mod::lemma_mod_division_less_than_divisor(yoe, 100);
            assert(yoe / 100 <= yoe) by (nonlinear_arith)
                requires
                    yoe == 100 * (yoe / 100) + yoe % 100,
                    0 <= yoe % 100,
                    0 <= yoe,
            ;
        }
        assert(yoe / 100 * 100 <= yoe) by (nonlinear_arith)
            requires
                yoe == 100 * (yoe / 100) + yoe % 100,
                0 <= yoe % 100,
        ;
        assert(yoe / 4 * 4 >= yoe - 3) by (nonlinear_arith)
            requires
                yoe == 4 * (yoe / 4) + yoe % 4,
                yoe % 4 < 4,
        ;
        assert(yoe / 100 <= yoe / 4) by {
            vstd::arithmetic::div_mod::lemma_fundamental_div_mod(yoe, 4);
            vstd::arithmetic::div_mod::lemma_mod_division_less_than_divisor(yoe, 4);
            assert(yoe / 100 <= yoe / 4) by (nonlinear_arith)
                requires
                    yoe == 4 * (yoe / 4) + yoe % 4,
                    0 <= yoe % 4 < 4,
                    yoe == 100 * (yoe / 100) + yoe % 100,
                    0 <= yoe % 100 < 100,
                    0 <= yoe,
            ;
        }
    }
}

/// Inside one era, the same day of era belongs to the same year of era,
/// because a valid date never reaches the next year's first day.
proof fn proof_same_year_of_era(d1: int, m1: int, y1: int, d2: int, m2: int, y2: int)
    requires
        valid_date(d1, m1, y1),
        valid_date(d2, m2, y2),
        sh_year(m1, y1) / 400 == sh_year(m2, y2) / 400,
        ({
            let yoe1 = sh_year(m1, y1) - sh_year(m1, y1) / 400 * 400;
            let yoe2 = sh_year(m2, y2) - sh_year(m2, y2) / 400 * 400;
            year_start(yoe1) + day_of_year(d1, m1) == year_start(yoe2) + day_of_year(d2, m2)
        }),
    ensures
        ({
            let yoe1 = sh_year(m1, y1) - sh_year(m1, y1) / 400 * 400;
            let yoe2 = sh_year(m2, y2) - sh_year(m2, y2) / 400 * 400;
            yoe1 == yoe2
        }),
{
    let yoe1 = sh_year(m1, y1) - sh_year(m1, y1) / 400 * 400;
    let yoe2 = sh_year(m2, y2) - sh_year(m2, y2) / 400 * 400;
    proof_civil_decomposition(d1, m1, y1);
    proof_civil_decomposition(d2, m2, y2);
    if yoe1 < yoe2 {
        proof_within_year(d1, m1, y1, yoe2);
        assert(false);
    }
    if yoe2 < yoe1 {
        proof_within_year(d2, m2, y2, yoe1);
        assert(false);
    }
}

/// A valid date's day of era stays short of the start of any strictly
/// later year of the era.
proof fn proof_within_year(d: int, m: int, y: int, later: int)
    requires
        valid_date(d, m, y),
        ({
            let yy = sh_year(m, y);
            let yoe = yy - yy / 400 * 400;
            yoe < later < 400
        }),
    ensures
        ({
            let yy = sh_year(m, y);
            let yoe = yy - yy / 400 * 400;
            year_start(yoe) + day_of_year(d, m) < year_start(later)
        }),
{
    let yy = sh_year(m, y);
    let era = yy / 400;
    let yoe = yy - era * 400;
    vstd::arithmetic::div_mod::lemma_fundamental_div_mod(yy, 400);
    vstd::arithmetic::div_mod::lemma_mod_division_less_than_divisor(yy, 400);
    lemma_month_window(d, m, y);
    lemma_year_start_gap(yoe);
    lemma_year_start_monotone(yoe + 1, later);
    let doy = day_of_year(d, m);
    if doy <= 364 {
        assert(year_start(yoe) + doy < year_start(yoe + 1));
    } else {
        // The 366th day exists only on the 29th of February of a leap
        // year, and then the year-of-era boundary also spans 366 days.
        assert(m == 2 && d == 29);
        assert(is_leap_year(y));
        assert(yy == y - 1);
        // The divisibility of the year carries over to its year of era.
        vstd::arithmetic::div_mod::lemma_fundamental_div_mod(yoe + 1, 4);
        vstd::arithmetic::div_mod::lemma_mod_division_less_than_divisor(yoe + 1, 4);
        assert(y == 4 * (100 * era + (yoe + 1) / 4) + (yoe + 1) % 4) by (nonlinear_arith)
            requires
                y == 400 * era + (yoe + 1),
                yoe + 1 == 4 * ((yoe + 1) / 4) + (yoe + 1) % 4,
        ;
        vstd::arithmetic::div_mod::lemma_fundamental_div_mod_converse(
            y,
            4,
            100 * era + (yoe + 1) / 4,
            (yoe + 1) % 4,
        );
        vstd::arithmetic::div_mod::lemma_fundamental_div_mod(yoe + 1, 100);
        vstd::arithmetic::div_mod::lemma_mod_division_less_than_divisor(yoe + 1, 100);
        assert(y == 100 * (4 * era + (yoe + 1) / 100) + (yoe + 1) % 100) by (nonlinear_arith)
            requires
                y == 400 * era + (yoe + 1),
                yoe + 1 == 100 * ((yoe + 1) / 100) + (yoe + 1) % 100,
        ;
        vstd::arithmetic::div_mod::lemma_fundamental_div_mod_converse(
            y,
            100,
            4 * era + (yoe + 1) / 100,
            (yoe + 1) % 100,
        );
        if (yoe + 1) % 100 == 0 {
            // A century year inside the era is not a leap year; the one
            // exception, the 400-multiple, closes the era and lies beyond
            // every strictly later year of this era.
            vstd::arithmetic::div_mod::lemma_fundamental_div_mod(yoe + 1, 400);
            vstd::arithmetic::div_mod::lemma_mod_division_less_than_divisor(yoe + 1, 400);
            assert(y == 400 * (era + (yoe + 1) / 400) + (yoe + 1) % 400) by (nonlinear_arith)
                requires
                    y == 400 * era + (yoe + 1),
                    yoe + 1 == 400 * ((yoe + 1) / 400) + (yoe + 1) % 400,
            ;
            vstd::arithmetic::div_mod::lemma_fundamental_div_mod_converse(
                y,
                400,
                era + (yoe + 1) / 400,
                (yoe + 1) % 400,
            );
            assert(false);
        } else {
            assert(year_start(yoe + 1) == year_start(yoe) + 366);
        }
    }
}

} // verus!

