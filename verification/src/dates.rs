//! Calendar dates as day numbers.
//!
//! A date is a day number in the proleptic Gregorian calendar, counted from
//! March 1 of year 0, so that every representable calendar date (years 1
//! through 9999) has a positive day number and day arithmetic is plain
//! integer arithmetic. `DAY_UNIX_EPOCH` is the day number of 1970-01-01.
//!
//! Date strings are parsed as `year-month-day`, where the fields are decimal
//! digit runs separated by `-`, space or `:`; anything after the day field's
//! terminating separator (such as a time of day) is ignored.

use vstd::prelude::*;
use vstd::string::StringSliceAdditionalSpecFns;

use crate::errors::MsdError;

verus! {

/// Day number of 1970-01-01.
pub const DAY_UNIX_EPOCH: i64 = 719468;

/// Strict upper bound on the day number of any valid calendar date
/// (9999-12-31 is day 3652364).
pub const DAY_LIMIT: i64 = 3700000;

/// Strict upper bound on the day number of the current day, whatever the
/// clock says: any timestamp that fits an `i64` stays far below it.
pub const TODAY_LIMIT: i64 = 0x4000000000000;

pub open spec fn is_leap_year(y: int) -> bool {
    (y % 4 == 0 && y % 100 != 0) || y % 400 == 0
}

pub open spec fn spec_days_in_month(y: int, m: int) -> int {
    if m == 2 {
        if is_leap_year(y) {
            29
        } else {
            28
        }
    } else if m == 4 || m == 6 || m == 9 || m == 11 {
        30
    } else {
        31
    }
}

/// The calendar dates this library accepts.
pub open spec fn valid_ymd(y: int, m: int, d: int) -> bool {
    &&& 1 <= y <= 9999
    &&& 1 <= m <= 12
    &&& 1 <= d <= spec_days_in_month(y, m)
}

/// Day number of a calendar date, counted from March 1 of year 0: years are
/// shifted so a year runs March..February and the leap day is the year's last
/// day, then days are counted in 400-year eras of 146097 days each.
pub open spec fn day_of_ymd(y: int, m: int, d: int) -> int
    recommends
        valid_ymd(y, m, d),
{
    let yy = if m <= 2 {
        y - 1
    } else {
        y
    };
    let era = yy / 400;
    let yoe = yy - era * 400;
    let mp = (m + 9) % 12;
    let doy = (153 * mp + 2) / 5 + d - 1;
    let doe = yoe * 365 + yoe / 4 - yoe / 100 + doy;
    era * 146097 + doe
}

fn days_in_month(y: i64, m: i64) -> (r: i64)
    requires
        1 <= y <= 9999,
        1 <= m <= 12,
    ensures
        r == spec_days_in_month(y as int, m as int),
{
    if m == 2 {
        if (y % 4 == 0 && y % 100 != 0) || y % 400 == 0 {
            29
        } else {
            28
        }
    } else if m == 4 || m == 6 || m == 9 || m == 11 {
        30
    } else {
        31
    }
}

/// Day number of a valid calendar date.
pub fn day_from_ymd(y: i64, m: i64, d: i64) -> (r: i64)
    requires
        valid_ymd(y as int, m as int, d as int),
    ensures
        r == day_of_ymd(y as int, m as int, d as int),
        0 < r < DAY_LIMIT,
{
    let yy: i64 = if m <= 2 {
        y - 1
    } else {
        y
    };
    let era: i64 = yy / 400;
    let yoe: i64 = yy - era * 400;
    let mp: i64 = (m + 9) % 12;
    let doy: i64 = (153 * mp + 2) / 5 + d - 1;
    let doe: i64 = yoe * 365 + yoe / 4 - yoe / 100 + doy;
    proof {
        assert(0 <= era <= 24 && yoe == yy - era * 400 && 0 <= yoe <= 399) by (nonlinear_arith)
            requires
                0 <= yy <= 9999,
                era == yy / 400,
                yoe == yy - era * 400,
        ;
        assert(0 <= mp <= 11);
        assert(0 <= (153 * mp + 2) / 5 <= 337);
        assert(0 <= yoe * 365 <= 145635 && 0 <= yoe / 4 <= 99 && 0 <= yoe / 100 <= 3) by (nonlinear_arith)
            requires
                0 <= yoe <= 399,
        ;
        assert(0 <= era * 146097 <= 24 * 146097) by (nonlinear_arith)
            requires
                0 <= era <= 24,
        ;
    }
    let r: i64 = era * 146097 + doe;
    proof {
        assert(r > 0) by {
            if m <= 2 && y == 1 {
                assert(mp == 10 || mp == 11);
            }
        }
    }
    r
}

pub open spec fn is_digit(b: u8) -> bool {
    48 <= b <= 57
}

/// The separators the date grammar accepts: `-`, space, `:`.
pub open spec fn is_separator(b: u8) -> bool {
    b == 45 || b == 32 || b == 58
}

/// Index of the first byte at or after `i` that is not a decimal digit.
pub open spec fn digits_end(s: Seq<u8>, i: int) -> int
    recommends
        0 <= i <= s.len(),
    decreases s.len() - i,
    when 0 <= i <= s.len()
{
    if i == s.len() || !is_digit(s[i]) {
        i
    } else {
        digits_end(s, i + 1)
    }
}

/// Numeric value of the digit run `s[i..j]`.
pub open spec fn digits_value(s: Seq<u8>, i: int, j: int) -> int
    decreases j - i,
{
    if j <= i {
        0
    } else {
        digits_value(s, i, j - 1) * 10 + (s[j - 1] - 48)
    }
}

/// The `(year, month, day)` a byte string denotes: three nonempty digit runs,
/// the first two followed by a separator, the third by a separator or the end
/// of the string. Bytes after the third separator are ignored.
pub open spec fn parse_ymd(s: Seq<u8>) -> Option<(int, int, int)> {
    let j0 = digits_end(s, 0);
    if j0 == 0 || j0 == s.len() || !is_separator(s[j0]) {
        None
    } else {
        let i1 = j0 + 1;
        let j1 = digits_end(s, i1);
        if j1 == i1 || j1 == s.len() || !is_separator(s[j1]) {
            None
        } else {
            let i2 = j1 + 1;
            let j2 = digits_end(s, i2);
            if j2 == i2 || (j2 < s.len() && !is_separator(s[j2])) {
                None
            } else {
                Some((digits_value(s, 0, j0), digits_value(s, i1, j1), digits_value(s, i2, j2)))
            }
        }
    }
}

/// The day number a byte string denotes, if it denotes a valid calendar date.
pub open spec fn parse_day(s: Seq<u8>) -> Option<int> {
    match parse_ymd(s) {
        Option::None => Option::None,
        Option::Some((y, m, d)) => if valid_ymd(y, m, d) {
            Option::Some(day_of_ymd(y, m, d))
        } else {
            Option::None
        },
    }
}

proof fn lemma_digits_end_bounds(s: Seq<u8>, i: int)
    requires
        0 <= i <= s.len(),
    ensures
        i <= digits_end(s, i) <= s.len(),
    decreases s.len() - i,
{
    if i < s.len() && is_digit(s[i]) {
        lemma_digits_end_bounds(s, i + 1);
    }
}

/// Scan the digit run starting at `i`. Returns the run's value and its end;
/// values are capped so that anything at or above 100000 (no valid year,
/// month or day reaches it) is reported as 100000 or more.
fn scan_number(b: &[u8], i: usize) -> (r: (u64, usize))
    requires
        i <= b@.len(),
    ensures
        r.1 == digits_end(b@, i as int),
        i <= r.1 <= b@.len(),
        r.0 <= 1000000,
        digits_value(b@, i as int, r.1 as int) < 100000 ==> r.0 == digits_value(
            b@,
            i as int,
            r.1 as int,
        ),
        digits_value(b@, i as int, r.1 as int) >= 100000 ==> r.0 >= 100000,
{
    let mut j: usize = i;
    let mut val: u64 = 0;
    proof {
        lemma_digits_end_bounds(b@, i as int);
    }
    loop
        invariant
            i <= j <= b@.len(),
            digits_end(b@, j as int) == digits_end(b@, i as int),
            val <= 1000000,
            digits_value(b@, i as int, j as int) < 100000 ==> val == digits_value(
                b@,
                i as int,
                j as int,
            ),
            digits_value(b@, i as int, j as int) >= 100000 ==> val >= 100000,
        ensures
            i <= j <= b@.len(),
            digits_end(b@, j as int) == digits_end(b@, i as int),
            j == b@.len() || !is_digit(b@[j as int]),
            val <= 1000000,
            digits_value(b@, i as int, j as int) < 100000 ==> val == digits_value(
                b@,
                i as int,
                j as int,
            ),
            digits_value(b@, i as int, j as int) >= 100000 ==> val >= 100000,
        decreases b@.len() - j,
    {
        if j == b.len() {
            break ;
        }
        let c = b[j];
        if !(48 <= c && c <= 57) {
            break ;
        }
        proof {
            assert(digits_end(b@, j as int) == digits_end(b@, j + 1));
            lemma_digits_end_bounds(b@, j + 1);
            assert(digits_value(b@, i as int, j + 1) == digits_value(b@, i as int, j as int) * 10
                + (c - 48));
        }
        if val < 100000 {
            val = val * 10 + ((c - 48) as u64);
        }
        j += 1;
    }
    proof {
        assert(digits_end(b@, j as int) == j as int);
    }
    (val, j)
}

/// Parse a date string to its day number; malformed strings and invalid
/// calendar dates fail with `InvalidDate`.
pub fn parse_date(s: &str) -> (r: Result<i64, MsdError>)
    ensures
        r is Ok <==> parse_day(s.spec_bytes()) is Some,
        r is Ok ==> r->Ok_0 == parse_day(s.spec_bytes())->Some_0 && 0 < r->Ok_0 < DAY_LIMIT,
        r is Err ==> r->Err_0 == MsdError::InvalidDate,
{
    let b = s.as_bytes();
    let (y_val, j0) = scan_number(b, 0);
    if j0 == 0 || j0 == b.len() || !(b[j0] == 45 || b[j0] == 32 || b[j0] == 58) {
        return Err(MsdError::InvalidDate);
    }
    let i1 = j0 + 1;
    let (m_val, j1) = scan_number(b, i1);
    if j1 == i1 || j1 == b.len() || !(b[j1] == 45 || b[j1] == 32 || b[j1] == 58) {
        return Err(MsdError::InvalidDate);
    }
    let i2 = j1 + 1;
    let (d_val, j2) = scan_number(b, i2);
    if j2 == i2 || (j2 < b.len() && !(b[j2] == 45 || b[j2] == 32 || b[j2] == 58)) {
        return Err(MsdError::InvalidDate);
    }
    if y_val < 1 || y_val > 9999 || m_val < 1 || m_val > 12 || d_val < 1 {
        return Err(MsdError::InvalidDate);
    }
    let y = y_val as i64;
    let m = m_val as i64;
    let d = d_val as i64;
    if d > days_in_month(y, m) {
        return Err(MsdError::InvalidDate);
    }
    Ok(day_from_ymd(y, m, d))
}

/// Day number of the Unix epoch, 1970-01-01.
pub fn epoch() -> (r: i64)
    ensures
        r == day_of_ymd(1970, 1, 1),
        r == DAY_UNIX_EPOCH,
{
    proof {
        assert(day_of_ymd(1970, 1, 1) == 719468);
    }
    719468
}

/// Relies on chrono's `Utc::now` and `DateTime::timestamp`: seconds since
/// 1970-01-01T00:00:00Z. Non-negative because `Utc::now` panics rather than
/// report a clock before the Unix epoch.
#[verifier::external_body]
pub fn now() -> (r: i64)
    ensures
        r >= 0,
{
    chrono::Utc::now().timestamp()
}

/// Day number of the current UTC day, per the system clock.
pub fn today() -> (r: i64)
    ensures
        DAY_UNIX_EPOCH <= r < TODAY_LIMIT,
{
    let ts = now();
    ts / 86400 + DAY_UNIX_EPOCH
}

} // verus!
