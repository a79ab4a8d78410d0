use msd::dates::{day_from_ymd, epoch, now, parse_date, today, DAY_UNIX_EPOCH};
use msd::errors::MsdError;

#[test]
fn epoch_is_the_unix_epoch_day() {
    assert_eq!(epoch(), 719468);
    assert_eq!(epoch(), DAY_UNIX_EPOCH);
    assert_eq!(day_from_ymd(1970, 1, 1), 719468);
}

#[test]
fn day_numbers_agree_with_chrono() {
    let samples = [
        (1970, 1, 1),
        (2000, 2, 29),
        (2015, 5, 4),
        (2023, 12, 31),
        (2024, 1, 1),
        (2024, 1, 11),
        (2024, 2, 29),
        (1999, 3, 1),
        (1, 1, 1),
        (9999, 12, 31),
    ];
    for (y, m, d) in samples {
        let expected: i64 = chrono::NaiveDate::from_ymd_opt(y as i32, m as u32, d as u32)
            .unwrap()
            .signed_duration_since(chrono::NaiveDate::from_ymd_opt(1970, 1, 1).unwrap())
            .num_days();
        assert_eq!(day_from_ymd(y, m, d) - DAY_UNIX_EPOCH, expected, "{y}-{m}-{d}");
    }
}

#[test]
fn parse_date_accepts_plain_dates() {
    assert_eq!(parse_date("2024-01-01"), Ok(day_from_ymd(2024, 1, 1)));
    assert_eq!(parse_date("2024-1-1"), Ok(day_from_ymd(2024, 1, 1)));
    assert_eq!(parse_date("2015-05-04 00:00:00"), Ok(day_from_ymd(2015, 5, 4)));
    assert_eq!(parse_date("1970-01-01"), Ok(719468));
}

#[test]
fn parse_date_accepts_leap_days_only_in_leap_years() {
    assert_eq!(parse_date("2024-02-29"), Ok(day_from_ymd(2024, 2, 29)));
    assert_eq!(parse_date("2023-02-29"), Err(MsdError::InvalidDate));
    assert_eq!(parse_date("1900-02-29"), Err(MsdError::InvalidDate));
    assert_eq!(parse_date("2000-02-29"), Ok(day_from_ymd(2000, 2, 29)));
}

#[test]
fn parse_date_rejects_malformed_strings() {
    assert_eq!(parse_date(""), Err(MsdError::InvalidDate));
    assert_eq!(parse_date("not a date"), Err(MsdError::InvalidDate));
    assert_eq!(parse_date("2024"), Err(MsdError::InvalidDate));
    assert_eq!(parse_date("2024-01"), Err(MsdError::InvalidDate));
    assert_eq!(parse_date("2024-13-01"), Err(MsdError::InvalidDate));
    assert_eq!(parse_date("2024-00-10"), Err(MsdError::InvalidDate));
    assert_eq!(parse_date("2024-01-32"), Err(MsdError::InvalidDate));
    assert_eq!(parse_date("0-01-01"), Err(MsdError::InvalidDate));
    assert_eq!(parse_date("10000-01-01"), Err(MsdError::InvalidDate));
    assert_eq!(parse_date("2024-01-01x"), Err(MsdError::InvalidDate));
    assert_eq!(parse_date("20240101"), Err(MsdError::InvalidDate));
    assert_eq!(parse_date("2024--01-01"), Err(MsdError::InvalidDate));
}

#[test]
fn clock_is_after_the_epoch() {
    assert!(now() >= 0);
    let t: i64 = today();
    assert!(t >= DAY_UNIX_EPOCH);
    let chrono_today: i64 = chrono::Utc::now().timestamp() / 86400 + DAY_UNIX_EPOCH;
    assert!((t - chrono_today).abs() <= 1);
}
