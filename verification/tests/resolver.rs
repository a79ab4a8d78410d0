use msd::crossover::resolve_window_params;
use msd::dates::day_from_ymd;
use msd::errors::MsdError;
use msd::models::{parse_params, DateTimeParams, DateTimeWindowParams};

fn params(start: Option<&str>, end: Option<&str>, duration: Option<i32>) -> DateTimeParams {
    DateTimeParams {
        start: start.map(|s| s.to_string()),
        end: end.map(|s| s.to_string()),
        duration,
    }
}

const TODAY: i64 = 739300;

#[test]
fn start_and_end_derive_the_duration() {
    let p = parse_params(params(Some("2024-01-01"), Some("2024-01-11"), None), TODAY).unwrap();
    assert_eq!(p.start, day_from_ymd(2024, 1, 1));
    assert_eq!(p.end, day_from_ymd(2024, 1, 11));
    assert_eq!(p.duration, 10);
    assert_eq!(p.end - p.start, p.duration);
}

#[test]
fn matching_explicit_duration_is_accepted() {
    let p = parse_params(params(Some("2024-01-01"), Some("2024-01-11"), Some(10)), TODAY).unwrap();
    assert_eq!(p.duration, 10);
    assert_eq!(p.end - p.start, p.duration);
}

#[test]
fn mismatched_duration_is_a_parameter_conflict() {
    let r = parse_params(params(Some("2024-01-01"), Some("2024-01-11"), Some(5)), TODAY);
    assert_eq!(r, Err(MsdError::ParameterConflict));
}

#[test]
fn reversed_dates_are_a_parameter_conflict() {
    let r = parse_params(params(Some("2024-01-11"), Some("2024-01-01"), None), TODAY);
    assert_eq!(r, Err(MsdError::ParameterConflict));
}

#[test]
fn start_and_duration_derive_the_end() {
    let p = parse_params(params(Some("2024-01-01"), None, Some(5)), TODAY).unwrap();
    assert_eq!(p.start, day_from_ymd(2024, 1, 1));
    assert_eq!(p.end, day_from_ymd(2024, 1, 6));
    assert_eq!(p.duration, 5);
}

#[test]
fn start_alone_uses_the_default_duration() {
    let p = parse_params(params(Some("2024-01-01"), None, None), TODAY).unwrap();
    assert_eq!(p.end, day_from_ymd(2024, 1, 11));
    assert_eq!(p.duration, 10);
}

#[test]
fn end_and_duration_derive_the_start() {
    let p = parse_params(params(None, Some("2024-01-11"), Some(10)), TODAY).unwrap();
    assert_eq!(p.start, day_from_ymd(2024, 1, 1));
    assert_eq!(p.end, day_from_ymd(2024, 1, 11));
}

#[test]
fn end_alone_uses_the_default_duration() {
    let p = parse_params(params(None, Some("2024-01-11"), None), TODAY).unwrap();
    assert_eq!(p.start, day_from_ymd(2024, 1, 1));
    assert_eq!(p.duration, 10);
}

#[test]
fn duration_alone_counts_back_from_today() {
    let p = parse_params(params(None, None, Some(7)), TODAY).unwrap();
    assert_eq!(p.end, TODAY);
    assert_eq!(p.start, TODAY - 7);
}

#[test]
fn nothing_given_uses_today_and_the_default() {
    let p = parse_params(params(None, None, None), TODAY).unwrap();
    assert_eq!(p.end, TODAY);
    assert_eq!(p.start, TODAY - 10);
    assert_eq!(p.duration, 10);
}

#[test]
fn negative_durations_are_a_parameter_conflict() {
    let r = parse_params(params(Some("2024-01-01"), None, Some(-3)), TODAY);
    assert_eq!(r, Err(MsdError::ParameterConflict));
    let r2 = parse_params(params(None, None, Some(-1)), TODAY);
    assert_eq!(r2, Err(MsdError::ParameterConflict));
}

#[test]
fn unparseable_dates_are_invalid() {
    let r = parse_params(params(Some("soon"), Some("2024-01-11"), None), TODAY);
    assert_eq!(r, Err(MsdError::InvalidDate));
    let r2 = parse_params(params(None, Some("later"), Some(3)), TODAY);
    assert_eq!(r2, Err(MsdError::InvalidDate));
}

#[test]
fn window_params_fall_back_to_defaults() {
    let dtwp = DateTimeWindowParams {
        start: Some("2024-01-01".to_string()),
        end: Some("2024-01-11".to_string()),
        duration: None,
        small: None,
        large: None,
    };
    let (p, sw, lw) = resolve_window_params(dtwp, TODAY).unwrap();
    assert_eq!(p.duration, 10);
    assert_eq!(sw, 7);
    assert_eq!(lw, 21);
}

#[test]
fn window_params_keep_explicit_windows() {
    let dtwp = DateTimeWindowParams {
        start: Some("2024-01-01".to_string()),
        end: None,
        duration: Some(5),
        small: Some(2),
        large: Some(4),
    };
    let (p, sw, lw) = resolve_window_params(dtwp, TODAY).unwrap();
    assert_eq!(p.duration, 5);
    assert_eq!(sw, 2);
    assert_eq!(lw, 4);
}
