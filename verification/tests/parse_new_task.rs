use accordion_task::parse_new_task::{
    parse_duration, parse_new_task, parse_task, ParseDurationError, DEFAULT_DURATION_SECS,
};
use accordion_task::task::CompletionStatus;
use accordion_task::time::Duration;

fn from_secs(secs: u64) -> Duration {
    Duration::new(secs, 0)
}

#[test]
fn parse_task_with_duration() {
    let input = "wash clothes 5m30s";

    let task = parse_new_task(input);

    assert_eq!(task.name, "wash clothes");
    assert_eq!(task.original_duration, from_secs(5 * 60 + 30));
}

#[test]
fn no_duration() {
    let input = "shower";

    let task = parse_new_task(input);

    assert_eq!(task.name, "shower");
}

#[test]
fn default_time() {
    let input = "shower";

    let task = parse_new_task(input);

    assert_eq!(task.original_duration, from_secs(5 * 60));
}

#[test]
fn no_duration_with_space() {
    let input = "wash clothes";

    let task = parse_new_task(input);

    assert_eq!(task.name, "wash clothes");
}

#[test]
fn no_hms_task() {
    let input = "dishes away";

    let task = parse_new_task(input);

    assert_eq!(task.name, "dishes away");
}

#[test]
fn no_hms_duration() {
    assert!(parse_duration("away").is_err());
}

#[test]
fn durations_in_every_unit() {
    assert_eq!(parse_duration("15m"), Ok(900));
    assert_eq!(parse_duration("1h"), Ok(3600));
    assert_eq!(parse_duration("45s"), Ok(45));
    assert_eq!(parse_duration("1h30m"), Ok(5400));
    assert_eq!(parse_duration("2h3m4s"), Ok(7384));
    assert_eq!(parse_duration("0s"), Ok(0));
    assert_eq!(parse_duration("007m"), Ok(420));
}

#[test]
fn blanks_are_skipped_and_the_tail_is_ignored() {
    assert_eq!(parse_duration("1h 30m"), Ok(5400));
    assert_eq!(parse_duration(" 1 0 m "), Ok(600));
    assert_eq!(parse_duration("5m30"), Ok(300));
    assert_eq!(parse_duration("5mx"), Ok(300));
}

#[test]
fn later_number_replaces_earlier_one() {
    assert_eq!(parse_duration("1h2h"), Ok(7200));
    assert_eq!(parse_duration("30s1m5s"), Ok(65));
}

#[test]
fn plus_sign_may_precede_a_number() {
    assert_eq!(parse_duration("+5m"), Ok(300));
    assert_eq!(parse_duration("+m"), Err(ParseDurationError::InvalidDigit));
    assert_eq!(parse_duration("++5m"), Err(ParseDurationError::InvalidDigit));
    assert_eq!(parse_duration("5+m"), Err(ParseDurationError::InvalidDigit));
}

#[test]
fn duration_errors() {
    assert_eq!(parse_duration(""), Err(ParseDurationError::Empty));
    assert_eq!(parse_duration("15"), Err(ParseDurationError::Empty));
    assert_eq!(parse_duration("away"), Err(ParseDurationError::Empty));
    assert_eq!(parse_duration("soon"), Err(ParseDurationError::Empty));
    assert_eq!(parse_duration("tomorrow"), Err(ParseDurationError::InvalidDigit));
    assert_eq!(parse_duration("m"), Err(ParseDurationError::Empty));
    assert_eq!(parse_duration("5mm"), Err(ParseDurationError::Empty));
    assert_eq!(parse_duration("1.5h"), Err(ParseDurationError::InvalidDigit));
    assert_eq!(parse_duration("-5m"), Err(ParseDurationError::InvalidDigit));
    assert_eq!(parse_duration("x1m"), Err(ParseDurationError::InvalidDigit));
    assert_eq!(parse_duration("１m"), Err(ParseDurationError::InvalidDigit));
}

#[test]
fn duration_overflow() {
    assert_eq!(parse_duration("18446744073709551615s"), Ok(u64::MAX));
    assert_eq!(parse_duration("18446744073709551616s"), Err(ParseDurationError::PosOverflow));
    assert_eq!(parse_duration("99999999999999999999x9s"), Err(ParseDurationError::PosOverflow));
    assert_eq!(parse_duration("9x9999999999999999999999s"), Err(ParseDurationError::InvalidDigit));
    assert_eq!(parse_duration("5124095576030432h"), Err(ParseDurationError::PosOverflow));
    assert_eq!(parse_duration("5124095576030431h"), Ok(18446744073709551600));
    assert_eq!(parse_duration("5124095576030431h15s"), Ok(u64::MAX));
    assert_eq!(parse_duration("5124095576030431h16s"), Err(ParseDurationError::PosOverflow));
    assert_eq!(parse_duration("18446744073709551615s1m"), Err(ParseDurationError::PosOverflow));
}

#[test]
fn new_task_edges() {
    let task = parse_new_task("shower 15m");
    assert_eq!(task.name, "shower");
    assert_eq!(task.original_duration, from_secs(900));
    assert_eq!(task.duration, from_secs(900));
    assert_eq!(task.elapsed, Duration::zero());
    assert_eq!(task.status, CompletionStatus::NotYet);

    let task = parse_new_task("");
    assert_eq!(task.name, "");
    assert_eq!(task.original_duration, from_secs(DEFAULT_DURATION_SECS));

    let task = parse_new_task("shower ");
    assert_eq!(task.name, "shower ");
    assert_eq!(task.original_duration, from_secs(300));

    let task = parse_new_task(" 5m");
    assert_eq!(task.name, "");
    assert_eq!(task.original_duration, from_secs(300));

    let task = parse_new_task("5m");
    assert_eq!(task.name, "5m");
    assert_eq!(task.original_duration, from_secs(300));

    let task = parse_new_task("read  1h");
    assert_eq!(task.name, "read ");
    assert_eq!(task.original_duration, from_secs(3600));

    let task = parse_new_task("caf\u{e9} cr\u{e8}me 2m");
    assert_eq!(task.name, "caf\u{e9} cr\u{e8}me");
    assert_eq!(task.original_duration, from_secs(120));
}

#[test]
fn new_task_with_a_duration_too_long_to_hold() {
    let task = parse_new_task("sleep 18446744073s");
    assert_eq!(task.name, "sleep");
    assert_eq!(task.original_duration, Duration::from_nanos(18_446_744_073_000_000_000));

    let task = parse_new_task("sleep 18446744074s");
    assert_eq!(task.name, "sleep 18446744074s");
    assert_eq!(task.original_duration, from_secs(300));
}

#[test]
fn task_from_two_fields() {
    let task = parse_task("brush teeth", "2m30s").unwrap();
    assert_eq!(task.name, "brush teeth");
    assert_eq!(task.original_duration, from_secs(150));
    assert_eq!(task.duration, from_secs(150));
    assert_eq!(task.status, CompletionStatus::NotYet);
    assert_eq!(parse_task("a", "tomorrow").err(), Some(ParseDurationError::InvalidDigit));
    assert_eq!(parse_task("a", "").err(), Some(ParseDurationError::Empty));
    assert_eq!(parse_task("a", "18446744074s").err(), Some(ParseDurationError::PosOverflow));
}
