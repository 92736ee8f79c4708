use kondo::content_parser::parse_date;
use kondo::content_parser::parse_date_tag;
use kondo::content_parser::parse_digits;
use kondo::content_parser::parse_task;
use kondo::content_parser::parse_year;
use kondo::date::Date;
use kondo::task::Task;

#[test]
fn simple_num_test() {
    let input = "2025asjkhk";
    let res = parse_digits(input, 0);
    assert_eq!(res.unwrap().0, "2025")
}

#[test]
fn simple_year_test() {
    let input = "2034";
    let res = parse_year(input, 0);
    assert_eq!(res.unwrap().0, 2034)
}

#[test]
fn simple_date_test() {
    let input = "2025-03-01";
    let res = parse_date(input, 0);
    assert_eq!(res.unwrap().0, Date::new(2025, 3, 1).unwrap());
}

#[test]
fn simple_parse_test() {
    let input = "\n\n            [2025-03-31]\n            This is a test task.\n            ";

    let task = Task::new(None, Date::new(2025, 3, 31).unwrap(), "This is a test task.");

    let res = parse_task(input);
    assert_eq!(res.unwrap(), task)
}

#[test]
fn whitespace_around_buffer_is_stripped() {
    let res = parse_task("   \n  [2025-03-31]\nThis is a test task.\n   ").unwrap();
    assert_eq!(res.deadline, Date::new(2025, 3, 31).unwrap());
    assert_eq!(res.content, "This is a test task.");
}

#[test]
fn content_directly_after_tag() {
    let res = parse_task("[2025-03-01]hello").unwrap();
    assert_eq!(res.deadline, Date::new(2025, 3, 1).unwrap());
    assert_eq!(res.content, "hello");
    assert_eq!(res.id, 0);
    assert_eq!(res.category, None);
    assert!(!res.done);
}

#[test]
fn blank_lines_inside_content_are_preserved() {
    let res = parse_task("[2025/03/01]\nline1\n\nline3").unwrap();
    assert_eq!(res.deadline, Date::new(2025, 3, 1).unwrap());
    assert_eq!(res.content, "line1\n\nline3");
}

#[test]
fn no_tag_fails() {
    assert!(parse_task("no tag here").is_err());
}

#[test]
fn empty_content_is_valid() {
    let res = parse_task("[2025-03-01]").unwrap();
    assert_eq!(res.deadline, Date::new(2025, 3, 1).unwrap());
    assert_eq!(res.content, "");
}

#[test]
fn mixed_separators_are_accepted() {
    let res = parse_task("[2025-03/01]x").unwrap();
    assert_eq!(res.deadline, Date::new(2025, 3, 1).unwrap());
    assert_eq!(res.content, "x");
    let res = parse_task("[2025/03-01]x").unwrap();
    assert_eq!(res.deadline, Date::new(2025, 3, 1).unwrap());
}

#[test]
fn short_month_fails() {
    assert!(parse_task("[2025-3-01]").is_err());
}

#[test]
fn short_day_fails() {
    assert!(parse_task("[2025-03-1]x").is_err());
}

#[test]
fn short_year_fails() {
    assert!(parse_task("[202-03-01]").is_err());
}

#[test]
fn overlong_digit_runs_fail() {
    assert!(parse_task("[20251-03-01]").is_err());
    assert!(parse_task("[2025-031-01]").is_err());
    assert!(parse_task("[2025-03-011]").is_err());
}

#[test]
fn invalid_calendar_dates_fail() {
    assert!(parse_task("[2025-02-30]").is_err());
    assert!(parse_task("[2025-13-01]").is_err());
    assert!(parse_task("[2025-00-10]").is_err());
    assert!(parse_task("[2025-04-31]").is_err());
    assert!(parse_task("[2025-01-00]").is_err());
}

#[test]
fn leap_years_are_respected() {
    assert!(parse_task("[2024-02-29]").is_ok());
    assert!(parse_task("[2000-02-29]").is_ok());
    assert!(parse_task("[2023-02-29]").is_err());
    assert!(parse_task("[1900-02-29]").is_err());
}

#[test]
fn missing_brackets_fail() {
    assert!(parse_task("2025-03-01]hello").is_err());
    assert!(parse_task("[2025-03-01hello").is_err());
    assert!(parse_task("[2025-03-01").is_err());
    assert!(parse_task("").is_err());
    assert!(parse_task("   \n ").is_err());
}

#[test]
fn bad_separator_fails() {
    assert!(parse_task("[2025.03.01]").is_err());
    assert!(parse_task("[2025-03.01]").is_err());
}

#[test]
fn tag_must_follow_leading_whitespace_directly() {
    assert!(parse_task("x [2025-03-01]hello").is_err());
}

#[test]
fn date_tag_helper_reports_position() {
    let (date, end) = parse_date_tag("  [2025-12-05]rest", 2).unwrap();
    assert_eq!(date, Date::new(2025, 12, 5).unwrap());
    assert_eq!(end, 14);
}

#[test]
fn digit_run_is_greedy() {
    let (run, end) = parse_digits("007x8", 0).unwrap();
    assert_eq!(run, "007");
    assert_eq!(end, 3);
    assert!(parse_digits("x8", 0).is_err());
}
