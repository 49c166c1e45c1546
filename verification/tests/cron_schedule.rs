use raven::cron::{CronField, Schedule};

#[test]
fn test_parse_wildcard() {
    let sched = Schedule::parse("* * * * *").unwrap();
    assert!(matches!(sched.minute, CronField::Wildcard));
    assert!(matches!(sched.hour, CronField::Wildcard));
    assert!(matches!(sched.day_of_month, CronField::Wildcard));
    assert!(matches!(sched.month, CronField::Wildcard));
    assert!(matches!(sched.day_of_week, CronField::Wildcard));
}

#[test]
fn test_parse_specific_minute() {
    let sched = Schedule::parse("30 * * * *").unwrap();
    assert!(matches!(sched.minute, CronField::Value(30)));
    assert!(matches!(sched.hour, CronField::Wildcard));
}

#[test]
fn test_parse_step() {
    let sched = Schedule::parse("*/5 * * * *").unwrap();
    assert!(matches!(sched.minute, CronField::Step(0, 5)));
}

#[test]
fn test_parse_list() {
    let sched = Schedule::parse("0 9,18 * * 1-5").unwrap();
    assert!(matches!(sched.hour, CronField::List(_)));
    assert!(matches!(sched.day_of_week, CronField::Range(1, 5)));
}

#[test]
fn test_parse_invalid_expression() {
    assert!(Schedule::parse("invalid").is_err());
    assert!(Schedule::parse("* * * * * *").is_err()); // 6 fields
    assert!(Schedule::parse("60 * * * *").is_err()); // minute out of range
}

// 2025-01-06T09:30:00Z is a Monday.
const MONDAY_0930: i64 = 1736155800;

#[test]
fn test_schedule_matches() {
    let sched = Schedule::parse("30 9 * * 1-5").unwrap();
    // Monday 9:30 AM
    assert!(sched.matches(MONDAY_0930));
    // Monday 9:31 AM (wrong minute)
    assert!(!sched.matches(MONDAY_0930 + 60));
    // Saturday 9:30 AM (wrong day)
    assert!(!sched.matches(MONDAY_0930 + 5 * 86400));
}

#[test]
fn parse_error_messages_name_the_field() {
    assert_eq!(
        Schedule::parse("* *").unwrap_err(),
        "Invalid cron expression '* *': expected 5 fields, got 2"
    );
    assert_eq!(
        Schedule::parse("60 * * * *").unwrap_err(),
        "Value 60 out of range [0, 59] in field '60'"
    );
    assert_eq!(
        Schedule::parse("*/0 * * * *").unwrap_err(),
        "Step must be positive in field '*/0'"
    );
    assert_eq!(
        Schedule::parse("*/x * * * *").unwrap_err(),
        "Invalid step value 'x' in field '*/x'"
    );
    assert_eq!(
        Schedule::parse("a-5 * * * *").unwrap_err(),
        "Invalid range start 'a' in field 'a-5'"
    );
    assert_eq!(
        Schedule::parse("1-b * * * *").unwrap_err(),
        "Invalid range end 'b' in field '1-b'"
    );
    assert_eq!(
        Schedule::parse("1,x * * * *").unwrap_err(),
        "Invalid list value in field '1,x'"
    );
    assert_eq!(
        Schedule::parse("1,99 * * * *").unwrap_err(),
        "Value 99 out of range [0, 59] in field '1,99'"
    );
    assert_eq!(
        Schedule::parse("abc * * * *").unwrap_err(),
        "Invalid value 'abc' in field 'abc'"
    );
}

#[test]
fn field_forms_parse_as_documented() {
    // `1-10/2` is the range 1..=10 stepped by 2.
    let f = CronField::parse("1-10/2", 0, 59).unwrap();
    assert!(matches!(f, CronField::StepRange(1, 10, 2)));
    assert!(f.matches(1) && f.matches(9));
    assert!(!f.matches(2) && !f.matches(11) && !f.matches(59));
    assert!(matches!(CronField::parse("7/3", 0, 59), Ok(CronField::Step(7, 3))));
    assert!(matches!(CronField::parse(" 5 ", 0, 59), Ok(CronField::Value(5))));
    match CronField::parse("1, 3,5", 0, 59) {
        Ok(CronField::List(v)) => assert_eq!(v, vec![1, 3, 5]),
        other => panic!("unexpected {:?}", other),
    }
    // Every number must lie within the field's range.
    assert_eq!(
        CronField::parse("50-70", 0, 59).unwrap_err(),
        "Value 70 out of range [0, 59] in field '50-70'"
    );
    assert!(Schedule::parse("0-60 * * * *").is_err());
    assert!(Schedule::parse("70/5 * * * *").is_err());
    assert!(Schedule::parse("* * 0-31 * *").is_err());
    assert!(Schedule::parse("* * * * 1-7/2").is_err());
    assert!(Schedule::parse("0-59/15 0-23 1-31 1-12 0-6").is_ok());
}

#[test]
fn field_matching() {
    assert!(CronField::Wildcard.matches(17));
    assert!(CronField::Value(3).matches(3));
    assert!(!CronField::Value(3).matches(4));
    assert!(CronField::List(vec![1, 3, 5]).matches(5));
    assert!(!CronField::List(vec![1, 3, 5]).matches(2));
    assert!(CronField::Range(1, 5).matches(1));
    assert!(!CronField::Range(1, 5).matches(6));
    assert!(CronField::Step(0, 5).matches(15));
    assert!(!CronField::Step(0, 5).matches(16));
    assert!(!CronField::Step(10, 5).matches(5));
    assert_eq!(CronField::Value(9).field_value(), Some(9));
    assert_eq!(CronField::Wildcard.field_value(), None);
}

#[test]
fn next_occurrence_finds_the_next_matching_minute() {
    let sched = Schedule::parse("30 9 * * 1-5").unwrap();
    // One second after Monday 9:30 the next slot is Tuesday 9:30.
    assert_eq!(sched.next_occurrence(MONDAY_0930 + 1), Some(MONDAY_0930 + 86400));
    let every = Schedule::parse("* * * * *").unwrap();
    assert_eq!(every.next_occurrence(MONDAY_0930 + 17), Some(MONDAY_0930 + 60));
    // February 30th never comes.
    let never = Schedule::parse("0 0 30 2 *").unwrap();
    assert_eq!(never.next_occurrence(MONDAY_0930), None);
}
