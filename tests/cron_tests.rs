use pg_calendar::calendar::Calendar;
use pg_calendar::cron::{Cron, CronError, CronField};

fn at(hour: u8, weekday: u8) -> Calendar {
    Calendar::new(true, hour, weekday, 5, "2000-01-01").unwrap()
}

#[test]
fn wildcard_expands_to_field_range() {
    let c = Cron::new("* * * *").unwrap();
    assert_eq!(c.hours, Some((0..=23).collect::<Vec<u8>>()));
    assert_eq!(c.days_month, Some((1..=30).collect::<Vec<u8>>()));
    assert_eq!(c.months, Some((1..=12).collect::<Vec<u8>>()));
    assert_eq!(c.days_week, Some((1..=7).collect::<Vec<u8>>()));
    assert_eq!(c.formula, "* * * *");
}

#[test]
fn range_and_list_and_value() {
    let c = Cron::new("9-11 1;3;5 7 5;1;5").unwrap();
    assert_eq!(c.hours, Some(vec![9, 10, 11]));
    assert_eq!(c.days_month, Some(vec![1, 3, 5]));
    assert_eq!(c.months, Some(vec![7]));
    assert_eq!(c.days_week, Some(vec![5, 1, 5]));
}

#[test]
fn single_value_range() {
    let c = Cron::new("4-4 * * *").unwrap();
    assert_eq!(c.hours, Some(vec![4]));
}

#[test]
fn three_fields_are_malformed() {
    assert_eq!(Cron::new("9-17 * *"), Err(CronError::MalformedExpression));
    assert_eq!(Cron::new(""), Err(CronError::MalformedExpression));
}

#[test]
fn invalid_tokens_name_field_and_text() {
    assert_eq!(
        Cron::new("x * * *"),
        Err(CronError::InvalidToken { field: CronField::Hour, text: "x".to_string() })
    );
    assert_eq!(
        Cron::new("* 5-2 * *"),
        Err(CronError::InvalidToken { field: CronField::DayOfMonth, text: "5-2".to_string() })
    );
    assert_eq!(
        Cron::new("* * 1;;2 *"),
        Err(CronError::InvalidToken { field: CronField::Month, text: "1;;2".to_string() })
    );
    assert_eq!(
        Cron::new("* * * 256"),
        Err(CronError::InvalidToken { field: CronField::DayOfWeek, text: "256".to_string() })
    );
    assert_eq!(
        Cron::new("* * * 1 2"),
        Err(CronError::InvalidToken { field: CronField::DayOfWeek, text: "1 2".to_string() })
    );
}

#[test]
fn range_takes_precedence_over_list() {
    assert_eq!(
        Cron::new("1-3;5 * * *"),
        Err(CronError::InvalidToken { field: CronField::Hour, text: "1-3;5".to_string() })
    );
}

#[test]
fn largest_value_is_accepted() {
    let c = Cron::new("255 * * *").unwrap();
    assert_eq!(c.hours, Some(vec![255]));
}

#[test]
fn office_hours_match() {
    let c = Cron::new("9-17 * * 1;2;3;4;5").unwrap();
    assert_eq!(c.is_time(&at(9, 3)), Ok(true));
    assert_eq!(c.is_time(&at(8, 3)), Ok(false));
    assert_eq!(c.is_time(&at(9, 6)), Ok(false));
    assert_eq!(c.is_time(&at(17, 5)), Ok(true));
}

#[test]
fn month_fields_are_not_consulted() {
    let c = Cron::new("* 31 13 *").unwrap();
    assert_eq!(c.is_time(&at(0, 1)), Ok(true));
}

#[test]
fn matching_unparsed_schedule_fails() {
    let c = Cron { formula: "* * * *".to_string(), hours: None, days_month: None, months: None, days_week: None };
    assert_eq!(c.is_time(&at(9, 3)), Err(CronError::UnparsedExpression));
}

#[test]
fn parse_fills_values_and_keeps_them_on_error() {
    let mut c = Cron { formula: "1 2 3 4".to_string(), hours: None, days_month: None, months: None, days_week: None };
    assert_eq!(c.parse(), Ok(()));
    assert_eq!(c.hours, Some(vec![1]));
    assert_eq!(c.days_week, Some(vec![4]));
    c.formula = "1 2".to_string();
    assert_eq!(c.parse(), Err(CronError::MalformedExpression));
    assert_eq!(c.hours, Some(vec![1]));
}
