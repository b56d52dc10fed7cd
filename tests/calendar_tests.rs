use chrono::{Datelike, NaiveDate};
use pg_calendar::calendar::{
    format_time, if_calendar_active, if_calendar_hour_length_changed, update_settings,
    update_time, Calendar, CalendarError, CalendarNewDayEvent, CalendarNewHourEvent, CalendarTick,
    PGCalendarPlugin, Weekdays,
};
use pg_calendar::date::{MAX_DAY_NUMBER, MIN_DAY_NUMBER};
use pg_calendar::timer::{CalendarTimer, NANOS_PER_SEC};

fn day_number(y: i32, m: u32, d: u32) -> i32 {
    NaiveDate::from_ymd_opt(y, m, d).unwrap().num_days_from_ce()
}

fn no_events() -> CalendarTick {
    CalendarTick { new_day: None, new_hour: None }
}

#[test]
fn format_time_examples() {
    assert_eq!(format_time(0), "0:00 AM");
    assert_eq!(format_time(13), "1:00 PM");
    assert_eq!(format_time(12), "12:00 AM");
    assert_eq!(format_time(9), "9:00 AM");
    assert_eq!(format_time(23), "11:00 PM");
    assert_eq!(format_time(24), "12:00 PM");
}

#[test]
fn plugin_defaults() {
    let p = PGCalendarPlugin::default();
    assert!(p.active);
    assert_eq!(p.hour_length, 5);
    assert_eq!(p.start_hour, 6);
    assert_eq!(p.start_weekday, 1);
    assert_eq!(p.start_date, "2000-01-01");
}

#[test]
fn weekday_names() {
    let w = Weekdays::new();
    assert_eq!(w.data.len(), 7);
    assert_eq!(w.data.get(&1).unwrap(), "Mon");
    assert_eq!(w.data.get(&3).unwrap(), "Wed");
    assert_eq!(w.data.get(&7).unwrap(), "Sun");
    assert!(w.data.get(&0).is_none());
    assert!(w.data.get(&8).is_none());
}

#[test]
fn date_parsing_follows_chrono() {
    let start = |d: &str| Calendar::new(true, 0, 1, 1, d).map(|c| c.get_currrent_date());
    assert_eq!(start("2000-01-01"), Ok(730_120));
    assert_eq!(start("1999-09-03"), Ok(730_000));
    assert_eq!(start("2000-02-30"), Err(CalendarError::MalformedDate));
    assert_eq!(start("yesterday"), Err(CalendarError::MalformedDate));
    assert_eq!(NaiveDate::MIN.num_days_from_ce(), MIN_DAY_NUMBER);
    assert_eq!(NaiveDate::MAX.num_days_from_ce(), MAX_DAY_NUMBER);
}

#[test]
fn date_stops_at_last_representable_day() {
    let mut c = Calendar::new(true, 23, 1, 1, "+262142-12-31").unwrap();
    assert_eq!(c.get_currrent_date(), MAX_DAY_NUMBER);
    let r = c.complete_hour();
    assert_eq!(r.new_day, Some(CalendarNewDayEvent { weekday: 2 }));
    assert_eq!(c.get_currrent_date(), MAX_DAY_NUMBER);
    assert_eq!(c.get_days_passed(), 1);
}

#[test]
fn new_calendar_starts_at_start_values() {
    let c = Calendar::new(true, 6, 1, 5, "2000-01-01").unwrap();
    assert_eq!(c.get_current_hour(), 6);
    assert_eq!(c.get_current_weekday(), 1);
    assert_eq!(c.get_days_passed(), 0);
    assert_eq!(c.get_currrent_date(), day_number(2000, 1, 1));
    assert_eq!(c.get_hour_length(), 5);
    assert!(c.get_active());
    assert!(!if_calendar_hour_length_changed(&c));
}

#[test]
fn new_calendar_rejects_malformed_date() {
    assert_eq!(Calendar::new(true, 6, 1, 5, "2000-13-01").err(), Some(CalendarError::MalformedDate));
    assert_eq!(Calendar::new(true, 6, 1, 5, "01/01/2000").err(), Some(CalendarError::MalformedDate));
}

#[test]
fn new_calendar_rejects_zero_hour_length() {
    assert_eq!(Calendar::new(true, 6, 1, 0, "2000-01-01").err(), Some(CalendarError::InvalidDuration));
}

#[test]
fn timer_rejects_zero_duration() {
    assert_eq!(CalendarTimer::new(0).err(), Some(CalendarError::InvalidDuration));
    let mut t = CalendarTimer::new(10).unwrap();
    assert_eq!(t.set_hour_length(0), Err(CalendarError::InvalidDuration));
    assert_eq!(t.duration(), 10 * NANOS_PER_SEC);
}

#[test]
fn one_cycle_split_completes_once() {
    let mut t = CalendarTimer::new(1).unwrap();
    assert!(!t.tick(300_000_000));
    assert!(!t.tick(300_000_000));
    assert!(t.tick(400_000_000));
    assert_eq!(t.elapsed(), 0);
    let mut u = CalendarTimer::new(1).unwrap();
    assert!(u.tick(NANOS_PER_SEC));
    assert!(!u.tick(0));
}

#[test]
fn oversized_tick_counts_once_and_carries_rest() {
    let mut t = CalendarTimer::new(2).unwrap();
    assert!(t.tick(5 * NANOS_PER_SEC));
    assert_eq!(t.elapsed(), NANOS_PER_SEC);
}

#[test]
fn duration_change_keeps_progress() {
    let mut t = CalendarTimer::new(10).unwrap();
    assert!(!t.tick(5 * NANOS_PER_SEC));
    assert_eq!(t.set_hour_length(20), Ok(()));
    assert_eq!(t.elapsed(), 10 * NANOS_PER_SEC);
    assert_eq!(t.duration(), 20 * NANOS_PER_SEC);
}

#[test]
fn update_settings_rescales_timer() {
    let mut c = Calendar::new(true, 0, 1, 10, "2000-01-01").unwrap();
    let mut t = CalendarTimer::new(10).unwrap();
    assert_eq!(update_time(&mut t, &mut c, 5 * NANOS_PER_SEC), no_events());
    assert_eq!(c.set_hour_length(20), Ok(()));
    assert!(if_calendar_hour_length_changed(&c));
    update_settings(&mut c, &mut t);
    assert!(!if_calendar_hour_length_changed(&c));
    assert_eq!(t.elapsed(), 10 * NANOS_PER_SEC);
    assert_eq!(c.get_hour_length(), 20);
    assert_eq!(c.set_hour_length(0), Err(CalendarError::InvalidDuration));
    assert_eq!(c.get_hour_length(), 20);
}

#[test]
fn day_rollover_after_24_hours() {
    let mut c = Calendar::new(true, 0, 3, 1, "2000-02-28").unwrap();
    let mut t = CalendarTimer::new(1).unwrap();
    for h in 1..24u8 {
        let r = update_time(&mut t, &mut c, NANOS_PER_SEC);
        assert_eq!(r, CalendarTick { new_day: None, new_hour: Some(CalendarNewHourEvent { hour: h }) });
    }
    let r = update_time(&mut t, &mut c, NANOS_PER_SEC);
    assert_eq!(
        r,
        CalendarTick {
            new_day: Some(CalendarNewDayEvent { weekday: 4 }),
            new_hour: Some(CalendarNewHourEvent { hour: 0 }),
        }
    );
    assert_eq!(c.get_current_hour(), 0);
    assert_eq!(c.get_days_passed(), 1);
    assert_eq!(c.get_current_weekday(), 4);
    assert_eq!(c.get_currrent_date(), day_number(2000, 2, 29));
}

#[test]
fn weekday_wraps_after_sunday() {
    let mut c = Calendar::new(true, 23, 7, 1, "2000-12-31").unwrap();
    let r = c.complete_hour();
    assert_eq!(r.new_day, Some(CalendarNewDayEvent { weekday: 1 }));
    assert_eq!(c.get_current_weekday(), 1);
    assert_eq!(c.get_currrent_date(), day_number(2001, 1, 1));
}

#[test]
fn inactive_calendar_does_not_advance() {
    let mut c = Calendar::new(false, 5, 2, 1, "2000-01-01").unwrap();
    let mut t = CalendarTimer::new(1).unwrap();
    assert!(!if_calendar_active(&c));
    assert_eq!(update_time(&mut t, &mut c, 3 * NANOS_PER_SEC), no_events());
    assert_eq!(c.get_current_hour(), 5);
    assert_eq!(t.elapsed(), 0);
    c.activate();
    assert!(if_calendar_active(&c));
    let r = update_time(&mut t, &mut c, NANOS_PER_SEC);
    assert_eq!(r.new_hour, Some(CalendarNewHourEvent { hour: 6 }));
    c.deactivate();
    assert!(!c.get_active());
}

#[test]
fn reset_restores_start_values() {
    let mut c = Calendar::new(false, 22, 6, 1, "2000-01-01").unwrap();
    c.activate();
    for _ in 0..30 {
        c.complete_hour();
    }
    c.add_days_passed();
    c.set_current_hour(3);
    assert_ne!(c.get_current_weekday(), 6);
    c.reset();
    assert_eq!(c.get_current_hour(), 22);
    assert_eq!(c.get_current_weekday(), 6);
    assert_eq!(c.get_days_passed(), 0);
    assert_eq!(c.get_currrent_date(), day_number(2000, 1, 1));
    assert!(c.get_active());
}
