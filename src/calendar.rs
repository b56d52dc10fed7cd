//! The in-game clock: hour of day, weekday, day count and date, advanced one
//! hour each time the cycle timer completes.
use vstd::prelude::*;

use std::collections::HashMap;

use crate::date::{date_days_of, following_day, parse_date_days, MAX_DAY_NUMBER, MIN_DAY_NUMBER};
use crate::timer::{
    rescaled_elapsed, tick_elapsed, tick_finishes, valid_hour_length, CalendarTimer,
    NANOS_PER_SEC,
};

verus! {

/// What can go wrong when a clock is set up or changed.
#[derive(Debug, Clone, Copy, PartialEq, Eq, Structural)]
pub enum CalendarError {
    /// The start date is no valid `YYYY-MM-DD` date.
    MalformedDate,
    /// The hour length is zero, or too long to count in nanoseconds.
    InvalidDuration,
}

/// The settings a clock is started with.
pub struct PGCalendarPlugin {
    pub active: bool,
    /// How many real seconds an in-game hour lasts.
    pub hour_length: u64,
    /// From 0 to 23.
    pub start_hour: u8,
    /// From 1 to 7: 1 is Monday, 7 is Sunday.
    pub start_weekday: u8,
    /// In `YYYY-MM-DD` form.
    pub start_date: String,
}

impl Default for PGCalendarPlugin {
    fn default() -> (r: Self)
        ensures
            r.active,
            r.hour_length == 5,
            r.start_hour == 6,
            r.start_weekday == 1,
            r.start_date@ == "2000-01-01"@,
    {
        PGCalendarPlugin {
            active: true,
            hour_length: 5,
            start_hour: 6,
            start_weekday: 1,
            start_date: String::from_str("2000-01-01"),
        }
    }
}

/// The group in which the host runs the clock's updates.
#[derive(Debug, Hash, PartialEq, Eq, Clone, Copy, Structural)]
pub enum PGCalendarSet {
    Calendar,
}

/// Sent when a new day starts, with its weekday.
#[derive(Debug, Clone, Copy, PartialEq, Eq, Structural)]
pub struct CalendarNewDayEvent {
    pub weekday: u8,
}

/// Sent when a new hour starts, with the hour.
#[derive(Debug, Clone, Copy, PartialEq, Eq, Structural)]
pub struct CalendarNewHourEvent {
    pub hour: u8,
}

/// The transitions of one update. Where both come, the new day comes before
/// the new hour.
#[derive(Debug, Clone, Copy, PartialEq, Eq, Structural)]
pub struct CalendarTick {
    pub new_day: Option<CalendarNewDayEvent>,
    pub new_hour: Option<CalendarNewHourEvent>,
}

/// The state of a clock, as values.
pub struct CalendarView {
    pub days_passed: u128,
    pub current_hour: u8,
    pub current_weekday: u8,
    pub current_date: i32,
    pub old_hour_length: u64,
    pub hour_length: u64,
    pub start_hour: u8,
    pub start_weekday: u8,
    pub start_date: Seq<char>,
    pub active: bool,
}

/// The weekday after `weekday`; Sunday is followed by Monday.
pub open spec fn next_weekday(weekday: int) -> int {
    if weekday + 1 > 7 {
        1
    } else {
        weekday + 1
    }
}

/// The date after `days`; the last date chrono represents stays as it is.
pub open spec fn next_date(days: int) -> int {
    if days < MAX_DAY_NUMBER {
        days + 1
    } else {
        days
    }
}

/// Whether the hour that completes in state `v` starts a new day.
pub open spec fn starts_new_day(v: CalendarView) -> bool {
    v.current_hour + 1 == 24
}

/// The state after one more hour.
pub open spec fn after_hour(v: CalendarView) -> CalendarView {
    if starts_new_day(v) {
        CalendarView {
            current_hour: 0,
            days_passed: if v.days_passed < u128::MAX { (v.days_passed + 1) as u128 } else { v.days_passed },
            current_weekday: next_weekday(v.current_weekday as int) as u8,
            current_date: next_date(v.current_date as int) as i32,
            ..v
        }
    } else {
        CalendarView { current_hour: (v.current_hour + 1) as u8, ..v }
    }
}

/// The state after `n` more hours.
pub open spec fn after_hours(v: CalendarView, n: nat) -> CalendarView
    decreases n,
{
    if n == 0 {
        v
    } else {
        after_hour(after_hours(v, (n - 1) as nat))
    }
}

/// The events sent when an hour completes in state `v`.
pub open spec fn hour_events(v: CalendarView) -> CalendarTick {
    CalendarTick {
        new_day: if starts_new_day(v) {
            Some(CalendarNewDayEvent { weekday: after_hour(v).current_weekday })
        } else {
            None
        },
        new_hour: Some(CalendarNewHourEvent { hour: after_hour(v).current_hour }),
    }
}

/// The in-game clock.
pub struct Calendar {
    days_passed: u128,
    current_hour: u8,
    current_weekday: u8,
    current_date: i32,
    old_hour_length: u64,
    hour_length: u64,
    start_hour: u8,
    start_weekday: u8,
    start_date: String,
    active: bool,
}

impl View for Calendar {
    type V = CalendarView;

    closed spec fn view(&self) -> CalendarView {
        CalendarView {
            days_passed: self.days_passed,
            current_hour: self.current_hour,
            current_weekday: self.current_weekday,
            current_date: self.current_date,
            old_hour_length: self.old_hour_length,
            hour_length: self.hour_length,
            start_hour: self.start_hour,
            start_weekday: self.start_weekday,
            start_date: self.start_date@,
            active: self.active,
        }
    }
}

impl Calendar {
    pub open spec fn wf(&self) -> bool {
        &&& self@.current_hour <= 23
        &&& 1 <= self@.current_weekday <= 7
        &&& self@.start_hour <= 23
        &&& 1 <= self@.start_weekday <= 7
        &&& MIN_DAY_NUMBER <= self@.current_date <= MAX_DAY_NUMBER
        &&& date_days_of(self@.start_date) is Some
        &&& valid_hour_length(self@.hour_length as int)
        &&& valid_hour_length(self@.old_hour_length as int)
    }

    /// A clock at `start_hour` of `start_weekday` on `start_date`, with no day
    /// passed. Fails where `start_date` is no `YYYY-MM-DD` date, then where
    /// the hour length is not accepted.
    pub fn new(
        active: bool,
        start_hour: u8,
        start_weekday: u8,
        hour_length: u64,
        start_date: &str,
    ) -> (r: Result<Calendar, CalendarError>)
        requires
            start_hour <= 23,
            1 <= start_weekday <= 7,
        ensures
            date_days_of(start_date@) is None ==> r == Err::<Calendar, CalendarError>(CalendarError::MalformedDate),
            date_days_of(start_date@) is Some && !valid_hour_length(hour_length as int)
                ==> r == Err::<Calendar, CalendarError>(CalendarError::InvalidDuration),
            date_days_of(start_date@) is Some && valid_hour_length(hour_length as int) ==> {
                &&& r is Ok
                &&& r->Ok_0.wf()
                &&& r->Ok_0@ == (CalendarView {
                    days_passed: 0,
                    current_hour: start_hour,
                    current_weekday: start_weekday,
                    current_date: date_days_of(start_date@)->Some_0,
                    old_hour_length: hour_length,
                    hour_length,
                    start_hour,
                    start_weekday,
                    start_date: start_date@,
                    active,
                })
            },
    {
        let date = match parse_date_days(start_date) {
            Some(d) => d,
            None => return Err(CalendarError::MalformedDate),
        };
        if hour_length == 0 || hour_length > crate::timer::MAX_HOUR_LENGTH {
            return Err(CalendarError::InvalidDuration);
        }
        Ok(Calendar {
            active,
            old_hour_length: hour_length,
            hour_length,
            start_hour,
            start_weekday,
            start_date: String::from_str(start_date),
            days_passed: 0,
            current_hour: start_hour,
            current_weekday: start_weekday,
            current_date: date,
        })
    }

    pub fn get_days_passed(&self) -> (r: u128)
        ensures
            r == self@.days_passed,
    {
        self.days_passed
    }

    pub fn add_days_passed(&mut self)
        requires
            old(self)@.days_passed < u128::MAX,
        ensures
            final(self)@ == (CalendarView { days_passed: (old(self)@.days_passed + 1) as u128, ..old(self)@ }),
    {
        self.days_passed = self.days_passed + 1;
    }

    pub fn get_current_hour(&self) -> (r: u8)
        ensures
            r == self@.current_hour,
    {
        self.current_hour
    }

    pub fn set_current_hour(&mut self, hour: u8)
        requires
            hour <= 23,
        ensures
            final(self)@ == (CalendarView { current_hour: hour, ..old(self)@ }),
    {
        self.current_hour = hour;
    }

    pub fn get_current_weekday(&self) -> (r: u8)
        ensures
            r == self@.current_weekday,
    {
        self.current_weekday
    }

    /// The current date as its day number (January 1 of year 1 is day 1).
    pub fn get_currrent_date(&self) -> (r: i32)
        ensures
            r == self@.current_date,
    {
        self.current_date
    }

    /// Asks for a new hour length; `update_settings` hands it to the timer.
    pub fn set_hour_length(&mut self, hour_length: u64) -> (r: Result<(), CalendarError>)
        ensures
            valid_hour_length(hour_length as int) ==> r is Ok && final(self)@ == (CalendarView {
                old_hour_length: old(self)@.hour_length,
                hour_length,
                ..old(self)@
            }),
            !valid_hour_length(hour_length as int) ==> r == Err::<(), CalendarError>(CalendarError::InvalidDuration)
                && final(self)@ == old(self)@,
    {
        if hour_length == 0 || hour_length > crate::timer::MAX_HOUR_LENGTH {
            return Err(CalendarError::InvalidDuration);
        }
        self.old_hour_length = self.hour_length;
        self.hour_length = hour_length;
        Ok(())
    }

    pub fn activate(&mut self)
        ensures
            final(self)@ == (CalendarView { active: true, ..old(self)@ }),
    {
        self.active = true;
    }

    pub fn deactivate(&mut self)
        ensures
            final(self)@ == (CalendarView { active: false, ..old(self)@ }),
    {
        self.active = false;
    }

    pub fn get_hour_length(&self) -> (r: u64)
        ensures
            r == self@.hour_length,
    {
        self.hour_length
    }

    pub fn get_active(&self) -> (r: bool)
        ensures
            r == self@.active,
    {
        self.active
    }

    /// Back to the start hour, weekday and date, with no day passed. Whether
    /// the clock is active, and its hour length, stay as they are.
    pub fn reset(&mut self)
        requires
            old(self).wf(),
        ensures
            final(self).wf(),
            final(self)@ == (CalendarView {
                days_passed: 0,
                current_hour: old(self)@.start_hour,
                current_weekday: old(self)@.start_weekday,
                current_date: date_days_of(old(self)@.start_date)->Some_0,
                ..old(self)@
            }),
    {
        self.days_passed = 0;
        self.current_hour = self.start_hour;
        self.current_weekday = self.start_weekday;
        match parse_date_days(self.start_date.as_str()) {
            Some(d) => {
                self.current_date = d;
            },
            None => {},
        }
    }

    /// Moves the clock on by one hour, and says which transitions that makes.
    pub fn complete_hour(&mut self) -> (r: CalendarTick)
        requires
            old(self).wf(),
        ensures
            final(self).wf(),
            final(self)@ == after_hour(old(self)@),
            r == hour_events(old(self)@),
    {
        self.current_hour = self.current_hour + 1;
        let mut new_day: Option<CalendarNewDayEvent> = None;
        if self.current_hour == 24 {
            self.current_hour = 0;
            if self.days_passed < u128::MAX {
                self.days_passed = self.days_passed + 1;
            }
            self.current_weekday = self.current_weekday + 1;
            self.current_date = following_day(self.current_date);
            if self.current_weekday > 7 {
                self.current_weekday = 1;
            }
            new_day = Some(CalendarNewDayEvent { weekday: self.current_weekday });
        }
        CalendarTick { new_day, new_hour: Some(CalendarNewHourEvent { hour: self.current_hour }) }
    }
}

/// Whether the clock runs.
pub fn if_calendar_active(calendar: &Calendar) -> (r: bool)
    ensures
        r == calendar@.active,
{
    calendar.get_active()
}

/// Whether a new hour length waits to be handed to the timer.
pub fn if_calendar_hour_length_changed(calendar: &Calendar) -> (r: bool)
    ensures
        r == (calendar@.old_hour_length != calendar@.hour_length),
{
    calendar.old_hour_length != calendar.hour_length
}

/// Advances the clock by `delta` real nanoseconds: nothing happens while the
/// clock is inactive; otherwise the timer runs, and each time its cycle
/// completes the clock moves on one hour.
pub fn update_time(timer: &mut CalendarTimer, calendar: &mut Calendar, delta: u64) -> (r: CalendarTick)
    requires
        old(timer).wf(),
        old(calendar).wf(),
    ensures
        final(timer).wf(),
        final(calendar).wf(),
        !old(calendar)@.active ==> *final(timer) == *old(timer) && final(calendar)@ == old(calendar)@
            && r == (CalendarTick { new_day: None, new_hour: None }),
        old(calendar)@.active ==> {
            &&& final(timer).duration_nanos() == old(timer).duration_nanos()
            &&& final(timer).elapsed_nanos() == tick_elapsed(old(timer).elapsed_nanos(), old(timer).duration_nanos(), delta as int)
            &&& if tick_finishes(old(timer).elapsed_nanos(), old(timer).duration_nanos(), delta as int) {
                final(calendar)@ == after_hour(old(calendar)@) && r == hour_events(old(calendar)@)
            } else {
                final(calendar)@ == old(calendar)@ && r == (CalendarTick { new_day: None, new_hour: None })
            }
        },
{
    if !calendar.get_active() {
        return CalendarTick { new_day: None, new_hour: None };
    }
    if timer.tick(delta) {
        calendar.complete_hour()
    } else {
        CalendarTick { new_day: None, new_hour: None }
    }
}

/// Hands a new hour length to the timer, keeping the fraction of the current
/// hour that has passed.
pub fn update_settings(calendar: &mut Calendar, timer: &mut CalendarTimer)
    requires
        old(timer).wf(),
        old(calendar).wf(),
    ensures
        final(timer).wf(),
        final(calendar).wf(),
        old(calendar)@.old_hour_length == old(calendar)@.hour_length ==> *final(timer) == *old(timer)
            && final(calendar)@ == old(calendar)@,
        old(calendar)@.old_hour_length != old(calendar)@.hour_length ==> {
            &&& final(calendar)@ == (CalendarView { old_hour_length: old(calendar)@.hour_length, ..old(calendar)@ })
            &&& final(timer).duration_nanos() == old(calendar)@.hour_length * NANOS_PER_SEC
            &&& final(timer).elapsed_nanos() == rescaled_elapsed(
                old(timer).elapsed_nanos(),
                old(timer).duration_nanos(),
                old(calendar)@.hour_length * NANOS_PER_SEC,
            )
        },
{
    if calendar.old_hour_length != calendar.hour_length {
        let _ = timer.set_hour_length(calendar.hour_length);
        calendar.old_hour_length = calendar.hour_length;
    }
}

proof fn lemma_hours_within_day(v: CalendarView, k: nat)
    requires
        v.current_hour == 0,
        k <= 23,
    ensures
        after_hours(v, k) == (CalendarView { current_hour: k as u8, ..v }),
    decreases k,
{
    if k > 0 {
        lemma_hours_within_day(v, (k - 1) as nat);
    }
}

/// Twenty-four hours from midnight: the clock is at midnight again, one more
/// day has passed, the weekday and the date have moved on by one, and only the
/// last of the twenty-four hours starts a new day (each of them sends a new
/// hour).
pub proof fn lemma_day_after_24_hours(v: CalendarView)
    requires
        v.current_hour == 0,
        1 <= v.current_weekday <= 7,
        v.days_passed < u128::MAX,
        MIN_DAY_NUMBER <= v.current_date < MAX_DAY_NUMBER,
    ensures
        after_hours(v, 24).current_hour == 0,
        after_hours(v, 24).days_passed == v.days_passed + 1,
        after_hours(v, 24).current_weekday == next_weekday(v.current_weekday as int),
        after_hours(v, 24).current_date == v.current_date + 1,
        forall|k: nat| k < 23 ==> !starts_new_day(#[trigger] after_hours(v, k)),
        starts_new_day(after_hours(v, 23)),
        hour_events(after_hours(v, 23)) == (CalendarTick {
            new_day: Some(CalendarNewDayEvent { weekday: next_weekday(v.current_weekday as int) as u8 }),
            new_hour: Some(CalendarNewHourEvent { hour: 0 }),
        }),
{
    lemma_hours_within_day(v, 23);
    assert forall|k: nat| k < 23 implies !starts_new_day(#[trigger] after_hours(v, k)) by {
        lemma_hours_within_day(v, k);
    }
}

/// A new day after Sunday is a Monday.
pub proof fn lemma_weekday_wraps(v: CalendarView)
    requires
        v.current_hour == 23,
        v.current_weekday == 7,
    ensures
        starts_new_day(v),
        after_hour(v).current_weekday == 1,
{
}

/// The digit `d` as a character.
pub open spec fn digit_char(d: int) -> char {
    seq!['0', '1', '2', '3', '4', '5', '6', '7', '8', '9'][d]
}

/// The decimal digits of `n`, without leading zeros.
pub open spec fn decimal(n: nat) -> Seq<char>
    decreases n,
{
    if n < 10 {
        seq![digit_char(n as int)]
    } else {
        decimal(n / 10).push(digit_char((n % 10) as int))
    }
}

/// An hour of the day in twelve-hour form: hours up to 12 are "AM" as they
/// are, later ones "PM" less twelve.
pub open spec fn time_text(t: int) -> Seq<char> {
    if t <= 12 {
        decimal(t as nat) + ":00 AM"@
    } else {
        decimal((t - 12) as nat) + ":00 PM"@
    }
}

/// Relies on std's `ToString` for `u8`: its decimal digits.
#[verifier::external_body]
fn decimal_text(n: u8) -> (r: String)
    ensures
        r@ == decimal(n as nat),
{
    n.to_string()
}

/// Formats an hour of the day, such as "1:00 PM".
pub fn format_time(t: u8) -> (r: String)
    ensures
        r@ == time_text(t as int),
{
    if t <= 12 {
        decimal_text(t).concat(":00 AM")
    } else {
        decimal_text(t - 12).concat(":00 PM")
    }
}

/// The three-letter name of a weekday, from 1 (Monday) to 7 (Sunday).
pub open spec fn weekday_name(day: u8) -> Seq<char> {
    if day == 1 {
        "Mon"@
    } else if day == 2 {
        "Tue"@
    } else if day == 3 {
        "Wed"@
    } else if day == 4 {
        "Thu"@
    } else if day == 5 {
        "Fri"@
    } else if day == 6 {
        "Sat"@
    } else {
        "Sun"@
    }
}

/// The names of the weekdays, by number.
pub struct Weekdays {
    pub data: HashMap<u8, String>,
}

impl Weekdays {
    pub fn new() -> (r: Self)
        ensures
            r.data@.dom() == Set::new(|d: u8| 1 <= d <= 7),
            forall|d: u8| 1 <= d <= 7 ==> (#[trigger] r.data@[d])@ == weekday_name(d),
    {
        broadcast use vstd::std_specs::hash::group_hash_axioms;
        let mut data: HashMap<u8, String> = HashMap::new();
        data.insert(1, String::from_str("Mon"));
        data.insert(2, String::from_str("Tue"));
        data.insert(3, String::from_str("Wed"));
        data.insert(4, String::from_str("Thu"));
        data.insert(5, String::from_str("Fri"));
        data.insert(6, String::from_str("Sat"));
        data.insert(7, String::from_str("Sun"));
        assert(data@.dom() =~= Set::new(|d: u8| 1 <= d <= 7));
        Weekdays { data }
    }
}

} // verus!
