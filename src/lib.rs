//! An in-game clock driven by real elapsed time, and cron-like schedules
//! matched against it.
//!
//! - `timer`: the repeating cycle timer that turns real time into completed hours.
//! - `calendar`: the clock itself, its transitions, and the hour formatting.
//! - `date`: dates as day numbers, with chrono doing the date work.
//! - `cron`: reading schedules and matching them against the clock.
pub mod calendar;
pub mod cron;
pub mod date;
pub mod timer;
