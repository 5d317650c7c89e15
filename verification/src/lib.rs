//! Schedule indexing and departure queries for a static transit feed.
//!
//! The crate joins a feed's routes, trips, calendars and stop-times into
//! per-stop schedule records, resolves each stop's terminating destination,
//! and answers "what departs next" queries with date, weekday and
//! time-of-day filtering, ordering and limiting.

pub mod app;
pub mod calendar;
pub mod config;
pub mod db;
pub mod feed;
pub mod prague;
pub mod timetables;
pub mod wizard;
