//! Core of a terminal calendar viewer for a planner feed: items bucketed by
//! calendar date, with verified navigation across populated dates and within
//! each date's bucket. Fetching, JSON decoding and terminal rendering live
//! outside this crate; they hand in plain values and read plain values back.

pub mod date;
pub mod item;
pub mod bucket;
pub mod calendar;
pub mod nav;
pub mod fetch;
