//! Ridership statistics for transit stations.
//!
//! A table of ridership records is folded, for one named station, into the
//! time-of-day window and the calendar year with the highest cumulative traffic.

pub mod entry;
pub mod laws;
pub mod query;
pub mod report;
pub mod tally;
pub mod year;
