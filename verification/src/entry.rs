//! One row of the ridership table.

use vstd::prelude::*;
use crate::year::{parse_year, year_of};

verus! {

/// One of the four disjoint daily time ranges that counts are bucketed by.
#[derive(Clone, Copy, Debug, PartialEq, Eq, Structural)]
pub enum Window {
    /// 06:00 to 10:00.
    Morning,
    /// 10:00 to 15:00.
    Midday,
    /// 15:00 to 19:00.
    Evening,
    /// 19:00 to 06:00.
    Midnight,
}

/// One row of the ridership table: a station, a time-period label, and the entry
/// and exit counts of each window and of the whole day. A count is absent where
/// the table's field was missing or unreadable.
#[derive(Clone, Debug)]
pub struct Entry {
    pub time_period: String,
    pub station: String,
    pub entries_morning: Option<i32>,
    pub exits_morning: Option<i32>,
    pub entries_midday: Option<i32>,
    pub exits_midday: Option<i32>,
    pub entries_evening: Option<i32>,
    pub exits_evening: Option<i32>,
    pub entries_midnight: Option<i32>,
    pub exits_midnight: Option<i32>,
    pub entries_total: Option<i32>,
    pub exits_total: Option<i32>,
}

/// What a count contributes to a sum: its value, or zero where it is absent.
pub open spec fn count(c: Option<i32>) -> int {
    match c {
        Some(v) => v as int,
        None => 0,
    }
}

/// The largest magnitude that the entries and exits of one record can sum to.
pub open spec fn pair_limit() -> int {
    0x1_0000_0000
}

impl Window {
    /// The window's position in the order morning, midday, evening, midnight.
    pub open spec fn index(self) -> int {
        match self {
            Window::Morning => 0,
            Window::Midday => 1,
            Window::Evening => 2,
            Window::Midnight => 3,
        }
    }

    /// The window at a position, counted from zero.
    pub open spec fn at(i: int) -> Window {
        if i == 0 {
            Window::Morning
        } else if i == 1 {
            Window::Midday
        } else if i == 2 {
            Window::Evening
        } else {
            Window::Midnight
        }
    }

    /// The window at a position below four.
    pub(crate) fn from_index(i: usize) -> (w: Window)
        requires
            i < 4,
        ensures
            w == Window::at(i as int),
            w.index() == i,
    {
        if i == 0 {
            Window::Morning
        } else if i == 1 {
            Window::Midday
        } else if i == 2 {
            Window::Evening
        } else {
            Window::Midnight
        }
    }
}

impl Entry {
    /// Entries plus exits of one window, absent counts as zero.
    pub open spec fn window_sum(&self, w: Window) -> int {
        match w {
            Window::Morning => count(self.entries_morning) + count(self.exits_morning),
            Window::Midday => count(self.entries_midday) + count(self.exits_midday),
            Window::Evening => count(self.entries_evening) + count(self.exits_evening),
            Window::Midnight => count(self.entries_midnight) + count(self.exits_midnight),
        }
    }

    /// Entries plus exits of the whole day, absent counts as zero.
    pub open spec fn day_total(&self) -> int {
        count(self.entries_total) + count(self.exits_total)
    }

    /// The year that the record's time-period label ends in, if it ends in one.
    pub open spec fn year(&self) -> Option<i32> {
        year_of(self.time_period@)
    }

    /// Whether the record belongs to the station of that name.
    pub open spec fn is_for(&self, station: Seq<char>) -> bool {
        self.station@ == station
    }

    /// Entries plus exits of one window, absent counts as zero.
    pub fn window_traffic(&self, w: Window) -> (r: i64)
        ensures
            r == self.window_sum(w),
            -pair_limit() <= r < pair_limit(),
    {
        match w {
            Window::Morning => or_zero(self.entries_morning) + or_zero(self.exits_morning),
            Window::Midday => or_zero(self.entries_midday) + or_zero(self.exits_midday),
            Window::Evening => or_zero(self.entries_evening) + or_zero(self.exits_evening),
            Window::Midnight => or_zero(self.entries_midnight) + or_zero(self.exits_midnight),
        }
    }

    /// Entries plus exits of the whole day, absent counts as zero.
    pub fn day_traffic(&self) -> (r: i64)
        ensures
            r == self.day_total(),
            -pair_limit() <= r < pair_limit(),
    {
        or_zero(self.entries_total) + or_zero(self.exits_total)
    }

    /// Reads the year at the end of the record's time-period label.
    pub fn parse_year(&self) -> (r: Option<i32>)
        ensures
            r == self.year(),
    {
        parse_year(self.time_period.as_str())
    }
}

/// A count widened for summing, absent as zero.
pub fn or_zero(c: Option<i32>) -> (r: i64)
    ensures
        r == count(c),
{
    match c {
        Some(v) => v as i64,
        None => 0,
    }
}

} // verus!
