//! The running statistics of one station, and the fold that builds them.

use std::collections::HashMap;
use vstd::prelude::*;
use crate::entry::{pair_limit, Entry, Window};

verus! {

broadcast use vstd::std_specs::hash::group_hash_axioms;

/// The statistics of one station after some of its records: the mathematical
/// model of an [`AggregationState`].
pub struct Tally {
    /// How many records were folded in.
    pub matched: nat,
    /// For each year seen, the day totals of its records, summed.
    pub yearly_totals: Map<i32, int>,
    /// For each window, in order, the traffic of all records, summed.
    pub window_totals: Seq<int>,
    /// The first window whose running sum reached `window_max`, if any sum ever
    /// rose above zero.
    pub busiest_window: Option<Window>,
    /// The highest running window sum seen so far, or zero.
    pub window_max: int,
    /// The first year whose running total reached `yearly_max`, or zero.
    pub busiest_year: i32,
    /// The highest running yearly total seen so far, or zero.
    pub yearly_max: int,
}

impl Tally {
    /// The statistics before any record.
    pub open spec fn fresh() -> Tally {
        Tally {
            matched: 0,
            yearly_totals: Map::empty(),
            window_totals: seq![0int, 0int, 0int, 0int],
            busiest_window: None,
            window_max: 0,
            busiest_year: 0,
            yearly_max: 0,
        }
    }

    /// The running total stored for a year, zero for a year not seen yet.
    pub open spec fn stored(self, year: i32) -> int {
        if self.yearly_totals.contains_key(year) {
            self.yearly_totals[year]
        } else {
            0
        }
    }

    /// Adds a day total to a year's running total, and makes that year the
    /// busiest if its new total is strictly above every total stored before.
    pub open spec fn add_year(self, year: i32, amount: int) -> Tally {
        let total = amount + self.stored(year);
        Tally {
            yearly_totals: self.yearly_totals.insert(year, total),
            yearly_max: if total > self.yearly_max { total } else { self.yearly_max },
            busiest_year: if total > self.yearly_max { year } else { self.busiest_year },
            ..self
        }
    }

    /// Adds a record's traffic to each of the four window sums.
    pub open spec fn add_windows(self, entry: Entry) -> Tally {
        Tally {
            window_totals: Seq::new(
                4,
                |i: int| self.window_totals[i] + entry.window_sum(Window::at(i)),
            ),
            ..self
        }
    }

    /// Makes one window the busiest if its sum is strictly above the highest seen.
    pub open spec fn check_window(self, i: int) -> Tally {
        if self.window_totals[i] > self.window_max {
            Tally {
                window_max: self.window_totals[i],
                busiest_window: Some(Window::at(i)),
                ..self
            }
        } else {
            self
        }
    }

    /// Checks the first `upto` windows, in order.
    pub open spec fn check_windows(self, upto: int) -> Tally
        decreases upto,
    {
        if upto <= 0 {
            self
        } else {
            self.check_windows(upto - 1).check_window(upto - 1)
        }
    }

    /// Folds in one record of the station, whose label ends in `year`.
    pub open spec fn record(self, year: i32, entry: Entry) -> Tally {
        let counted = Tally { matched: self.matched + 1, ..self };
        counted.add_year(year, entry.day_total()).add_windows(entry).check_windows(4)
    }

    /// Whether any record was folded in.
    pub open spec fn found(self) -> bool {
        self.matched > 0
    }

    /// What a query that ends with these statistics reports.
    pub open spec fn outcome(self) -> Outcome {
        if self.found() {
            Outcome::Found(
                StationReport {
                    busiest_window: self.busiest_window,
                    busiest_year: self.busiest_year,
                },
            )
        } else {
            Outcome::NotFound
        }
    }
}

/// Checking windows changes nothing but the busiest window and the highest sum,
/// and never lowers that sum.
pub proof fn lemma_check_windows_frame(t: Tally, upto: int)
    ensures
        t.check_windows(upto).matched == t.matched,
        t.check_windows(upto).yearly_totals == t.yearly_totals,
        t.check_windows(upto).window_totals == t.window_totals,
        t.check_windows(upto).busiest_year == t.busiest_year,
        t.check_windows(upto).yearly_max == t.yearly_max,
        t.check_windows(upto).window_max >= t.window_max,
    decreases upto,
{
    if upto > 0 {
        lemma_check_windows_frame(t, upto - 1);
    }
}

/// What folding in one record does to the counts and sums.
pub proof fn lemma_record_sums(t: Tally, year: i32, entry: Entry)
    ensures
        t.record(year, entry).matched == t.matched + 1,
        t.record(year, entry).yearly_totals == t.yearly_totals.insert(
            year,
            entry.day_total() + t.stored(year),
        ),
        t.record(year, entry).window_totals == t.add_windows(entry).window_totals,
        t.record(year, entry).busiest_year == t.add_year(year, entry.day_total()).busiest_year,
        t.record(year, entry).yearly_max == t.add_year(year, entry.day_total()).yearly_max,
{
    let counted = Tally { matched: t.matched + 1, ..t };
    lemma_check_windows_frame(counted.add_year(year, entry.day_total()).add_windows(entry), 4);
}

/// The statistics of a station over a table: its records folded in, in the
/// table's order. Records of other stations, and records whose label ends in no
/// year, leave the statistics as they are.
pub open spec fn tally_of(records: Seq<Entry>, station: Seq<char>) -> Tally
    decreases records.len(),
{
    if records.len() == 0 {
        Tally::fresh()
    } else {
        let before = tally_of(records.drop_last(), station);
        let entry = records.last();
        if entry.is_for(station) && entry.year() is Some {
            before.record(entry.year()->0, entry)
        } else {
            before
        }
    }
}

/// A table's first `n` records fold to what its first `n - 1` records fold to,
/// with record `n - 1` folded in.
pub proof fn lemma_tally_step(records: Seq<Entry>, station: Seq<char>, n: int)
    requires
        0 < n <= records.len(),
    ensures
        tally_of(records.take(n), station) == ({
            let before = tally_of(records.take(n - 1), station);
            let entry = records[n - 1];
            if entry.is_for(station) && entry.year() is Some {
                before.record(entry.year()->0, entry)
            } else {
                before
            }
        }),
{
    assert(records.take(n).drop_last() =~= records.take(n - 1));
}

/// Whether the table holds a record of the station.
pub open spec fn has_station(records: Seq<Entry>, station: Seq<char>) -> bool {
    exists|i: int| 0 <= i < records.len() && #[trigger] records[i].is_for(station)
}

/// Whether the table holds a record of the station whose label ends in no year.
pub open spec fn has_malformed(records: Seq<Entry>, station: Seq<char>) -> bool {
    exists|i: int|
        0 <= i < records.len() && #[trigger] records[i].is_for(station) && records[i].year() is None
}

/// A time-period label that does not end in a year.
#[derive(Clone, Copy, Debug, PartialEq, Eq, Structural)]
pub struct YearParseError;

/// What a station query reports.
#[derive(Clone, Copy, Debug, PartialEq, Eq, Structural)]
pub struct StationReport {
    /// The window with the highest running sum; `None` where no sum ever rose
    /// above zero.
    pub busiest_window: Option<Window>,
    /// The year with the highest running total; zero where no total ever rose
    /// above zero.
    pub busiest_year: i32,
}

/// How a station query ends.
#[derive(Clone, Copy, Debug, PartialEq, Eq, Structural)]
pub enum Outcome {
    /// The table holds records of the station.
    Found(StationReport),
    /// The table holds no record of the station.
    NotFound,
}

/// The running statistics of one station query.
pub struct AggregationState {
    matched: usize,
    yearly_totals: HashMap<i32, i128>,
    window_totals: [i128; 4],
    busiest_window: Option<Window>,
    window_max: i128,
    busiest_year: i32,
    yearly_max: i128,
}

impl View for AggregationState {
    type V = Tally;

    closed spec fn view(&self) -> Tally {
        Tally {
            matched: self.matched as nat,
            yearly_totals: self.yearly_totals@.map_values(|v: i128| v as int),
            window_totals: self.window_totals@.map_values(|v: i128| v as int),
            busiest_window: self.busiest_window,
            window_max: self.window_max as int,
            busiest_year: self.busiest_year,
            yearly_max: self.yearly_max as int,
        }
    }
}

impl AggregationState {
    /// Every window sum lies between `-limit` and `limit`.
    spec fn windows_within(&self, limit: int) -> bool {
        forall|i: int| 0 <= i < 4 ==> -limit <= #[trigger] self.window_totals[i] <= limit
    }

    /// Every yearly total lies between `-limit` and `limit`.
    spec fn years_within(&self, limit: int) -> bool {
        forall|y: i32| #[trigger]
            self.yearly_totals@.contains_key(y) ==> -limit <= self.yearly_totals@[y] <= limit
    }

    /// Every running sum is small enough for one more record to be added.
    pub closed spec fn wf(&self) -> bool {
        &&& self.windows_within(self.matched * pair_limit())
        &&& self.years_within(self.matched * pair_limit())
    }

    /// The statistics before any record.
    pub fn new() -> (state: AggregationState)
        ensures
            state.wf(),
            state@ == Tally::fresh(),
    {
        let state = AggregationState {
            matched: 0,
            yearly_totals: HashMap::new(),
            window_totals: [0, 0, 0, 0],
            busiest_window: None,
            window_max: 0,
            busiest_year: 0,
            yearly_max: 0,
        };
        assert(state@.yearly_totals =~= Map::empty());
        assert(state@.window_totals =~= seq![0int, 0int, 0int, 0int]);
        state
    }

    /// Adds a day total to a year's running total.
    fn add_year(&mut self, year: i32, amount: i64)
        requires
            old(self).matched >= 1,
            old(self).years_within((old(self).matched - 1) * pair_limit()),
            -pair_limit() <= amount < pair_limit(),
        ensures
            final(self).years_within(final(self).matched * pair_limit()),
            final(self).matched == old(self).matched,
            final(self).window_totals == old(self).window_totals,
            final(self)@ == old(self)@.add_year(year, amount as int),
    {
        let before: i128 = match self.yearly_totals.get(&year) {
            Some(v) => *v,
            None => 0,
        };
        let total: i128 = amount as i128 + before;
        if total > self.yearly_max {
            self.yearly_max = total;
            self.busiest_year = year;
        }
        self.yearly_totals.insert(year, total);
        assert(self@.yearly_totals =~= old(self)@.add_year(year, amount as int).yearly_totals);
    }

    /// Adds a record's traffic to each of the four window sums.
    fn add_windows(&mut self, entry: &Entry)
        requires
            old(self).matched >= 1,
            old(self).windows_within((old(self).matched - 1) * pair_limit()),
        ensures
            final(self).windows_within(final(self).matched * pair_limit()),
            final(self).matched == old(self).matched,
            final(self).yearly_totals == old(self).yearly_totals,
            final(self)@ == old(self)@.add_windows(*entry),
    {
        let mut i: usize = 0;
        while i < 4
            invariant
                i <= 4,
                self.matched == old(self).matched,
                self.yearly_totals == old(self).yearly_totals,
                self.busiest_window == old(self).busiest_window,
                self.window_max == old(self).window_max,
                self.busiest_year == old(self).busiest_year,
                self.yearly_max == old(self).yearly_max,
                old(self).windows_within((old(self).matched - 1) * pair_limit()),
                forall|j: int|
                    0 <= j < i ==> #[trigger] self.window_totals[j] == old(self).window_totals[j]
                        + entry.window_sum(Window::at(j)),
                forall|j: int| i <= j < 4 ==> #[trigger] self.window_totals[j] == old(self).window_totals[j],
            decreases 4 - i,
        {
            let traffic: i64 = entry.window_traffic(Window::from_index(i));
            let sum: i128 = self.window_totals[i] + traffic as i128;
            self.window_totals[i] = sum;
            i += 1;
        }
        assert(self@.window_totals =~= old(self)@.add_windows(*entry).window_totals);
    }

    /// Makes each window in turn the busiest if its sum is strictly above the
    /// highest seen.
    fn check_windows(&mut self)
        ensures
            final(self).matched == old(self).matched,
            final(self).yearly_totals == old(self).yearly_totals,
            final(self).window_totals == old(self).window_totals,
            final(self)@ == old(self)@.check_windows(4),
    {
        let mut i: usize = 0;
        while i < 4
            invariant
                i <= 4,
                self.matched == old(self).matched,
                self.yearly_totals == old(self).yearly_totals,
                self.window_totals == old(self).window_totals,
                self@ == old(self)@.check_windows(i as int),
            decreases 4 - i,
        {
            if self.window_totals[i] > self.window_max {
                self.window_max = self.window_totals[i];
                self.busiest_window = Some(Window::from_index(i));
            }
            i += 1;
        }
    }

    /// Folds in one record of the station. A record whose label ends in no year
    /// is refused, and leaves the statistics as they were.
    pub fn record(&mut self, entry: &Entry) -> (r: Result<(), YearParseError>)
        requires
            old(self).wf(),
            old(self)@.matched < usize::MAX,
        ensures
            final(self).wf(),
            match entry.year() {
                Some(year) => r is Ok && final(self)@ == old(self)@.record(year, *entry),
                None => r is Err && final(self)@ == old(self)@,
            },
    {
        match entry.parse_year() {
            None => Err(YearParseError),
            Some(year) => {
                self.matched = self.matched + 1;
                self.add_year(year, entry.day_traffic());
                self.add_windows(entry);
                self.check_windows();
                Ok(())
            },
        }
    }

    /// How many records were folded in.
    pub fn matched(&self) -> (n: usize)
        ensures
            n == self@.matched,
    {
        self.matched
    }

    /// The running total stored for a year, zero for a year not seen yet.
    pub fn yearly_total(&self, year: i32) -> (total: i128)
        ensures
            total == self@.stored(year),
    {
        match self.yearly_totals.get(&year) {
            Some(v) => *v,
            None => 0,
        }
    }

    /// The running sum of a window.
    pub fn window_total(&self, w: Window) -> (total: i128)
        ensures
            total == self@.window_totals[w.index()],
    {
        match w {
            Window::Morning => self.window_totals[0],
            Window::Midday => self.window_totals[1],
            Window::Evening => self.window_totals[2],
            Window::Midnight => self.window_totals[3],
        }
    }

    /// The first window whose running sum reached the highest seen.
    pub fn busiest_window(&self) -> (w: Option<Window>)
        ensures
            w == self@.busiest_window,
    {
        self.busiest_window
    }

    /// The highest running window sum seen.
    pub fn window_max(&self) -> (max: i128)
        ensures
            max == self@.window_max,
    {
        self.window_max
    }

    /// The first year whose running total reached the highest seen.
    pub fn busiest_year(&self) -> (year: i32)
        ensures
            year == self@.busiest_year,
    {
        self.busiest_year
    }

    /// The highest running yearly total seen.
    pub fn yearly_max(&self) -> (max: i128)
        ensures
            max == self@.yearly_max,
    {
        self.yearly_max
    }

    /// What a query that ends with these statistics reports.
    pub fn outcome(&self) -> (o: Outcome)
        ensures
            o == self@.outcome(),
    {
        if self.matched == 0 {
            Outcome::NotFound
        } else {
            Outcome::Found(
                StationReport { busiest_window: self.busiest_window, busiest_year: self.busiest_year },
            )
        }
    }
}

} // verus!
