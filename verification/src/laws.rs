//! What holds of every station query.

use vstd::prelude::*;
use crate::entry::{count, Entry, Window};
use crate::report::report_lines;
use crate::tally::{
    has_malformed, has_station, lemma_check_windows_frame, lemma_record_sums, lemma_tally_step,
    tally_of, Tally,
};

verus! {

/// A record with each absent count written as a zero.
pub open spec fn zero_filled(entry: Entry) -> Entry {
    Entry {
        time_period: entry.time_period,
        station: entry.station,
        entries_morning: Some(count(entry.entries_morning) as i32),
        exits_morning: Some(count(entry.exits_morning) as i32),
        entries_midday: Some(count(entry.entries_midday) as i32),
        exits_midday: Some(count(entry.exits_midday) as i32),
        entries_evening: Some(count(entry.entries_evening) as i32),
        exits_evening: Some(count(entry.exits_evening) as i32),
        entries_midnight: Some(count(entry.entries_midnight) as i32),
        exits_midnight: Some(count(entry.exits_midnight) as i32),
        entries_total: Some(count(entry.entries_total) as i32),
        exits_total: Some(count(entry.exits_total) as i32),
    }
}

/// Two records that agree on their traffic are folded in alike.
pub proof fn lemma_record_by_traffic(t: Tally, year: i32, a: Entry, b: Entry)
    requires
        a.day_total() == b.day_total(),
        forall|w: Window| a.window_sum(w) == b.window_sum(w),
    ensures
        t.record(year, a) == t.record(year, b),
{
    let counted = Tally { matched: t.matched + 1, ..t };
    let with_year = counted.add_year(year, a.day_total());
    assert(with_year.add_windows(a).window_totals =~= with_year.add_windows(b).window_totals);
}

/// An absent count is a zero: a table in which every absent count is written as
/// a zero gives the same statistics, and fails on the same stations.
pub proof fn lemma_absent_counts_as_zero(records: Seq<Entry>, station: Seq<char>)
    ensures
        tally_of(records.map_values(|e: Entry| zero_filled(e)), station) == tally_of(
            records,
            station,
        ),
        has_malformed(records.map_values(|e: Entry| zero_filled(e)), station) == has_malformed(
            records,
            station,
        ),
        has_station(records.map_values(|e: Entry| zero_filled(e)), station) == has_station(
            records,
            station,
        ),
    decreases records.len(),
{
    let filled = records.map_values(|e: Entry| zero_filled(e));
    if records.len() > 0 {
        lemma_absent_counts_as_zero(records.drop_last(), station);
        assert(filled.drop_last() =~= records.drop_last().map_values(|e: Entry| zero_filled(e)));
        let entry = records.last();
        assert(filled.last() == zero_filled(entry));
        if entry.is_for(station) && entry.year() is Some {
            lemma_record_by_traffic(
                tally_of(records.drop_last(), station),
                entry.year()->0,
                zero_filled(entry),
                entry,
            );
        }
    }
    assert(has_malformed(filled, station) == has_malformed(records, station)) by {
        if has_malformed(records, station) {
            let i = choose|i: int|
                0 <= i < records.len() && #[trigger] records[i].is_for(station) && records[i].year() is None;
            assert(filled[i].is_for(station) && filled[i].year() is None);
        }
        if has_malformed(filled, station) {
            let i = choose|i: int|
                0 <= i < filled.len() && #[trigger] filled[i].is_for(station) && filled[i].year() is None;
            assert(records[i].is_for(station) && records[i].year() is None);
        }
    }
    assert(has_station(filled, station) == has_station(records, station)) by {
        if has_station(records, station) {
            let i = choose|i: int| 0 <= i < records.len() && #[trigger] records[i].is_for(station);
            assert(filled[i].is_for(station));
        }
        if has_station(filled, station) {
            let i = choose|i: int| 0 <= i < filled.len() && #[trigger] filled[i].is_for(station);
            assert(records[i].is_for(station));
        }
    }
}

/// The sum of window `i` after the table's first `n` records.
pub open spec fn running_sum(records: Seq<Entry>, station: Seq<char>, n: int, i: int) -> int {
    tally_of(records.take(n), station).window_totals[i]
}

/// Whether window `i` after the table's first `n` records is the first running
/// sum to reach `max`: every sum after fewer records, and every sum of an earlier
/// window after as many, is below it.
pub open spec fn first_to_reach(
    records: Seq<Entry>,
    station: Seq<char>,
    n: int,
    i: int,
    max: int,
) -> bool {
    &&& running_sum(records, station, n, i) == max
    &&& forall|m: int, v: int|
        0 <= m <= n && 0 <= v < 4 && (m < n || v < i) ==> #[trigger] running_sum(
            records,
            station,
            m,
            v,
        ) < max
}

/// What checking the first `upto` windows does: the highest sum seen is then at
/// least each of them; and either none was above it and nothing changed, or the
/// busiest window is the first of them to hold the new highest sum.
pub proof fn lemma_check_windows(t: Tally, upto: int)
    requires
        0 <= upto <= 4,
    ensures
        ({
            let r = t.check_windows(upto);
            &&& r.window_max >= t.window_max
            &&& forall|i: int| 0 <= i < upto ==> #[trigger] t.window_totals[i] <= r.window_max
            &&& {
                ||| r == t
                ||| exists|i: int|
                    {
                        &&& 0 <= i < upto
                        &&& r.busiest_window == Some(Window::at(i))
                        &&& r.window_max == #[trigger] t.window_totals[i]
                        &&& r.window_max > t.window_max
                        &&& forall|v: int| 0 <= v < i ==> #[trigger] t.window_totals[v] < r.window_max
                    }
            }
        }),
    decreases upto,
{
    if upto > 0 {
        lemma_check_windows(t, upto - 1);
        lemma_check_windows_frame(t, upto - 1);
        let before = t.check_windows(upto - 1);
        let r = t.check_windows(upto);
        if before.window_totals[upto - 1] > before.window_max {
            let i = upto - 1;
            assert(r.busiest_window == Some(Window::at(i)) && r.window_max == t.window_totals[i]);
        } else if before != t {
            let i = choose|i: int|
                {
                    &&& 0 <= i < upto - 1
                    &&& before.busiest_window == Some(Window::at(i))
                    &&& before.window_max == #[trigger] t.window_totals[i]
                    &&& before.window_max > t.window_max
                    &&& forall|v: int|
                        0 <= v < i ==> #[trigger] t.window_totals[v] < before.window_max
                };
            assert(r.busiest_window == Some(Window::at(i)) && r.window_max == t.window_totals[i]);
        }
    }
}

/// The highest window sum is the peak of the running sums, and the busiest
/// window is the first to reach it. After the table's first `n` records: the
/// highest sum is at least zero and at least every window's sum after every
/// shorter run of records; no window is the busiest exactly where that highest
/// sum is zero; and the busiest window, where there is one, is the first running
/// sum to have reached the highest sum.
pub proof fn lemma_window_peak(records: Seq<Entry>, station: Seq<char>, n: int)
    requires
        0 <= n <= records.len(),
    ensures
        ({
            let t = tally_of(records.take(n), station);
            &&& t.window_totals.len() == 4
            &&& t.window_max >= 0
            &&& forall|m: int, v: int|
                0 <= m <= n && 0 <= v < 4 ==> #[trigger] running_sum(records, station, m, v)
                    <= t.window_max
            &&& t.busiest_window is None <==> t.window_max == 0
            &&& t.busiest_window matches Some(w) ==> exists|k: int|
                1 <= k <= n && #[trigger] first_to_reach(
                    records,
                    station,
                    k,
                    w.index(),
                    t.window_max,
                )
        }),
    decreases n,
{
    let t = tally_of(records.take(n), station);
    if n == 0 {
        assert forall|m: int, v: int| 0 <= m <= n && 0 <= v < 4 implies #[trigger] running_sum(
            records,
            station,
            m,
            v,
        ) <= t.window_max by {}
    } else {
        lemma_window_peak(records, station, n - 1);
        lemma_tally_step(records, station, n);
        let before = tally_of(records.take(n - 1), station);
        let entry = records[n - 1];
        if entry.is_for(station) && entry.year() is Some {
            let year = entry.year()->0;
            let counted = Tally { matched: before.matched + 1, ..before };
            let summed = counted.add_year(year, entry.day_total()).add_windows(entry);
            lemma_check_windows(summed, 4);
            lemma_check_windows_frame(summed, 4);
            assert(t == summed.check_windows(4));
            assert(forall|v: int|
                0 <= v < 4 ==> summed.window_totals[v] == #[trigger] running_sum(
                    records,
                    station,
                    n,
                    v,
                ));
            assert forall|m: int, v: int| 0 <= m <= n && 0 <= v < 4 implies #[trigger] running_sum(
                records,
                station,
                m,
                v,
            ) <= t.window_max by {
                if m == n {
                    assert(summed.window_totals[v] <= t.window_max);
                }
            }
            if t == summed {
                if before.busiest_window is Some {
                    let w = before.busiest_window->0;
                    let k = choose|k: int|
                        1 <= k <= n - 1 && #[trigger] first_to_reach(
                            records,
                            station,
                            k,
                            w.index(),
                            before.window_max,
                        );
                    assert(first_to_reach(records, station, k, w.index(), t.window_max));
                }
            } else {
                let i = choose|i: int|
                    {
                        &&& 0 <= i < 4
                        &&& t.busiest_window == Some(Window::at(i))
                        &&& t.window_max == #[trigger] summed.window_totals[i]
                        &&& t.window_max > summed.window_max
                        &&& forall|v: int|
                            0 <= v < i ==> #[trigger] summed.window_totals[v] < t.window_max
                    };
                assert(Window::at(i).index() == i);
                assert forall|m: int, v: int|
                    0 <= m <= n && 0 <= v < 4 && (m < n || v < i) implies #[trigger] running_sum(
                    records,
                    station,
                    m,
                    v,
                ) < t.window_max by {
                    if m == n {
                        assert(summed.window_totals[v] < t.window_max);
                    }
                }
                assert(first_to_reach(records, station, n, i, t.window_max));
            }
        } else {
            assert(forall|v: int|
                0 <= v < 4 ==> running_sum(records, station, n - 1, v) == #[trigger] running_sum(
                    records,
                    station,
                    n,
                    v,
                ));
            if before.busiest_window is Some {
                let w = before.busiest_window->0;
                let k = choose|k: int|
                    1 <= k <= n - 1 && #[trigger] first_to_reach(
                        records,
                        station,
                        k,
                        w.index(),
                        before.window_max,
                    );
                assert(first_to_reach(records, station, k, w.index(), t.window_max));
            }
        }
    }
}

/// Where no record of the station counts below zero in any window, a window's
/// running sum never falls.
pub proof fn lemma_running_sum_grows(
    records: Seq<Entry>,
    station: Seq<char>,
    m: int,
    n: int,
    v: int,
)
    requires
        0 <= m <= n <= records.len(),
        0 <= v < 4,
        forall|i: int, w: Window|
            0 <= i < records.len() && records[i].is_for(station) ==> #[trigger] records[i].window_sum(
                w,
            ) >= 0,
    ensures
        running_sum(records, station, m, v) <= running_sum(records, station, n, v),
    decreases n - m,
{
    if m < n {
        lemma_running_sum_grows(records, station, m, n - 1, v);
        lemma_tally_step(records, station, n);
        let before = tally_of(records.take(n - 1), station);
        let entry = records[n - 1];
        lemma_window_peak(records, station, n - 1);
        if entry.is_for(station) && entry.year() is Some {
            lemma_record_sums(before, entry.year()->0, entry);
            assert(entry.window_sum(Window::at(v)) >= 0);
        }
    }
}

/// A station whose window sums all end at zero has no busiest window, and is
/// reported with the word "unknown" in place of one. This holds of every table in
/// which no record of the station counts below zero in any window.
pub proof fn lemma_zero_windows_unknown(records: Seq<Entry>, station: Seq<char>)
    requires
        forall|i: int, w: Window|
            0 <= i < records.len() && records[i].is_for(station) ==> #[trigger] records[i].window_sum(
                w,
            ) >= 0,
        forall|v: int| 0 <= v < 4 ==> #[trigger] tally_of(records, station).window_totals[v] == 0,
    ensures
        tally_of(records, station).busiest_window is None,
        tally_of(records, station).found() ==> report_lines(
            tally_of(records, station).outcome(),
            station,
        )[0] == "unknown"@ + " is the busiest time of day for "@ + station + " station"@,
{
    let n = records.len() as int;
    let t = tally_of(records, station);
    assert(records.take(n) =~= records);
    lemma_window_peak(records, station, n);
    if t.busiest_window is Some {
        let w = t.busiest_window->0;
        let k = choose|k: int|
            1 <= k <= n && #[trigger] first_to_reach(records, station, k, w.index(), t.window_max);
        lemma_running_sum_grows(records, station, k, n, w.index());
        assert(t.window_totals[w.index()] == 0);
    }
}

/// The running total stored for a year after the table's first `n` records.
pub open spec fn running_total(records: Seq<Entry>, station: Seq<char>, n: int, year: i32) -> int {
    tally_of(records.take(n), station).stored(year)
}

/// Whether record `n - 1` is the first to bring a year's running total to `max`:
/// it is a record of the station in that year, its year's total is then `max`,
/// and every total after fewer records is below it.
pub open spec fn first_year_to_reach(
    records: Seq<Entry>,
    station: Seq<char>,
    n: int,
    year: i32,
    max: int,
) -> bool {
    &&& records[n - 1].is_for(station)
    &&& records[n - 1].year() == Some(year)
    &&& running_total(records, station, n, year) == max
    &&& forall|m: int, y: i32|
        0 <= m < n ==> #[trigger] running_total(records, station, m, y) < max
}

/// The highest yearly total is the peak of the running totals, and the busiest
/// year is the first to reach it. After the table's first `n` records: the
/// highest total is at least zero and at least every year's total after every
/// shorter run of records; where it is zero the busiest year is zero; and where
/// it is above zero the busiest year is the year of the first record to have
/// brought a running total to it.
pub proof fn lemma_year_peak(records: Seq<Entry>, station: Seq<char>, n: int)
    requires
        0 <= n <= records.len(),
    ensures
        ({
            let t = tally_of(records.take(n), station);
            &&& t.yearly_max >= 0
            &&& forall|m: int, y: i32|
                0 <= m <= n ==> #[trigger] running_total(records, station, m, y) <= t.yearly_max
            &&& t.yearly_max == 0 ==> t.busiest_year == 0
            &&& t.yearly_max > 0 ==> exists|k: int|
                1 <= k <= n && #[trigger] first_year_to_reach(
                    records,
                    station,
                    k,
                    t.busiest_year,
                    t.yearly_max,
                )
        }),
    decreases n,
{
    let t = tally_of(records.take(n), station);
    if n == 0 {
        assert forall|m: int, y: i32| 0 <= m <= n implies #[trigger] running_total(
            records,
            station,
            m,
            y,
        ) <= t.yearly_max by {}
    } else {
        lemma_year_peak(records, station, n - 1);
        lemma_tally_step(records, station, n);
        let before = tally_of(records.take(n - 1), station);
        let entry = records[n - 1];
        if entry.is_for(station) && entry.year() is Some {
            let year = entry.year()->0;
            lemma_record_sums(before, year, entry);
            assert forall|m: int, y: i32| 0 <= m <= n implies #[trigger] running_total(
                records,
                station,
                m,
                y,
            ) <= t.yearly_max by {
                if m == n {
                    assert(running_total(records, station, n - 1, y) <= before.yearly_max);
                }
            }
            if t.yearly_max > before.yearly_max {
                assert forall|m: int, y: i32| 0 <= m < n implies #[trigger] running_total(
                    records,
                    station,
                    m,
                    y,
                ) < t.yearly_max by {
                    assert(running_total(records, station, m, y) <= before.yearly_max);
                }
                assert(first_year_to_reach(records, station, n, t.busiest_year, t.yearly_max));
            } else if t.yearly_max > 0 {
                let k = choose|k: int|
                    1 <= k <= n - 1 && #[trigger] first_year_to_reach(
                        records,
                        station,
                        k,
                        before.busiest_year,
                        before.yearly_max,
                    );
                assert(first_year_to_reach(records, station, k, t.busiest_year, t.yearly_max));
            }
        } else {
            assert(forall|y: i32|
                running_total(records, station, n - 1, y) == #[trigger] running_total(
                    records,
                    station,
                    n,
                    y,
                ));
            if t.yearly_max > 0 {
                let k = choose|k: int|
                    1 <= k <= n - 1 && #[trigger] first_year_to_reach(
                        records,
                        station,
                        k,
                        before.busiest_year,
                        before.yearly_max,
                    );
                assert(first_year_to_reach(records, station, k, t.busiest_year, t.yearly_max));
            }
        }
    }
}

/// The traffic of one window, summed over the station's records.
pub open spec fn window_sum_of(records: Seq<Entry>, station: Seq<char>, w: Window) -> int
    decreases records.len(),
{
    if records.len() == 0 {
        0
    } else {
        window_sum_of(records.drop_last(), station, w) + if records.last().is_for(station) {
            records.last().window_sum(w)
        } else {
            0
        }
    }
}

/// The day totals of the station's records of one year, summed.
pub open spec fn year_sum_of(records: Seq<Entry>, station: Seq<char>, year: i32) -> int
    decreases records.len(),
{
    if records.len() == 0 {
        0
    } else {
        year_sum_of(records.drop_last(), station, year) + if records.last().is_for(station)
            && records.last().year() == Some(year) {
            records.last().day_total()
        } else {
            0
        }
    }
}

/// How many records of the station the table holds.
pub open spec fn station_records(records: Seq<Entry>, station: Seq<char>) -> nat
    decreases records.len(),
{
    if records.len() == 0 {
        0
    } else {
        station_records(records.drop_last(), station) + if records.last().is_for(station) {
            1nat
        } else {
            0nat
        }
    }
}

/// The stored totals are sums. In a table where every record of the station has
/// a label that ends in a year: each window's total is the traffic of that window
/// summed over the station's records, each year's stored total is the day totals
/// of the station's records of that year summed, and the records folded in are
/// the station's records.
pub proof fn lemma_totals_are_sums(records: Seq<Entry>, station: Seq<char>)
    requires
        !has_malformed(records, station),
    ensures
        tally_of(records, station).window_totals.len() == 4,
        forall|w: Window| #[trigger]
            tally_of(records, station).window_totals[w.index()] == window_sum_of(
                records,
                station,
                w,
            ),
        forall|year: i32| #[trigger]
            tally_of(records, station).stored(year) == year_sum_of(records, station, year),
        tally_of(records, station).matched == station_records(records, station),
        tally_of(records, station).found() <==> has_station(records, station),
    decreases records.len(),
{
    if records.len() > 0 {
        let rest = records.drop_last();
        let entry = records.last();
        assert(!has_malformed(rest, station)) by {
            if has_malformed(rest, station) {
                let i = choose|i: int|
                    0 <= i < rest.len() && #[trigger] rest[i].is_for(station) && rest[i].year() is None;
                assert(records[i].is_for(station) && records[i].year() is None);
            }
        }
        lemma_totals_are_sums(rest, station);
        let before = tally_of(rest, station);
        if entry.is_for(station) {
            assert(records[records.len() - 1].is_for(station));
            assert(entry.year() is Some);
            lemma_record_sums(before, entry.year()->0, entry);
            assert forall|w: Window| #[trigger]
                tally_of(records, station).window_totals[w.index()] == window_sum_of(
                    records,
                    station,
                    w,
                ) by {
                assert(Window::at(w.index()) == w);
            }
        } else {
            if has_station(records, station) {
                let i = choose|i: int| 0 <= i < records.len() && #[trigger] records[i].is_for(station);
                assert(rest[i].is_for(station));
            }
        }
        if has_station(rest, station) {
            let i = choose|i: int| 0 <= i < rest.len() && #[trigger] rest[i].is_for(station);
            assert(records[i].is_for(station));
        }
        assert forall|year: i32| #[trigger]
            tally_of(records, station).stored(year) == year_sum_of(records, station, year) by {
            assert(before.stored(year) == year_sum_of(rest, station, year));
        }
    }
}

} // verus!
