use ridership::entry::{Entry, Window};
use ridership::query::{aggregate, search_station, tally};
use ridership::tally::{AggregationState, Outcome, StationReport, YearParseError};

fn blank(station: &str, time_period: &str) -> Entry {
    Entry {
        time_period: time_period.to_string(),
        station: station.to_string(),
        entries_morning: None,
        exits_morning: None,
        entries_midday: None,
        exits_midday: None,
        entries_evening: None,
        exits_evening: None,
        entries_midnight: None,
        exits_midnight: None,
        entries_total: None,
        exits_total: None,
    }
}

fn with_total(station: &str, time_period: &str, entries: i32, exits: i32) -> Entry {
    let mut e = blank(station, time_period);
    e.entries_total = Some(entries);
    e.exits_total = Some(exits);
    e
}

fn with_windows(station: &str, time_period: &str, sums: [i32; 4]) -> Entry {
    let mut e = blank(station, time_period);
    e.entries_morning = Some(sums[0]);
    e.entries_midday = Some(sums[1]);
    e.entries_evening = Some(sums[2]);
    e.entries_midnight = Some(sums[3]);
    e
}

fn found(window: Option<Window>, year: i32) -> Result<Outcome, YearParseError> {
    Ok(Outcome::Found(StationReport { busiest_window: window, busiest_year: year }))
}

#[test]
fn later_year_with_higher_total_is_busiest() {
    let records = vec![with_total("A", "FY 2019", 60, 40), with_total("A", "FY 2020", 100, 50)];
    assert_eq!(aggregate(&"A".to_string(), &records), found(None, 2020));
}

#[test]
fn earlier_year_with_higher_total_stays_busiest() {
    let records = vec![with_total("A", "FY 2019", 100, 50), with_total("A", "FY 2020", 60, 40)];
    assert_eq!(aggregate(&"A".to_string(), &records), found(None, 2019));
}

#[test]
fn equal_yearly_totals_keep_the_first_year() {
    let records = vec![with_total("A", "2019", 70, 30), with_total("A", "2020", 50, 50)];
    assert_eq!(aggregate(&"A".to_string(), &records), found(None, 2019));
}

#[test]
fn same_year_totals_accumulate() {
    let records = vec![with_total("B", "July 2021", 30, 20), with_total("B", "August 2021", 25, 35)];
    let state = tally(&"B".to_string(), &records).unwrap();
    assert_eq!(state.yearly_total(2021), 110);
    assert_eq!(state.yearly_max(), 110);
    assert_eq!(state.busiest_year(), 2021);
    assert_eq!(state.matched(), 2);
    assert_eq!(state.yearly_total(2020), 0);
}

#[test]
fn accumulated_year_overtakes_a_larger_single_record() {
    let records = vec![
        with_total("B", "2020", 100, 0),
        with_total("B", "2021", 50, 0),
        with_total("B", "2021", 60, 0),
    ];
    let state = tally(&"B".to_string(), &records).unwrap();
    assert_eq!(state.yearly_total(2020), 100);
    assert_eq!(state.yearly_total(2021), 110);
    assert_eq!(state.busiest_year(), 2021);
    assert_eq!(state.yearly_max(), 110);
}

#[test]
fn yearly_max_keeps_a_peak_that_later_fell() {
    let records = vec![
        with_total("B", "2020", 100, 0),
        with_total("B", "2020", -70, 0),
        with_total("B", "2021", 50, 0),
    ];
    let state = tally(&"B".to_string(), &records).unwrap();
    assert_eq!(state.yearly_total(2020), 30);
    assert_eq!(state.yearly_total(2021), 50);
    assert_eq!(state.yearly_max(), 100);
    assert_eq!(state.busiest_year(), 2020);
}

#[test]
fn tied_windows_resolve_to_the_first() {
    let records = vec![with_windows("C", "2022", [10, 10, 0, 10])];
    assert_eq!(aggregate(&"C".to_string(), &records), found(Some(Window::Morning), 0));
    let state = tally(&"C".to_string(), &records).unwrap();
    assert_eq!(state.window_total(Window::Morning), 10);
    assert_eq!(state.window_total(Window::Midday), 10);
    assert_eq!(state.window_total(Window::Evening), 0);
    assert_eq!(state.window_total(Window::Midnight), 10);
    assert_eq!(state.window_max(), 10);
    assert_eq!(state.busiest_window(), Some(Window::Morning));
}

#[test]
fn each_window_can_be_busiest() {
    let station = "C".to_string();
    assert_eq!(
        aggregate(&station, &vec![with_windows("C", "2022", [4, 3, 2, 1])]),
        found(Some(Window::Morning), 0)
    );
    assert_eq!(
        aggregate(&station, &vec![with_windows("C", "2022", [1, 4, 3, 2])]),
        found(Some(Window::Midday), 0)
    );
    assert_eq!(
        aggregate(&station, &vec![with_windows("C", "2022", [1, 2, 4, 3])]),
        found(Some(Window::Evening), 0)
    );
    assert_eq!(
        aggregate(&station, &vec![with_windows("C", "2022", [1, 2, 3, 4])]),
        found(Some(Window::Midnight), 0)
    );
}

#[test]
fn window_sums_run_across_years() {
    let records = vec![
        with_windows("C", "2021", [5, 0, 0, 0]),
        with_windows("C", "2022", [0, 4, 0, 0]),
        with_windows("C", "2023", [0, 4, 0, 0]),
    ];
    let state = tally(&"C".to_string(), &records).unwrap();
    assert_eq!(state.window_total(Window::Morning), 5);
    assert_eq!(state.window_total(Window::Midday), 8);
    assert_eq!(state.window_max(), 8);
    assert_eq!(state.busiest_window(), Some(Window::Midday));
}

#[test]
fn window_that_only_ties_later_does_not_overtake() {
    let records = vec![
        with_windows("C", "2021", [0, 6, 0, 0]),
        with_windows("C", "2022", [6, 0, 0, 0]),
    ];
    assert_eq!(aggregate(&"C".to_string(), &records), found(Some(Window::Midday), 0));
}

#[test]
fn entries_and_exits_both_count() {
    let mut e = blank("D", "2020");
    e.entries_evening = Some(3);
    e.exits_evening = Some(4);
    e.exits_morning = Some(6);
    e.entries_total = Some(9);
    e.exits_total = Some(11);
    assert_eq!(e.window_traffic(Window::Evening), 7);
    assert_eq!(e.window_traffic(Window::Morning), 6);
    assert_eq!(e.window_traffic(Window::Midday), 0);
    assert_eq!(e.day_traffic(), 20);
    let state = tally(&"D".to_string(), &vec![e]).unwrap();
    assert_eq!(state.window_total(Window::Evening), 7);
    assert_eq!(state.busiest_window(), Some(Window::Evening));
    assert_eq!(state.yearly_total(2020), 20);
}

#[test]
fn absent_counts_are_zero() {
    let mut partial = blank("E", "2020");
    partial.entries_midday = Some(5);
    partial.exits_total = Some(8);
    let mut filled = with_windows("E", "2020", [0, 5, 0, 0]);
    filled.exits_morning = Some(0);
    filled.exits_midday = Some(0);
    filled.exits_evening = Some(0);
    filled.exits_midnight = Some(0);
    filled.entries_total = Some(0);
    filled.exits_total = Some(8);
    let station = "E".to_string();
    let a = tally(&station, &vec![partial.clone(), partial]).unwrap();
    let b = tally(&station, &vec![filled.clone(), filled]).unwrap();
    assert_eq!(a.outcome(), b.outcome());
    assert_eq!(a.outcome(), Outcome::Found(StationReport { busiest_window: Some(Window::Midday), busiest_year: 2020 }));
    assert_eq!(a.yearly_total(2020), 16);
    assert_eq!(b.yearly_total(2020), 16);
    assert_eq!(a.window_total(Window::Midday), 10);
    assert_eq!(a.matched(), 2);
}

#[test]
fn record_without_any_count_still_counts_as_found() {
    let records = vec![blank("E", "2020")];
    assert_eq!(aggregate(&"E".to_string(), &records), found(None, 0));
}

#[test]
fn all_zero_windows_report_unknown() {
    let mut e = with_windows("F", "2020", [0, 0, 0, 0]);
    e.entries_total = Some(12);
    let records = vec![e.clone(), e];
    assert_eq!(aggregate(&"F".to_string(), &records), found(None, 2020));
    assert_eq!(
        search_station(&"F".to_string(), &records).unwrap(),
        vec![
            "unknown is the busiest time of day for F station".to_string(),
            "2020 is the busiest year for station F".to_string(),
        ]
    );
}

#[test]
fn unknown_station_is_not_found() {
    let records = vec![with_total("A", "2019", 1, 1)];
    assert_eq!(aggregate(&"X".to_string(), &records), Ok(Outcome::NotFound));
    assert_eq!(search_station(&"X".to_string(), &records).unwrap(), vec!["No data for station X".to_string()]);
}

#[test]
fn empty_table_is_not_found() {
    assert_eq!(aggregate(&"A".to_string(), &Vec::new()), Ok(Outcome::NotFound));
    let state = tally(&"A".to_string(), &Vec::new()).unwrap();
    assert_eq!(state.matched(), 0);
    assert_eq!(state.outcome(), Outcome::NotFound);
}

#[test]
fn station_names_match_exactly() {
    let records = vec![with_total("Main St", "2019", 1, 1)];
    assert_eq!(aggregate(&"main st".to_string(), &records), Ok(Outcome::NotFound));
    assert_eq!(aggregate(&"Main St ".to_string(), &records), Ok(Outcome::NotFound));
    assert_eq!(aggregate(&"Main St".to_string(), &records), found(None, 2019));
}

#[test]
fn other_stations_are_left_out() {
    let records = vec![
        with_total("A", "2019", 10, 0),
        with_total("B", "2020", 500, 0),
        with_windows("B", "2020", [0, 0, 9, 0]),
        with_windows("A", "2019", [0, 1, 0, 0]),
    ];
    assert_eq!(aggregate(&"A".to_string(), &records), found(Some(Window::Midday), 2019));
    let state = tally(&"A".to_string(), &records).unwrap();
    assert_eq!(state.matched(), 2);
    assert_eq!(state.yearly_total(2020), 0);
    assert_eq!(state.window_total(Window::Evening), 0);
}

#[test]
fn malformed_year_fails_the_query() {
    let records = vec![with_total("A", "2019", 10, 0), with_total("A", "FY 20x9", 10, 0)];
    assert_eq!(aggregate(&"A".to_string(), &records), Err(YearParseError));
    assert!(tally(&"A".to_string(), &records).is_err());
    assert_eq!(search_station(&"A".to_string(), &records), Err(YearParseError));
}

#[test]
fn short_label_fails_the_query() {
    let records = vec![with_total("A", "201", 10, 0)];
    assert_eq!(aggregate(&"A".to_string(), &records), Err(YearParseError));
    let records = vec![with_total("A", "", 10, 0)];
    assert_eq!(aggregate(&"A".to_string(), &records), Err(YearParseError));
}

#[test]
fn malformed_year_of_another_station_is_ignored() {
    let records = vec![with_total("A", "2019", 10, 0), with_total("B", "never", 10, 0)];
    assert_eq!(aggregate(&"A".to_string(), &records), found(None, 2019));
    assert_eq!(aggregate(&"B".to_string(), &records), Err(YearParseError));
}

#[test]
fn totals_beyond_thirty_two_bits_are_kept() {
    let e = with_total("G", "2020", i32::MAX, i32::MAX);
    let mut w = with_windows("G", "2020", [0, 0, 0, i32::MAX]);
    w.exits_midnight = Some(i32::MAX);
    let records = vec![e.clone(), e.clone(), e, w.clone(), w];
    let state = tally(&"G".to_string(), &records).unwrap();
    assert_eq!(state.yearly_total(2020), 6 * (i32::MAX as i128));
    assert_eq!(state.yearly_max(), 6 * (i32::MAX as i128));
    assert_eq!(state.window_total(Window::Midnight), 4 * (i32::MAX as i128));
    assert_eq!(state.window_max(), 4 * (i32::MAX as i128));
    assert_eq!(state.busiest_window(), Some(Window::Midnight));
}

#[test]
fn state_is_built_record_by_record() {
    let mut state = AggregationState::new();
    assert_eq!(state.outcome(), Outcome::NotFound);
    assert_eq!(state.matched(), 0);
    let mut first = with_total("H", "2018", 5, 5);
    first.entries_evening = Some(2);
    assert_eq!(state.record(&first), Ok(()));
    assert_eq!(
        state.outcome(),
        Outcome::Found(StationReport { busiest_window: Some(Window::Evening), busiest_year: 2018 })
    );
    assert_eq!(state.record(&blank("H", "year")), Err(YearParseError));
    assert_eq!(state.matched(), 1);
    assert_eq!(state.yearly_total(2018), 10);
    assert_eq!(state.record(&with_total("H", "2017", 20, 0)), Ok(()));
    assert_eq!(state.matched(), 2);
    assert_eq!(state.busiest_year(), 2017);
    assert_eq!(state.busiest_window(), Some(Window::Evening));
}

#[test]
fn negative_totals_never_become_busiest() {
    let records = vec![with_total("I", "2019", -5, 0), with_windows("I", "2019", [-1, -2, -3, -4])];
    let state = tally(&"I".to_string(), &records).unwrap();
    assert_eq!(state.yearly_total(2019), -5);
    assert_eq!(state.yearly_max(), 0);
    assert_eq!(state.busiest_year(), 0);
    assert_eq!(state.window_total(Window::Midnight), -4);
    assert_eq!(state.busiest_window(), None);
    assert_eq!(state.window_max(), 0);
}
