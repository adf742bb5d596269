//! A station query over a table of records.

use vstd::prelude::*;
use crate::entry::Entry;
use crate::report::{render, report_lines, texts};
use crate::tally::{
    has_malformed, has_station, lemma_record_sums, lemma_tally_step, tally_of, AggregationState,
    Outcome, YearParseError,
};

verus! {

/// Folds the station's records into running statistics, in the table's order.
/// The query fails where a record of the station has a label that ends in no
/// year, and only there.
pub fn tally(station: &String, records: &Vec<Entry>) -> (r: Result<AggregationState, YearParseError>)
    ensures
        r is Err <==> has_malformed(records@, station@),
        r matches Ok(state) ==> state.wf() && state@ == tally_of(records@, station@),
        r matches Ok(state) ==> (state@.found() <==> has_station(records@, station@)),
{
    let mut state = AggregationState::new();
    let mut i: usize = 0;
    while i < records.len()
        invariant
            i <= records.len(),
            state.wf(),
            state@.matched <= i,
            state@ == tally_of(records@.take(i as int), station@),
            forall|j: int| 0 <= j < i && #[trigger] records[j].is_for(station@) ==> records[j].year() is Some,
            state@.found() <==> exists|j: int| 0 <= j < i && #[trigger] records[j].is_for(station@),
        decreases records.len() - i,
    {
        let entry = &records[i];
        proof {
            lemma_tally_step(records@, station@, i + 1);
        }
        if entry.station == *station {
            assert(records@[i as int].is_for(station@));
            proof {
                if entry.year() is Some {
                    lemma_record_sums(state@, entry.year()->0, *entry);
                }
            }
            match state.record(entry) {
                Ok(()) => {},
                Err(e) => {
                    return Err(e);
                },
            }
        }
        i += 1;
    }
    assert(records@.take(i as int) =~= records@);
    Ok(state)
}

/// What the table says of a station: its busiest window and busiest year, or
/// that the table holds no record of it. The query fails where a record of the
/// station has a label that ends in no year, and only there.
pub fn aggregate(station: &String, records: &Vec<Entry>) -> (r: Result<Outcome, YearParseError>)
    ensures
        r is Err <==> has_malformed(records@, station@),
        r matches Ok(o) ==> o == tally_of(records@, station@).outcome(),
        r == Ok::<Outcome, YearParseError>(Outcome::NotFound) <==> !has_station(records@, station@),
{
    match tally(station, records) {
        Ok(state) => Ok(state.outcome()),
        Err(e) => Err(e),
    }
}

/// The lines that report a station: its busiest window and busiest year, or
/// that the table holds no record of it. The query fails where a record of the
/// station has a label that ends in no year, and only there.
pub fn search_station(station: &String, entries: &Vec<Entry>) -> (r: Result<
    Vec<String>,
    YearParseError,
>)
    ensures
        r is Err <==> has_malformed(entries@, station@),
        r matches Ok(lines) ==> texts(lines@) == report_lines(
            tally_of(entries@, station@).outcome(),
            station@,
        ),
        r matches Ok(lines) ==> lines@.len() == if has_station(entries@, station@) {
            2nat
        } else {
            1nat
        },
        !has_station(entries@, station@) ==> r is Ok && texts(r->Ok_0@) == seq![
            "No data for station "@ + station@,
        ],
{
    match aggregate(station, entries) {
        Ok(outcome) => Ok(render(&outcome, station.as_str())),
        Err(e) => Err(e),
    }
}

} // verus!
