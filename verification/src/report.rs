//! The lines that report a station query.

use vstd::prelude::*;
use vstd::string::StringExecFns;
use crate::entry::Window;
use crate::tally::Outcome;

verus! {

/// The character that writes a decimal digit.
pub open spec fn digit_char(d: int) -> char {
    seq!['0', '1', '2', '3', '4', '5', '6', '7', '8', '9'][d]
}

/// A natural number in decimal, without leading zeros.
pub open spec fn natural_digits(n: nat) -> Seq<char>
    decreases n,
{
    if n < 10 {
        seq![digit_char(n as int)]
    } else {
        natural_digits(n / 10).push(digit_char((n % 10) as int))
    }
}

/// An integer in decimal, with a leading `-` where it is negative.
pub open spec fn decimal(n: int) -> Seq<char> {
    if n < 0 {
        seq!['-'] + natural_digits((-n) as nat)
    } else {
        natural_digits(n as nat)
    }
}

/// The word that names the busiest window in a report.
pub open spec fn window_label(w: Option<Window>) -> Seq<char> {
    match w {
        Some(Window::Morning) => "morning"@,
        Some(Window::Midday) => "midday"@,
        Some(Window::Evening) => "evening"@,
        Some(Window::Midnight) => "midnight"@,
        None => "unknown"@,
    }
}

/// The lines that report the outcome of a query for a station: one line where
/// the table holds no record of it, else one line for the busiest window and one
/// for the busiest year.
pub open spec fn report_lines(outcome: Outcome, station: Seq<char>) -> Seq<Seq<char>> {
    match outcome {
        Outcome::NotFound => seq!["No data for station "@ + station],
        Outcome::Found(report) => seq![
            window_label(report.busiest_window) + " is the busiest time of day for "@ + station
                + " station"@,
            decimal(report.busiest_year as int) + " is the busiest year for station "@ + station,
        ],
    }
}

/// The text of each line.
pub open spec fn texts(lines: Seq<String>) -> Seq<Seq<char>> {
    Seq::new(lines.len(), |i: int| lines[i]@)
}

/// The text that writes a decimal digit.
fn digit_text(d: u64) -> (text: &'static str)
    requires
        d < 10,
    ensures
        text@ == seq![digit_char(d as int)],
{
    proof {
        reveal_strlit("0");
        reveal_strlit("1");
        reveal_strlit("2");
        reveal_strlit("3");
        reveal_strlit("4");
        reveal_strlit("5");
        reveal_strlit("6");
        reveal_strlit("7");
        reveal_strlit("8");
        reveal_strlit("9");
    }
    let text = if d == 0 {
        "0"
    } else if d == 1 {
        "1"
    } else if d == 2 {
        "2"
    } else if d == 3 {
        "3"
    } else if d == 4 {
        "4"
    } else if d == 5 {
        "5"
    } else if d == 6 {
        "6"
    } else if d == 7 {
        "7"
    } else if d == 8 {
        "8"
    } else {
        "9"
    };
    assert(text@ =~= seq![digit_char(d as int)]);
    text
}

/// Appends a natural number in decimal.
pub fn push_natural(out: &mut String, n: u64)
    ensures
        final(out)@ == old(out)@ + natural_digits(n as nat),
    decreases n,
{
    if n >= 10 {
        push_natural(out, n / 10);
    }
    out.append(digit_text(n % 10));
    assert(out@ =~= old(out)@ + natural_digits(n as nat));
}

/// Writes an integer in decimal.
pub fn decimal_text(n: i32) -> (text: String)
    ensures
        text@ == decimal(n as int),
{
    let mut text = String::new();
    let wide: i64 = n as i64;
    if wide < 0 {
        proof {
            reveal_strlit("-");
        }
        text.append("-");
        assert(text@ =~= seq!['-']);
        push_natural(&mut text, (-wide) as u64);
    } else {
        push_natural(&mut text, wide as u64);
        assert(text@ =~= natural_digits(n as nat));
    }
    text
}

impl Window {
    /// The word that names the window in a report.
    pub fn label(self) -> (text: &'static str)
        ensures
            text@ == window_label(Some(self)),
    {
        match self {
            Window::Morning => "morning",
            Window::Midday => "midday",
            Window::Evening => "evening",
            Window::Midnight => "midnight",
        }
    }
}

/// Writes the lines that report the outcome of a query for a station.
pub fn render(outcome: &Outcome, station: &str) -> (lines: Vec<String>)
    ensures
        lines@.len() == report_lines(*outcome, station@).len(),
        texts(lines@) == report_lines(*outcome, station@),
{
    let mut lines: Vec<String> = Vec::new();
    match outcome {
        Outcome::NotFound => {
            let mut line = String::from_str("No data for station ");
            line.append(station);
            lines.push(line);
        },
        Outcome::Found(report) => {
            let mut first = String::from_str(
                match report.busiest_window {
                    Some(w) => w.label(),
                    None => "unknown",
                },
            );
            first.append(" is the busiest time of day for ");
            first.append(station);
            first.append(" station");
            let mut second = decimal_text(report.busiest_year);
            second.append(" is the busiest year for station ");
            second.append(station);
            lines.push(first);
            lines.push(second);
        },
    }
    assert(texts(lines@) =~= report_lines(*outcome, station@));
    lines
}

} // verus!
