//! The calendar year at the end of a time-period label.

use vstd::prelude::*;
use vstd::string::StrSliceExecFns;

verus! {

/// The value of `c` as a decimal digit, if it is one of `'0'` to `'9'`.
pub open spec fn digit_value(c: char) -> Option<int> {
    if 48 <= c as u32 <= 57 {
        Some(c as u32 - 48)
    } else {
        None
    }
}

/// The integer that four characters spell: four decimal digits, or a `+` or `-`
/// sign followed by three decimal digits. Anything else spells no integer.
pub open spec fn four_chars_value(a: char, b: char, c: char, d: char) -> Option<int> {
    match (digit_value(b), digit_value(c), digit_value(d)) {
        (Some(x), Some(y), Some(z)) => {
            let low = 100 * x + 10 * y + z;
            if a == '+' {
                Some(low)
            } else if a == '-' {
                Some(-low)
            } else {
                match digit_value(a) {
                    Some(w) => Some(1000 * w + low),
                    None => None,
                }
            }
        },
        _ => None,
    }
}

/// The year that a time-period label ends in: the integer spelled by its last
/// four characters. A label of fewer than four characters, or one whose last four
/// characters spell no integer, has no year.
pub open spec fn year_of(label: Seq<char>) -> Option<i32> {
    if label.len() < 4 {
        None
    } else {
        let n = label.len() as int;
        match four_chars_value(label[n - 4], label[n - 3], label[n - 2], label[n - 1]) {
            Some(v) => Some(v as i32),
            None => None,
        }
    }
}

/// Every year that a label can end in lies between -999 and 9999.
pub proof fn lemma_year_range(label: Seq<char>)
    ensures
        year_of(label) matches Some(y) ==> -999 <= y <= 9999,
{
}

/// Reads one decimal digit.
pub fn digit(c: char) -> (r: Option<i32>)
    ensures
        match r {
            Some(v) => digit_value(c) == Some(v as int),
            None => digit_value(c) is None,
        },
{
    let code: u32 = c as u32;
    if 48 <= code && code <= 57 {
        Some((code - 48) as i32)
    } else {
        None
    }
}

/// Reads the year at the end of a time-period label.
pub fn parse_year(label: &str) -> (r: Option<i32>)
    ensures
        r == year_of(label@),
{
    let n: usize = label.unicode_len();
    if n < 4 {
        return None;
    }
    let a = label.get_char(n - 4);
    let low = match (digit(label.get_char(n - 3)), digit(label.get_char(n - 2)), digit(label.get_char(n - 1))) {
        (Some(x), Some(y), Some(z)) => 100 * x + 10 * y + z,
        _ => { return None; },
    };
    if a == '+' {
        Some(low)
    } else if a == '-' {
        Some(-low)
    } else {
        match digit(a) {
            Some(w) => Some(1000 * w + low),
            None => None,
        }
    }
}

} // verus!
