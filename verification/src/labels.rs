//! The texts of the calendar image: year and month labels, summary lines
//! and legend texts.

use crate::intensity::{bucket_label, spec_bucket_label};
use crate::layout::SUMMARY_LINES;
use crate::summary::YearFigures;
use crate::text::{chars_of, decimal_digits, push_decimal, push_signed_decimal, signed_decimal_digits, string_of};
use chrono::Month;
use vstd::prelude::*;

verus! {

/// The English name of a month, the months counted from 1; empty for any
/// other number.
pub open spec fn month_name(month: int) -> Seq<char> {
    if month == 1 {
        "January"@
    } else if month == 2 {
        "February"@
    } else if month == 3 {
        "March"@
    } else if month == 4 {
        "April"@
    } else if month == 5 {
        "May"@
    } else if month == 6 {
        "June"@
    } else if month == 7 {
        "July"@
    } else if month == 8 {
        "August"@
    } else if month == 9 {
        "September"@
    } else if month == 10 {
        "October"@
    } else if month == 11 {
        "November"@
    } else if month == 12 {
        "December"@
    } else {
        Seq::<char>::empty()
    }
}

/// Turns a month number into a `chrono::Month` with its `TryFrom<u8>` and
/// asks `Month::name` for its name. The numbers 1 to 12 give the English
/// names from January to December; any other number gives nothing.
#[verifier::external_body]
fn chrono_month_name(month: u8) -> (name: Option<String>)
    ensures
        match name {
            Some(text) => 1 <= month <= 12 && text@ == month_name(month as int),
            None => !(1 <= month <= 12),
        },
{
    match Month::try_from(month) {
        Ok(m) => Some(m.name().to_string()),
        Err(_) => None,
    }
}

/// The first `n` characters of a text, or all of it where it has fewer.
pub open spec fn first_chars(text: Seq<char>, n: int) -> Seq<char> {
    if text.len() <= n {
        text
    } else {
        text.take(n)
    }
}

/// The label of a month: the first three characters of its name.
pub open spec fn spec_month_label(month: int) -> Seq<char> {
    first_chars(month_name(month), 3)
}

/// The label of a month, nothing for a number that is no month.
pub fn month_label(month: u8) -> (label: Option<String>)
    ensures
        match label {
            Some(text) => 1 <= month <= 12 && text@ == spec_month_label(month as int),
            None => !(1 <= month <= 12),
        },
{
    match chrono_month_name(month) {
        Some(name) => {
            let chars = chars_of(name.as_str());
            let mut short: Vec<char> = Vec::new();
            let mut i: usize = 0;
            while i < chars.len() && i < 3
                invariant
                    i <= chars.len(),
                    i <= 3,
                    short@ == chars@.take(i as int),
                decreases chars.len() - i,
            {
                short.push(chars[i]);
                proof {
                    assert(chars@.take(i + 1) == chars@.take(i as int).push(chars@[i as int]));
                }
                i += 1;
            }
            proof {
                if chars.len() <= 3 {
                    assert(chars@.take(i as int) == chars@);
                }
            }
            Some(string_of(&short))
        },
        None => None,
    }
}

/// The label of a year: its number in decimal notation.
pub fn year_label(year: i32) -> (label: String)
    ensures
        label@ == signed_decimal_digits(year as int),
{
    let mut chars: Vec<char> = Vec::new();
    push_signed_decimal(&mut chars, year);
    string_of(&chars)
}

/// A number in decimal notation, followed by a text.
pub fn numbered(n: u128, text: &str) -> (line: String)
    ensures
        line@ == decimal_digits(n as nat) + text@,
{
    let mut chars: Vec<char> = Vec::new();
    push_decimal(&mut chars, n);
    let mut tail = chars_of(text);
    chars.append(&mut tail);
    string_of(&chars)
}

/// What a summary line says after its number, the lines counted from 0.
pub open spec fn spec_summary_suffix(line: int) -> Seq<char> {
    if line == 0 {
        " commits total"@
    } else if line == 1 {
        " files changed"@
    } else if line == 2 {
        " insertions(+)"@
    } else {
        " deletions(-)"@
    }
}

/// The number a summary line shows.
pub open spec fn spec_summary_number(figures: YearFigures, line: int) -> nat {
    if line == 0 {
        figures.commits
    } else if line == 1 {
        figures.files
    } else if line == 2 {
        figures.insertions
    } else {
        figures.deletions
    }
}

/// The text of a summary line: the year's commits, changed files, added
/// lines and deleted lines, in this order, each with what it counts.
pub open spec fn spec_summary_text(figures: YearFigures, line: int) -> Seq<char> {
    decimal_digits(spec_summary_number(figures, line)) + spec_summary_suffix(line)
}

/// The text of a legend row: the number of days in the row's bucket, and
/// the commit counts that the bucket stands for. Row 0 is bucket 1.
pub open spec fn spec_legend_text(figures: YearFigures, row: int) -> Seq<char> {
    decimal_digits(figures.bucket_days[row]) + spec_bucket_label((row + 1) as u8)
}

/// What a summary line says after its number.
pub fn summary_suffix(line: u32) -> (suffix: &'static str)
    requires
        line < SUMMARY_LINES,
    ensures
        suffix@ == spec_summary_suffix(line as int),
{
    if line == 0 {
        " commits total"
    } else if line == 1 {
        " files changed"
    } else if line == 2 {
        " insertions(+)"
    } else {
        " deletions(-)"
    }
}

/// The text of a legend row that shows `days` days. Row 0 is bucket 1.
pub fn legend_text(days: u32, row: u32) -> (text: String)
    requires
        row < 5,
    ensures
        text@ == decimal_digits(days as nat) + spec_bucket_label((row + 1) as u8),
{
    numbered(days as u128, bucket_label((row + 1) as u8))
}

} // verus!
