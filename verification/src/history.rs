//! Reading the two textual logs of a repository: one commit date per line,
//! and commit dates interleaved with per-file change lines.

use crate::calendar::Date;
use crate::text::{chars_of, count_of, fields_of, lines_of, parse_count, split_fields, split_lines, string_of, views};
use chrono::{Datelike, NaiveDate};
use vstd::prelude::*;

verus! {

/// What `chrono` reads from a line under the format `%Y-%m-%d`: the year,
/// month and day of the date it parsed, or nothing where it reports an error.
pub uninterp spec fn chrono_ymd(line: Seq<char>) -> Option<(i32, u32, u32)>;

/// Calls `chrono::NaiveDate::parse_from_str` with the format `%Y-%m-%d` and
/// takes the date apart with `Datelike::year`, `month` and `day`. Nothing is
/// claimed of the outcome but that it depends on the line alone.
#[verifier::external_body]
fn chrono_parse_ymd(line: &str) -> (parts: Option<(i32, u32, u32)>)
    ensures
        parts == chrono_ymd(line@),
{
    match NaiveDate::parse_from_str(line, "%Y-%m-%d") {
        Ok(date) => Some((date.year(), date.month(), date.day())),
        Err(_) => None,
    }
}

/// The date that parsed parts name, if they name a day of the calendar.
pub open spec fn spec_date_from_parts(parts: Option<(i32, u32, u32)>) -> Option<Date> {
    match parts {
        Some((year, month, day)) => Date::spec_from_ymd(year as int, month as int, day as int),
        None => None,
    }
}

/// Turns the parts parsed from a line into a date, checking that they name
/// a day of the calendar.
pub fn date_from_parts(parts: Option<(i32, u32, u32)>) -> (date: Option<Date>)
    ensures
        date == spec_date_from_parts(parts),
        date matches Some(d) ==> d.valid(),
{
    match parts {
        Some((year, month, day)) => Date::from_ymd(year, month, day),
        None => None,
    }
}

/// The commit date a line holds, if it is a date line.
pub open spec fn date_of_line(line: Seq<char>) -> Option<Date> {
    spec_date_from_parts(chrono_ymd(line))
}

/// Reads a line as a commit date.
pub fn parse_date_line(line: &Vec<char>) -> (date: Option<Date>)
    ensures
        date == date_of_line(line@),
        date matches Some(d) ==> d.valid(),
{
    let owned = string_of(line);
    date_from_parts(chrono_parse_ymd(owned.as_str()))
}

/// The added and deleted line counts a change line holds. A change line has
/// exactly three fields, the first two of which write counts; any other
/// line, such as that of a binary file with `-` for its counts, holds none.
pub open spec fn change_of_line(line: Seq<char>) -> Option<(u32, u32)> {
    let fields = fields_of(line);
    if fields.len() == 3 {
        match (count_of(fields[0]), count_of(fields[1])) {
            (Some(added), Some(deleted)) => Some((added, deleted)),
            _ => None,
        }
    } else {
        None
    }
}

/// Reads a line as a change line.
pub fn parse_change_line(line: &Vec<char>) -> (change: Option<(u32, u32)>)
    ensures
        change == change_of_line(line@),
{
    let fields = split_fields(line);
    if fields.len() != 3 {
        return None;
    }
    proof {
        assert(views(fields@)[0] == fields@[0]@);
        assert(views(fields@)[1] == fields@[1]@);
    }
    match (parse_count(&fields[0]), parse_count(&fields[1])) {
        (Some(added), Some(deleted)) => Some((added, deleted)),
        _ => None,
    }
}

/// One changed file of a commit: the commit's date and the file's added and
/// deleted line counts.
#[derive(Clone, Copy, Debug, PartialEq, Eq, Structural)]
pub struct StatEvent {
    pub date: Date,
    pub added: u32,
    pub deleted: u32,
}

/// One step through a change log. `cursor` is the date of the latest date
/// line so far, `line_date` what the line holds as a date line. A date line
/// moves the cursor and yields nothing; a change line under a cursor yields
/// an event at the cursor's date; every other line is passed over.
pub open spec fn spec_advance(cursor: Option<Date>, line_date: Option<Date>, line: Seq<char>) -> (
    Option<Date>,
    Option<StatEvent>,
) {
    match line_date {
        Some(date) => (Some(date), None),
        None => match cursor {
            Some(at) => match change_of_line(line) {
                Some((added, deleted)) => (cursor, Some(StatEvent { date: at, added, deleted })),
                None => (cursor, None),
            },
            None => (None, None),
        },
    }
}

/// Takes one step through a change log: the next cursor and the event the
/// line yields, if any.
pub fn advance(cursor: Option<Date>, line_date: Option<Date>, line: &Vec<char>) -> (step: (
    Option<Date>,
    Option<StatEvent>,
))
    ensures
        step == spec_advance(cursor, line_date, line@),
{
    match line_date {
        Some(date) => (Some(date), None),
        None => match cursor {
            Some(at) => match parse_change_line(line) {
                Some((added, deleted)) => (cursor, Some(StatEvent { date: at, added, deleted })),
                None => (cursor, None),
            },
            None => (None, None),
        },
    }
}

/// The commit dates of a date log: one for each line that is a date line,
/// in the order of the lines. Other lines are passed over.
pub open spec fn date_events(lines: Seq<Seq<char>>) -> Seq<Date>
    decreases lines.len(),
{
    if lines.len() == 0 {
        Seq::<Date>::empty()
    } else {
        let before = date_events(lines.drop_last());
        match date_of_line(lines.last()) {
            Some(date) => before.push(date),
            None => before,
        }
    }
}

/// The cursor after the lines of a change log: the date of the last date
/// line, if there is one.
pub open spec fn cursor_after(lines: Seq<Seq<char>>) -> Option<Date>
    decreases lines.len(),
{
    if lines.len() == 0 {
        None
    } else {
        spec_advance(cursor_after(lines.drop_last()), date_of_line(lines.last()), lines.last()).0
    }
}

/// The events of a change log: one for each change line that follows a
/// date line, dated by the nearest date line above it, in the order of the
/// lines.
pub open spec fn stat_events(lines: Seq<Seq<char>>) -> Seq<StatEvent>
    decreases lines.len(),
{
    if lines.len() == 0 {
        Seq::<StatEvent>::empty()
    } else {
        let before = stat_events(lines.drop_last());
        match spec_advance(
            cursor_after(lines.drop_last()),
            date_of_line(lines.last()),
            lines.last(),
        ).1 {
            Some(event) => before.push(event),
            None => before,
        }
    }
}

/// Whether every date of the sequence is a day of the calendar.
pub open spec fn all_valid(dates: Seq<Date>) -> bool {
    forall|i: int| 0 <= i < dates.len() ==> (#[trigger] dates[i]).valid()
}

/// Whether every event of the sequence is dated by a day of the calendar.
pub open spec fn all_dated(events: Seq<StatEvent>) -> bool {
    forall|i: int| 0 <= i < events.len() ==> (#[trigger] events[i]).date.valid()
}

/// Reads a date log, appending its commit dates to `out`.
pub fn read_date_log(text: &str, out: &mut Vec<Date>)
    requires
        all_valid(old(out)@),
    ensures
        final(out)@ == old(out)@ + date_events(lines_of(text@)),
        all_valid(final(out)@),
{
    let chars = chars_of(text);
    let lines = split_lines(&chars);
    let ghost all = views(lines@);
    let mut i: usize = 0;
    while i < lines.len()
        invariant
            i <= lines.len(),
            all == views(lines@),
            out@ == old(out)@ + date_events(all.take(i as int)),
            all_valid(out@),
        decreases lines.len() - i,
    {
        proof {
            assert(all.take(i + 1).drop_last() == all.take(i as int));
            assert(all.take(i + 1).last() == lines@[i as int]@);
        }
        let ghost before = out@;
        match parse_date_line(&lines[i]) {
            Some(date) => {
                out.push(date);
                proof {
                    assert(out@ == old(out)@ + date_events(all.take(i as int)).push(date));
                }
            },
            None => {},
        }
        i += 1;
    }
    proof {
        assert(all.take(i as int) == all);
    }
}

/// Reads a change log, appending its events to `out`.
pub fn read_change_log(text: &str, out: &mut Vec<StatEvent>)
    requires
        all_dated(old(out)@),
    ensures
        final(out)@ == old(out)@ + stat_events(lines_of(text@)),
        all_dated(final(out)@),
{
    let chars = chars_of(text);
    let lines = split_lines(&chars);
    let ghost all = views(lines@);
    let mut cursor: Option<Date> = None;
    let mut i: usize = 0;
    while i < lines.len()
        invariant
            i <= lines.len(),
            all == views(lines@),
            cursor == cursor_after(all.take(i as int)),
            cursor matches Some(at) ==> at.valid(),
            out@ == old(out)@ + stat_events(all.take(i as int)),
            all_dated(out@),
        decreases lines.len() - i,
    {
        proof {
            assert(all.take(i + 1).drop_last() == all.take(i as int));
            assert(all.take(i + 1).last() == lines@[i as int]@);
        }
        let line_date = parse_date_line(&lines[i]);
        let (next, event) = advance(cursor, line_date, &lines[i]);
        match event {
            Some(e) => {
                out.push(e);
                proof {
                    assert(out@ == old(out)@ + stat_events(all.take(i as int)).push(e));
                }
            },
            None => {},
        }
        cursor = next;
        i += 1;
    }
    proof {
        assert(all.take(i as int) == all);
    }
}

/// The two logs taken from one repository.
#[derive(Debug)]
pub struct RepoLog {
    /// One commit date per line.
    pub dates: String,
    /// Commit dates, each followed by the change lines of its commit.
    pub changes: String,
}

/// The commit dates of all repositories, repository after repository.
pub open spec fn all_dates(logs: Seq<RepoLog>) -> Seq<Date>
    decreases logs.len(),
{
    if logs.len() == 0 {
        Seq::<Date>::empty()
    } else {
        all_dates(logs.drop_last()) + date_events(lines_of(logs.last().dates@))
    }
}

/// The change events of all repositories, repository after repository.
/// The cursor starts afresh in each repository.
pub open spec fn all_changes(logs: Seq<RepoLog>) -> Seq<StatEvent>
    decreases logs.len(),
{
    if logs.len() == 0 {
        Seq::<StatEvent>::empty()
    } else {
        all_changes(logs.drop_last()) + stat_events(lines_of(logs.last().changes@))
    }
}

/// Reads the date logs of all repositories.
pub fn gather_dates(logs: &Vec<RepoLog>) -> (dates: Vec<Date>)
    ensures
        dates@ == all_dates(logs@),
        all_valid(dates@),
{
    let mut dates: Vec<Date> = Vec::new();
    let mut i: usize = 0;
    while i < logs.len()
        invariant
            i <= logs.len(),
            dates@ == all_dates(logs@.take(i as int)),
            all_valid(dates@),
        decreases logs.len() - i,
    {
        proof {
            assert(logs@.take(i + 1).drop_last() == logs@.take(i as int));
        }
        read_date_log(logs[i].dates.as_str(), &mut dates);
        i += 1;
    }
    proof {
        assert(logs@.take(i as int) == logs@);
    }
    dates
}

/// Reads the change logs of all repositories.
pub fn gather_changes(logs: &Vec<RepoLog>) -> (events: Vec<StatEvent>)
    ensures
        events@ == all_changes(logs@),
        all_dated(events@),
{
    let mut events: Vec<StatEvent> = Vec::new();
    let mut i: usize = 0;
    while i < logs.len()
        invariant
            i <= logs.len(),
            events@ == all_changes(logs@.take(i as int)),
            all_dated(events@),
        decreases logs.len() - i,
    {
        proof {
            assert(logs@.take(i + 1).drop_last() == logs@.take(i as int));
        }
        read_change_log(logs[i].changes.as_str(), &mut events);
        i += 1;
    }
    proof {
        assert(logs@.take(i as int) == logs@);
    }
    events
}

} // verus!
