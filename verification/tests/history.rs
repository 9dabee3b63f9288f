use commit_calendar::calendar::Date;
use commit_calendar::history::{
    advance, date_from_parts, gather_changes, gather_dates, parse_change_line, parse_date_line,
    read_change_log, read_date_log, RepoLog, StatEvent,
};

fn chars(s: &str) -> Vec<char> {
    s.chars().collect()
}

fn day(year: i32, month: u8, day: u8) -> Date {
    Date { year, month, day }
}

#[test]
fn date_lines_are_parsed() {
    assert_eq!(parse_date_line(&chars("2023-06-15")), Some(day(2023, 6, 15)));
    assert_eq!(parse_date_line(&chars("2024-02-29")), Some(day(2024, 2, 29)));
    assert_eq!(parse_date_line(&chars("1999-12-31")), Some(day(1999, 12, 31)));
}

#[test]
fn lines_that_are_no_dates_are_refused() {
    assert_eq!(parse_date_line(&chars("")), None);
    assert_eq!(parse_date_line(&chars("garbage")), None);
    assert_eq!(parse_date_line(&chars("3\t2\tfoo.txt")), None);
    assert_eq!(parse_date_line(&chars("2023-02-29")), None);
    assert_eq!(parse_date_line(&chars("2023-13-01")), None);
    assert_eq!(parse_date_line(&chars("2023-06-15 extra")), None);
    assert_eq!(parse_date_line(&chars("2023/06/15")), None);
}

#[test]
fn parsed_parts_become_dates() {
    assert_eq!(date_from_parts(Some((2023, 6, 15))), Some(day(2023, 6, 15)));
    assert_eq!(date_from_parts(Some((2023, 2, 30))), None);
    assert_eq!(date_from_parts(Some((2023, 0, 1))), None);
    assert_eq!(date_from_parts(Some((2023, 1, 4000000000))), None);
    assert_eq!(date_from_parts(Some((i32::MAX, 1, 1))), None);
    assert_eq!(date_from_parts(None), None);
}

#[test]
fn change_lines_have_three_fields_and_two_counts() {
    assert_eq!(parse_change_line(&chars("3\t2\tfoo.txt")), Some((3, 2)));
    assert_eq!(parse_change_line(&chars("0\t0\tempty")), Some((0, 0)));
    assert_eq!(parse_change_line(&chars("  10   20   src/lib.rs ")), Some((10, 20)));
}

#[test]
fn other_lines_are_no_change_lines() {
    assert_eq!(parse_change_line(&chars("-\t-\timage.png")), None);
    assert_eq!(parse_change_line(&chars("3\t-\tfoo")), None);
    assert_eq!(parse_change_line(&chars("3\t2")), None);
    assert_eq!(parse_change_line(&chars("3\t2\tfoo bar.txt")), None);
    assert_eq!(parse_change_line(&chars("")), None);
    assert_eq!(parse_change_line(&chars("a\tb\tc")), None);
    assert_eq!(parse_change_line(&chars("-3\t2\tfoo")), None);
}

#[test]
fn a_date_line_moves_the_cursor() {
    let d = day(2023, 6, 15);
    assert_eq!(advance(None, Some(d), &chars("2023-06-15")), (Some(d), None));
    let e = day(2023, 6, 16);
    assert_eq!(advance(Some(d), Some(e), &chars("2023-06-16")), (Some(e), None));
}

#[test]
fn a_change_line_under_a_cursor_yields_an_event() {
    let d = day(2023, 6, 15);
    assert_eq!(
        advance(Some(d), None, &chars("3\t2\tfoo.txt")),
        (Some(d), Some(StatEvent { date: d, added: 3, deleted: 2 }))
    );
}

#[test]
fn lines_without_a_cursor_yield_nothing() {
    assert_eq!(advance(None, None, &chars("3\t2\tfoo.txt")), (None, None));
}

#[test]
fn binary_files_yield_nothing() {
    let d = day(2023, 6, 15);
    assert_eq!(advance(Some(d), None, &chars("-\t-\tlogo.png")), (Some(d), None));
    assert_eq!(advance(Some(d), None, &chars("")), (Some(d), None));
}

#[test]
fn a_date_log_gives_its_dates_in_order() {
    let mut dates = Vec::new();
    read_date_log("2023-06-15\nnot a date\n2023-06-15\n2022-01-02\n", &mut dates);
    assert_eq!(dates, vec![day(2023, 6, 15), day(2023, 6, 15), day(2022, 1, 2)]);
}

#[test]
fn a_date_log_is_appended() {
    let mut dates = vec![day(2000, 1, 1)];
    read_date_log("2001-01-01", &mut dates);
    read_date_log("", &mut dates);
    assert_eq!(dates, vec![day(2000, 1, 1), day(2001, 1, 1)]);
}

#[test]
fn a_change_log_dates_events_by_the_line_above() {
    let mut events = Vec::new();
    let log = "9\t9\tbefore any date\n2023-06-15\n\n3\t2\tfoo.txt\n-\t-\tlogo.png\n1\t0\tbar\n2023-06-14\n2023-06-13\n5\t5\tbaz\n";
    read_change_log(log, &mut events);
    assert_eq!(
        events,
        vec![
            StatEvent { date: day(2023, 6, 15), added: 3, deleted: 2 },
            StatEvent { date: day(2023, 6, 15), added: 1, deleted: 0 },
            StatEvent { date: day(2023, 6, 13), added: 5, deleted: 5 },
        ]
    );
}

#[test]
fn logs_with_carriage_returns_are_read() {
    let mut dates = Vec::new();
    read_date_log("2023-06-15\r\n2023-06-16\r\n", &mut dates);
    assert_eq!(dates, vec![day(2023, 6, 15), day(2023, 6, 16)]);
}

#[test]
fn the_cursor_starts_afresh_in_each_repository() {
    let logs = vec![
        RepoLog { dates: String::from("2023-01-01\n"), changes: String::from("2023-01-01\n1\t1\ta\n") },
        RepoLog { dates: String::from("2023-01-02\n"), changes: String::from("2\t2\tb\n2023-01-02\n4\t4\tc\n") },
    ];
    assert_eq!(gather_dates(&logs), vec![day(2023, 1, 1), day(2023, 1, 2)]);
    assert_eq!(
        gather_changes(&logs),
        vec![
            StatEvent { date: day(2023, 1, 1), added: 1, deleted: 1 },
            StatEvent { date: day(2023, 1, 2), added: 4, deleted: 4 },
        ]
    );
}
