use commit_calendar::calendar::Date;
use commit_calendar::history::{RepoLog, StatEvent};
use commit_calendar::index::DailyIndex;
use commit_calendar::stats::{DailyStats, DayStats};
use commit_calendar::summary::{History, Measure};
use commit_calendar::table::DayTable;
use commit_calendar::years::{insert_descending, select_active_years, YearTotal};

fn day(year: i32, month: u8, day: u8) -> Date {
    Date { year, month, day }
}

fn log(dates: &str, changes: &str) -> RepoLog {
    RepoLog { dates: String::from(dates), changes: String::from(changes) }
}

fn none() -> DayStats {
    DayStats { files: 0, insertions: 0, deletions: 0 }
}

#[test]
fn a_table_keeps_the_last_value_of_each_day() {
    let mut table: DayTable<u8> = DayTable::new();
    assert_eq!(table.len(), 0);
    assert_eq!(table.get(day(2023, 1, 1)), None);
    table.put(day(2023, 1, 1), 7);
    table.put(day(2023, 1, 2), 8);
    table.put(day(2023, 1, 1), 9);
    assert_eq!(table.len(), 2);
    assert_eq!(table.get(day(2023, 1, 1)), Some(9));
    assert_eq!(table.get(day(2023, 1, 2)), Some(8));
    assert_eq!(table.get(day(2023, 1, 3)), None);
    assert_eq!(table.key(0), day(2023, 1, 1));
    assert_eq!(table.key(1), day(2023, 1, 2));
}

#[test]
fn the_index_counts_commits_per_day() {
    let dates = vec![day(2023, 6, 15), day(2023, 6, 16), day(2023, 6, 15), day(2022, 6, 15)];
    let index = DailyIndex::from_dates(&dates);
    assert_eq!(index.count(day(2023, 6, 15)), 2);
    assert_eq!(index.count(day(2023, 6, 16)), 1);
    assert_eq!(index.count(day(2022, 6, 15)), 1);
    assert_eq!(index.count(day(2023, 6, 17)), 0);
    assert_eq!(index.len(), 3);
    assert_eq!(index.day(0), day(2023, 6, 15));
    assert_eq!(index.day(2), day(2022, 6, 15));
}

#[test]
fn the_index_has_no_entry_for_a_day_without_commits() {
    let index = DailyIndex::new();
    assert_eq!(index.len(), 0);
    assert_eq!(index.count(day(2023, 6, 15)), 0);
    let empty = DailyIndex::from_dates(&Vec::new());
    assert_eq!(empty.len(), 0);
}

#[test]
fn recording_a_commit_raises_one_count() {
    let mut index = DailyIndex::new();
    index.record(day(2023, 6, 15));
    index.record(day(2023, 6, 15));
    index.record(day(2023, 6, 16));
    assert_eq!(index.count(day(2023, 6, 15)), 2);
    assert_eq!(index.count(day(2023, 6, 16)), 1);
}

#[test]
fn the_statistics_sum_the_events_of_each_day() {
    let events = vec![
        StatEvent { date: day(2023, 6, 15), added: 3, deleted: 2 },
        StatEvent { date: day(2023, 6, 16), added: 10, deleted: 0 },
        StatEvent { date: day(2023, 6, 15), added: 4, deleted: 5 },
    ];
    let stats = DailyStats::from_events(&events);
    assert_eq!(stats.totals(day(2023, 6, 15)), DayStats { files: 2, insertions: 7, deletions: 7 });
    assert_eq!(stats.totals(day(2023, 6, 16)), DayStats { files: 1, insertions: 10, deletions: 0 });
    assert_eq!(stats.totals(day(2023, 6, 17)), none());
}

#[test]
fn the_statistics_hold_sums_beyond_32_bits() {
    let mut stats = DailyStats::new();
    for _ in 0..3 {
        stats.record(StatEvent { date: day(2023, 6, 15), added: u32::MAX, deleted: u32::MAX });
    }
    let expected = 3 * u32::MAX as u128;
    assert_eq!(
        stats.totals(day(2023, 6, 15)),
        DayStats { files: 3, insertions: expected, deletions: expected }
    );
}

#[test]
fn aggregation_does_not_depend_on_the_order_of_repositories() {
    let a = || log("2023-01-01\n2023-01-02\n", "2023-01-01\n1\t2\tx\n2023-01-02\n3\t4\ty\n");
    let b = || log("2023-01-02\n2022-05-05\n", "2023-01-02\n5\t6\tz\n-\t-\tbin\n");
    let c = || log("", "");
    let orders = vec![
        vec![a(), b(), c()],
        vec![a(), c(), b()],
        vec![b(), a(), c()],
        vec![b(), c(), a()],
        vec![c(), a(), b()],
        vec![c(), b(), a()],
    ];
    for logs in orders {
        let history = History::gather(&logs);
        assert_eq!(history.index.count(day(2023, 1, 1)), 1);
        assert_eq!(history.index.count(day(2023, 1, 2)), 2);
        assert_eq!(history.index.count(day(2022, 5, 5)), 1);
        assert_eq!(history.index.len(), 3);
        assert_eq!(
            history.stats.totals(day(2023, 1, 1)),
            DayStats { files: 1, insertions: 1, deletions: 2 }
        );
        assert_eq!(
            history.stats.totals(day(2023, 1, 2)),
            DayStats { files: 2, insertions: 8, deletions: 10 }
        );
        assert_eq!(history.stats.totals(day(2022, 5, 5)), none());
    }
}

#[test]
fn the_index_does_not_depend_on_the_order_of_lines() {
    let one = History::gather(&vec![log("2023-01-01\n2023-01-02\n2023-01-01\nnoise\n", "")]);
    let other = History::gather(&vec![log("noise\n2023-01-01\n2023-01-01\n2023-01-02\n", "")]);
    for date in [day(2023, 1, 1), day(2023, 1, 2), day(2023, 1, 3)] {
        assert_eq!(one.index.count(date), other.index.count(date));
    }
    assert_eq!(one.index.count(day(2023, 1, 1)), 2);
}

#[test]
fn skipped_lines_leave_no_trace() {
    let history = History::gather(&vec![log(
        "not a date\n2023-02-30\n\n2023-06-15\n",
        "1\t1\tno date yet\n2023-06-15\n-\t-\tlogo.png\nx\ty\tz\n1\t2\n",
    )]);
    assert_eq!(history.index.len(), 1);
    assert_eq!(history.index.count(day(2023, 6, 15)), 1);
    assert_eq!(history.stats.totals(day(2023, 6, 15)), none());
}

#[test]
fn year_sums_add_up_the_days_of_a_year() {
    let history = History::gather(&vec![log(
        "2023-01-01\n2023-12-31\n2023-12-31\n2024-01-01\n2022-12-31\n2024-02-29\n",
        "2023-12-31\n3\t2\ta\n1\t1\tb\n2024-02-29\n7\t0\tc\n",
    )]);
    assert_eq!(history.year_sum(2023, Measure::Commits), 3);
    assert_eq!(history.year_sum(2024, Measure::Commits), 2);
    assert_eq!(history.year_sum(2022, Measure::Commits), 1);
    assert_eq!(history.year_sum(2021, Measure::Commits), 0);
    assert_eq!(history.year_sum(2023, Measure::Files), 2);
    assert_eq!(history.year_sum(2023, Measure::Insertions), 4);
    assert_eq!(history.year_sum(2023, Measure::Deletions), 3);
    assert_eq!(history.year_sum(2024, Measure::Insertions), 7);
    assert_eq!(history.year_sum(2023, Measure::DaysInBucket(1)), 1);
    assert_eq!(history.year_sum(2023, Measure::DaysInBucket(2)), 1);
    assert_eq!(history.year_sum(2023, Measure::DaysInBucket(0)), 363);
    assert_eq!(history.year_sum(2024, Measure::DaysInBucket(0)), 364);
}

#[test]
fn a_measure_reads_one_day() {
    let history = History::gather(&vec![log(
        "2023-06-15\n2023-06-15\n",
        "2023-06-15\n3\t2\ta\n",
    )]);
    let date = day(2023, 6, 15);
    assert_eq!(history.measure(Measure::Commits, date), 2);
    assert_eq!(history.measure(Measure::DaysInBucket(2), date), 1);
    assert_eq!(history.measure(Measure::DaysInBucket(1), date), 0);
    assert_eq!(history.measure(Measure::Files, date), 1);
    assert_eq!(history.measure(Measure::Insertions, date), 3);
    assert_eq!(history.measure(Measure::Deletions, date), 2);
}

#[test]
fn a_summary_holds_the_sums_of_its_year() {
    let mut dates = String::new();
    for _ in 0..20 {
        dates.push_str("2023-03-01\n");
    }
    for _ in 0..10 {
        dates.push_str("2023-03-02\n");
    }
    for _ in 0..5 {
        dates.push_str("2023-03-03\n");
    }
    dates.push_str("2023-03-04\n2023-03-04\n2023-03-05\n2023-03-06\n");
    let history = History::gather(&vec![log(&dates, "2023-03-01\n1\t2\ta\n")]);
    let summary = history.summarize(2023);
    assert_eq!(summary.year, 2023);
    assert_eq!(summary.commits, 39);
    assert_eq!(summary.files, 1);
    assert_eq!(summary.insertions, 1);
    assert_eq!(summary.deletions, 2);
    assert_eq!(summary.bucket_days, [2, 1, 1, 1, 1]);
}

#[test]
fn year_totals_hold_each_year_with_commits() {
    let history = History::gather(&vec![log(
        "2023-01-01\n2021-05-05\n2023-12-31\n2021-05-05\n2021-05-06\n",
        "",
    )]);
    let mut totals = history.year_totals();
    totals.sort_by_key(|total| total.year);
    assert_eq!(
        totals,
        vec![YearTotal { year: 2021, commits: 3 }, YearTotal { year: 2023, commits: 2 }]
    );
}

#[test]
fn a_year_with_four_commits_is_excluded() {
    let totals = vec![YearTotal { year: 2020, commits: 4 }];
    assert_eq!(select_active_years(&totals), Vec::<i32>::new());
}

#[test]
fn a_year_with_five_commits_is_included() {
    let totals = vec![YearTotal { year: 2020, commits: 5 }];
    assert_eq!(select_active_years(&totals), vec![2020]);
}

#[test]
fn active_years_are_strictly_descending() {
    let totals = vec![
        YearTotal { year: 2019, commits: 50 },
        YearTotal { year: 2023, commits: 5 },
        YearTotal { year: 2021, commits: 4 },
        YearTotal { year: 2020, commits: 6 },
        YearTotal { year: -44, commits: 100 },
        YearTotal { year: 2022, commits: 0 },
    ];
    assert_eq!(select_active_years(&totals), vec![2023, 2020, 2019, -44]);
}

#[test]
fn no_totals_give_no_active_years() {
    assert_eq!(select_active_years(&Vec::new()), Vec::<i32>::new());
}

#[test]
fn a_year_is_inserted_at_its_place_once() {
    let mut years = vec![2023, 2021];
    insert_descending(&mut years, 2022);
    insert_descending(&mut years, 2024);
    insert_descending(&mut years, 2020);
    insert_descending(&mut years, 2022);
    assert_eq!(years, vec![2024, 2023, 2022, 2021, 2020]);
}

#[test]
fn the_active_years_of_a_history() {
    let mut dates = String::new();
    for d in 1..=6 {
        dates.push_str(&format!("2022-03-0{}\n", d));
    }
    for d in 1..=5 {
        dates.push_str(&format!("2021-07-1{}\n", d));
    }
    for d in 1..=4 {
        dates.push_str(&format!("2020-07-1{}\n", d));
    }
    let history = History::gather(&vec![log(&dates, "")]);
    assert_eq!(history.active_years(), vec![2022, 2021]);
}
