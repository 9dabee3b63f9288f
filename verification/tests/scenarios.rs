use commit_calendar::calendar::Date;
use commit_calendar::history::RepoLog;
use commit_calendar::layout::{YEAR_EXTENT, YEAR_GAP};
use commit_calendar::pipeline::generate;
use commit_calendar::stats::DayStats;
use commit_calendar::summary::{History, Measure};
use commit_calendar::theme::Theme;

fn log(dates: &str, changes: &str) -> RepoLog {
    RepoLog { dates: String::from(dates), changes: String::from(changes) }
}

#[test]
fn empty_input_gives_no_active_year_and_one_pixel() {
    let logs = vec![log("", ""), log("", "")];
    let history = History::gather(&logs);
    assert_eq!(history.index.len(), 0);
    assert_eq!(history.year_totals().len(), 0);
    assert_eq!(history.active_years(), Vec::<i32>::new());
    let frame = generate(&logs, &Theme::light());
    assert_eq!((frame.width, frame.height), (1, 1));
    assert!(frame.ops.is_empty());
}

#[test]
fn single_year_single_day() {
    let logs = vec![log(
        "2023-06-15\n2023-01-01\n2023-02-02\n2023-03-03\n2023-04-04\n",
        "2023-06-15\n3\t2\tfoo.txt\n",
    )];
    let history = History::gather(&logs);
    assert_eq!(history.active_years(), vec![2023]);
    assert_eq!(history.year_sum(2023, Measure::Commits), 5);
    assert_eq!(history.index.count(Date { year: 2023, month: 6, day: 15 }), 1);
    assert_eq!(
        history.stats.totals(Date { year: 2023, month: 6, day: 15 }),
        DayStats { files: 1, insertions: 3, deletions: 2 }
    );
    let frame = generate(&logs, &Theme::light());
    assert_eq!((frame.width, frame.height), (1156, 136));
}

#[test]
fn two_active_years() {
    let mut dates = String::new();
    for _ in 0..5 {
        dates.push_str("2021-03-04\n");
    }
    for _ in 0..6 {
        dates.push_str("2022-11-30\n");
    }
    let logs = vec![log(&dates, "")];
    let history = History::gather(&logs);
    assert_eq!(history.year_sum(2022, Measure::Commits), 6);
    assert_eq!(history.year_sum(2021, Measure::Commits), 5);
    assert_eq!(history.active_years(), vec![2022, 2021]);
    let frame = generate(&logs, &Theme::light());
    assert_eq!(frame.height, 2 * (YEAR_EXTENT + YEAR_GAP));
    assert_eq!(frame.width, 1156);
}

#[test]
fn commits_of_several_repositories_fall_on_the_same_day() {
    let logs = vec![
        log("2023-06-15\n2023-06-15\n", "2023-06-15\n1\t1\ta\n"),
        log("2023-06-15\n", "2023-06-15\n2\t2\tb\n"),
        log("2023-06-15\n2023-06-15\n", ""),
    ];
    let history = History::gather(&logs);
    let date = Date { year: 2023, month: 6, day: 15 };
    assert_eq!(history.index.count(date), 5);
    assert_eq!(history.stats.totals(date), DayStats { files: 2, insertions: 3, deletions: 3 });
    assert_eq!(history.active_years(), vec![2023]);
}
