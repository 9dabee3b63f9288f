//! The aggregated history of all repositories, and its sums over the days
//! of a year.

use crate::calendar::{days_in_month, spec_days_in_month, Date};
use crate::history::{all_changes, all_dates, gather_changes, gather_dates, RepoLog};
use crate::index::{count_at, index_of, DailyIndex};
use crate::intensity::{classify, spec_classify};
use crate::stats::{stats_of, totals_at, DailyStats, DayTotals, SUM_LIMIT};
use vstd::prelude::*;

verus! {

/// The date written with the given numbers.
pub open spec fn day_of(year: int, month: int, day: int) -> Date {
    Date { year: year as i32, month: month as u8, day: day as u8 }
}

/// The sum of `f` over the first `days` days of a month.
pub open spec fn month_sum(year: int, month: int, days: int, f: spec_fn(Date) -> nat) -> nat
    decreases days,
{
    if days <= 0 {
        0
    } else {
        month_sum(year, month, days - 1, f) + f(day_of(year, month, days))
    }
}

/// The sum of `f` over all days of the first `months` months of a year.
pub open spec fn months_sum(year: int, months: int, f: spec_fn(Date) -> nat) -> nat
    decreases months,
{
    if months <= 0 {
        0
    } else {
        months_sum(year, months - 1, f) + month_sum(
            year,
            months,
            spec_days_in_month(year, months),
            f,
        )
    }
}

/// The sum of `f` over all days of a year.
pub open spec fn year_sum(year: int, f: spec_fn(Date) -> nat) -> nat {
    months_sum(year, 12, f)
}

/// A sum over a year is at least what any one of its days contributes.
pub proof fn lemma_year_sum_covers(year: int, f: spec_fn(Date) -> nat, month: int, day: int)
    requires
        1 <= month <= 12,
        1 <= day <= spec_days_in_month(year, month),
    ensures
        year_sum(year, f) >= f(day_of(year, month, day)),
{
    lemma_months_sum_covers(year, 12, f, month, day);
}

proof fn lemma_month_sum_covers(
    year: int,
    month: int,
    days: int,
    f: spec_fn(Date) -> nat,
    day: int,
)
    requires
        1 <= day <= days,
    ensures
        month_sum(year, month, days, f) >= f(day_of(year, month, day)),
    decreases days,
{
    if day < days {
        lemma_month_sum_covers(year, month, days - 1, f, day);
    }
}

proof fn lemma_months_sum_covers(
    year: int,
    months: int,
    f: spec_fn(Date) -> nat,
    month: int,
    day: int,
)
    requires
        1 <= month <= months,
        1 <= day <= spec_days_in_month(year, month),
    ensures
        months_sum(year, months, f) >= f(day_of(year, month, day)),
    decreases months,
{
    if month < months {
        lemma_months_sum_covers(year, months - 1, f, month, day);
    } else {
        lemma_month_sum_covers(year, month, spec_days_in_month(year, month), f, day);
    }
}

/// Whether `f` is positive on some day among the first `days` of a month.
pub open spec fn positive_in_month(year: int, month: int, days: int, f: spec_fn(Date) -> nat) -> bool {
    exists|day: int| 1 <= day <= days && #[trigger] f(day_of(year, month, day)) > 0
}

/// Whether `f` is positive on some day of the first `months` months of a year.
pub open spec fn positive_in_months(year: int, months: int, f: spec_fn(Date) -> nat) -> bool {
    exists|month: int|
        1 <= month <= months && #[trigger] positive_in_month(
            year,
            month,
            spec_days_in_month(year, month),
            f,
        )
}

/// A sum over a year is positive only if one of its days contributes.
pub proof fn lemma_year_sum_witness(year: int, f: spec_fn(Date) -> nat)
    requires
        year_sum(year, f) > 0,
    ensures
        positive_in_months(year, 12, f),
{
    lemma_months_sum_witness(year, 12, f);
}

proof fn lemma_month_sum_witness(year: int, month: int, days: int, f: spec_fn(Date) -> nat)
    requires
        month_sum(year, month, days, f) > 0,
    ensures
        positive_in_month(year, month, days, f),
    decreases days,
{
    if days > 0 {
        if f(day_of(year, month, days)) > 0 {
        } else {
            lemma_month_sum_witness(year, month, days - 1, f);
            let day = choose|day: int|
                1 <= day <= days - 1 && #[trigger] f(day_of(year, month, day)) > 0;
            assert(f(day_of(year, month, day)) > 0);
        }
    }
}

proof fn lemma_months_sum_witness(year: int, months: int, f: spec_fn(Date) -> nat)
    requires
        months_sum(year, months, f) > 0,
    ensures
        positive_in_months(year, months, f),
    decreases months,
{
    if months > 0 {
        if month_sum(year, months, spec_days_in_month(year, months), f) > 0 {
            lemma_month_sum_witness(year, months, spec_days_in_month(year, months), f);
        } else {
            lemma_months_sum_witness(year, months - 1, f);
            let month = choose|month: int|
                1 <= month <= months - 1 && #[trigger] positive_in_month(
                    year,
                    month,
                    spec_days_in_month(year, month),
                    f,
                );
            assert(positive_in_month(year, month, spec_days_in_month(year, month), f));
        }
    }
}

/// A sum over a year of a function that never exceeds `bound` is at most
/// `bound` for each of its days; twelve months have at most 31 days each.
pub proof fn lemma_year_sum_bounded(year: int, f: spec_fn(Date) -> nat, bound: nat)
    requires
        forall|date: Date| #[trigger] f(date) <= bound,
    ensures
        year_sum(year, f) <= 372 * bound,
{
    lemma_months_sum_bounded(year, 12, f, bound);
}

proof fn lemma_month_sum_bounded(
    year: int,
    month: int,
    days: int,
    f: spec_fn(Date) -> nat,
    bound: nat,
)
    requires
        forall|date: Date| #[trigger] f(date) <= bound,
        0 <= days,
    ensures
        month_sum(year, month, days, f) <= days * bound,
    decreases days,
{
    if days > 0 {
        lemma_month_sum_bounded(year, month, days - 1, f, bound);
        assert((days - 1) * bound + bound == days * bound) by (nonlinear_arith);
    }
}

proof fn lemma_months_sum_bounded(year: int, months: int, f: spec_fn(Date) -> nat, bound: nat)
    requires
        forall|date: Date| #[trigger] f(date) <= bound,
        0 <= months <= 12,
    ensures
        months_sum(year, months, f) <= months * 31 * bound,
    decreases months,
{
    if months > 0 {
        lemma_months_sum_bounded(year, months - 1, f, bound);
        let days = spec_days_in_month(year, months);
        lemma_month_sum_bounded(year, months, days, f, bound);
        assert(days * bound <= 31 * bound) by (nonlinear_arith)
            requires
                0 <= days <= 31,
        ;
        assert((months - 1) * 31 * bound + 31 * bound == months * 31 * bound)
            by (nonlinear_arith);
    }
}

/// The commits of each day.
pub open spec fn commits_measure(index: Map<Date, nat>) -> spec_fn(Date) -> nat {
    |date: Date| count_at(index, date)
}

/// 1 for each day whose commit count falls into `bucket`, 0 for the others.
pub open spec fn bucket_measure(index: Map<Date, nat>, bucket: u8) -> spec_fn(Date) -> nat {
    |date: Date|
        if spec_classify(count_at(index, date)) == bucket {
            1nat
        } else {
            0nat
        }
}

/// The changed files of each day.
pub open spec fn files_measure(stats: Map<Date, DayTotals>) -> spec_fn(Date) -> nat {
    |date: Date| totals_at(stats, date).files
}

/// The added lines of each day.
pub open spec fn insertions_measure(stats: Map<Date, DayTotals>) -> spec_fn(Date) -> nat {
    |date: Date| totals_at(stats, date).insertions
}

/// The deleted lines of each day.
pub open spec fn deletions_measure(stats: Map<Date, DayTotals>) -> spec_fn(Date) -> nat {
    |date: Date| totals_at(stats, date).deletions
}

/// What to add up over the days of a year.
#[derive(Clone, Copy, Debug, PartialEq, Eq, Structural)]
pub enum Measure {
    /// Commits.
    Commits,
    /// Days whose commit count falls into the given bucket.
    DaysInBucket(u8),
    /// Changed files.
    Files,
    /// Added lines.
    Insertions,
    /// Deleted lines.
    Deletions,
}

/// What a measure gives each day.
pub open spec fn measure_of(index: Map<Date, nat>, stats: Map<Date, DayTotals>, measure: Measure)
    -> spec_fn(Date) -> nat {
    match measure {
        Measure::Commits => commits_measure(index),
        Measure::DaysInBucket(bucket) => bucket_measure(index, bucket),
        Measure::Files => files_measure(stats),
        Measure::Insertions => insertions_measure(stats),
        Measure::Deletions => deletions_measure(stats),
    }
}

/// The commits of a year.
pub open spec fn commits_in_year(index: Map<Date, nat>, year: int) -> nat {
    year_sum(year, commits_measure(index))
}

/// The daily index and the daily statistics of all repositories.
#[derive(Debug)]
pub struct History {
    pub index: DailyIndex,
    pub stats: DailyStats,
}

/// The sums of one year, as numbers without a machine limit.
pub struct YearFigures {
    pub year: int,
    pub commits: nat,
    pub files: nat,
    pub insertions: nat,
    pub deletions: nat,
    /// Number of days per bucket, for the buckets 1 to 5 in this order.
    pub bucket_days: Seq<nat>,
}

/// The sums of `year` over a daily index and daily statistics: its
/// commits, its changed files, its added and its deleted lines, and for
/// each of the buckets 1 to 5 the number of its days in that bucket.
pub open spec fn figures_of(index: Map<Date, nat>, stats: Map<Date, DayTotals>, year: int)
    -> YearFigures {
    YearFigures {
        year,
        commits: commits_in_year(index, year),
        files: year_sum(year, files_measure(stats)),
        insertions: year_sum(year, insertions_measure(stats)),
        deletions: year_sum(year, deletions_measure(stats)),
        bucket_days: Seq::new(5, |row: int| year_sum(year, bucket_measure(index, (row + 1) as u8))),
    }
}

/// The sums of one year.
#[derive(Clone, Copy, Debug)]
pub struct YearSummary {
    pub year: i32,
    pub commits: u128,
    pub files: u128,
    pub insertions: u128,
    pub deletions: u128,
    /// Number of days per bucket, for the buckets 1 to 5 in this order.
    pub bucket_days: [u32; 5],
}

impl View for YearSummary {
    type V = YearFigures;

    open spec fn view(&self) -> YearFigures {
        YearFigures {
            year: self.year as int,
            commits: self.commits as nat,
            files: self.files as nat,
            insertions: self.insertions as nat,
            deletions: self.deletions as nat,
            bucket_days: Seq::new(5, |row: int| self.bucket_days@[row] as nat),
        }
    }
}

impl History {
    /// Both parts are well formed.
    pub open spec fn wf(&self) -> bool {
        self.index.wf() && self.stats.wf()
    }

    /// Reads the logs of all repositories and aggregates them. The result
    /// depends on the commit dates and change events only, not on their order.
    pub fn gather(logs: &Vec<RepoLog>) -> (history: History)
        ensures
            history.wf(),
            history.index@ == index_of(all_dates(logs@)),
            history.stats@ == stats_of(all_changes(logs@)),
    {
        let dates = gather_dates(logs);
        let events = gather_changes(logs);
        History { index: DailyIndex::from_dates(&dates), stats: DailyStats::from_events(&events) }
    }

    /// What `measure` gives `date`.
    pub fn measure(&self, measure: Measure, date: Date) -> (value: u128)
        requires
            self.wf(),
        ensures
            value == measure_of(self.index@, self.stats@, measure)(date),
            value <= SUM_LIMIT,
    {
        match measure {
            Measure::Commits => self.index.count(date) as u128,
            Measure::DaysInBucket(bucket) => if classify(self.index.count(date)) == bucket {
                1
            } else {
                0
            },
            Measure::Files => self.stats.totals(date).files as u128,
            Measure::Insertions => self.stats.totals(date).insertions,
            Measure::Deletions => self.stats.totals(date).deletions,
        }
    }

    /// The sum of `measure` over the days of `year`.
    pub fn year_sum(&self, year: i32, measure: Measure) -> (sum: u128)
        requires
            self.wf(),
        ensures
            sum == year_sum(year as int, measure_of(self.index@, self.stats@, measure)),
    {
        let ghost f = measure_of(self.index@, self.stats@, measure);
        let mut sum: u128 = 0;
        let mut month: u32 = 1;
        while month <= 12
            invariant
                1 <= month <= 13,
                self.wf(),
                f == measure_of(self.index@, self.stats@, measure),
                sum == months_sum(year as int, month - 1, f),
                sum <= (month - 1) * 31 * SUM_LIMIT,
            decreases 13 - month,
        {
            let days = days_in_month(year, month);
            let ghost base = sum;
            let mut day: u32 = 1;
            while day <= days
                invariant
                    1 <= month <= 12,
                    1 <= day <= days + 1,
                    days == spec_days_in_month(year as int, month as int),
                    self.wf(),
                    f == measure_of(self.index@, self.stats@, measure),
                    base <= (month - 1) * 31 * SUM_LIMIT,
                    sum == base + month_sum(year as int, month as int, day - 1, f),
                    sum <= base + (day - 1) * SUM_LIMIT,
                decreases days + 1 - day,
            {
                let value = self.measure(measure, Date { year, month: month as u8, day: day as u8 });
                sum = sum + value;
                day += 1;
            }
            month += 1;
        }
        sum
    }

    /// The sums of `year`.
    pub fn summarize(&self, year: i32) -> (summary: YearSummary)
        requires
            self.wf(),
        ensures
            summary@ == figures_of(self.index@, self.stats@, year as int),
    {
        let commits = self.year_sum(year, Measure::Commits);
        let files = self.year_sum(year, Measure::Files);
        let insertions = self.year_sum(year, Measure::Insertions);
        let deletions = self.year_sum(year, Measure::Deletions);
        let mut bucket_days: [u32; 5] = [0, 0, 0, 0, 0];
        let mut row: usize = 0;
        while row < 5
            invariant
                row <= 5,
                self.wf(),
                forall|r: int|
                    0 <= r < row ==> #[trigger] bucket_days@[r] == year_sum(
                        year as int,
                        bucket_measure(self.index@, (r + 1) as u8),
                    ),
            decreases 5 - row,
        {
            let bucket = (row + 1) as u8;
            let days = self.year_sum(year, Measure::DaysInBucket(bucket));
            proof {
                lemma_year_sum_bounded(year as int, bucket_measure(self.index@, bucket), 1);
            }
            bucket_days.set(row, days as u32);
            row += 1;
        }
        let summary = YearSummary { year, commits, files, insertions, deletions, bucket_days };
        proof {
            assert(summary@.bucket_days =~= figures_of(
                self.index@,
                self.stats@,
                year as int,
            ).bucket_days);
        }
        summary
    }
}

} // verus!
