//! Year totals and the selection of the years that are shown.

use crate::calendar::{Date, MAX_YEAR, MIN_YEAR};
use crate::summary::{
    commits_in_year, commits_measure, day_of, lemma_year_sum_covers, lemma_year_sum_witness,
    positive_in_month, positive_in_months, History, Measure,
};
use crate::calendar::spec_days_in_month;
use crate::index::count_at;
use crate::layout::spec_image_height;
use vstd::prelude::*;

verus! {

/// Fewest commits of a year that is shown.
pub const MIN_COMMITS: u128 = 5;

/// The commits of one year.
#[derive(Clone, Copy, Debug, PartialEq, Eq, Structural)]
pub struct YearTotal {
    pub year: i32,
    pub commits: u128,
}

/// Whether some entry is of `year`.
pub open spec fn has_year(totals: Seq<YearTotal>, year: i32) -> bool {
    exists|i: int| 0 <= i < totals.len() && (#[trigger] totals[i]).year == year
}

/// Whether no year has two entries.
pub open spec fn distinct_years(totals: Seq<YearTotal>) -> bool {
    forall|i: int, j: int|
        0 <= i < j < totals.len() ==> (#[trigger] totals[i]).year != (#[trigger] totals[j]).year
}

/// Whether `totals` are the year totals of a daily index: one entry for
/// each year that has a commit, holding the sum of that year's daily counts.
pub open spec fn is_year_totals(index: Map<Date, nat>, totals: Seq<YearTotal>) -> bool {
    &&& distinct_years(totals)
    &&& forall|i: int|
        0 <= i < totals.len() ==> {
            &&& MIN_YEAR <= (#[trigger] totals[i]).year <= MAX_YEAR
            &&& totals[i].commits >= 1
            &&& totals[i].commits == commits_in_year(index, totals[i].year as int)
        }
    &&& forall|year: i32| commits_in_year(index, year as int) > 0 ==> has_year(totals, year)
}

/// Whether each year is later than the next and none occurs twice.
pub open spec fn strictly_descending(years: Seq<i32>) -> bool {
    forall|i: int, j: int| 0 <= i < j < years.len() ==> years[i] > years[j]
}

/// Whether `year` has an entry with enough commits to be shown.
pub open spec fn is_active(totals: Seq<YearTotal>, year: i32) -> bool {
    exists|i: int|
        0 <= i < totals.len() && (#[trigger] totals[i]).year == year && totals[i].commits
            >= MIN_COMMITS
}

/// Whether `years` are the active years of a daily index: the years with at
/// least [`MIN_COMMITS`] commits, the latest first.
pub open spec fn is_active_years(index: Map<Date, nat>, years: Seq<i32>) -> bool {
    &&& strictly_descending(years)
    &&& forall|year: i32|
        years.contains(year) <==> commits_in_year(index, year as int) >= MIN_COMMITS
}

/// Puts `year` into a descending sequence of years, unless it is there already.
pub fn insert_descending(years: &mut Vec<i32>, year: i32)
    requires
        strictly_descending(old(years)@),
    ensures
        strictly_descending(final(years)@),
        forall|y: i32| final(years)@.contains(y) <==> (old(years)@.contains(y) || y == year),
{
    let mut at: usize = 0;
    while at < years.len() && years[at] > year
        invariant
            at <= years.len(),
            years@ == old(years)@,
            strictly_descending(years@),
            forall|j: int| 0 <= j < at ==> years@[j] > year,
        decreases years.len() - at,
    {
        at += 1;
    }
    if at < years.len() && years[at] == year {
        proof {
            assert(years@.contains(year));
        }
        return ;
    }
    years.insert(at, year);
    proof {
        let before = old(years)@;
        let after = years@;
        assert(after == before.insert(at as int, year));
        assert forall|i: int, j: int| 0 <= i < j < after.len() implies after[i] > after[j] by {
            if j < at {
            } else if j == at {
            } else if i < at {
                assert(after[j] == before[j - 1]);
                if at < before.len() {
                    assert(before[at as int] < year);
                    assert(before[j - 1] <= before[at as int]);
                }
            } else if i == at {
                assert(after[j] == before[j - 1]);
                assert(before[j - 1] <= before[at as int]);
            } else {
                assert(after[i] == before[i - 1]);
                assert(after[j] == before[j - 1]);
            }
        }
        assert forall|y: i32| after.contains(y) <==> (before.contains(y) || y == year) by {
            if after.contains(y) {
                let k = choose|k: int| 0 <= k < after.len() && after[k] == y;
                if k < at {
                    assert(before[k] == y);
                } else if k > at {
                    assert(before[k - 1] == y);
                }
            }
            if before.contains(y) {
                let k = choose|k: int| 0 <= k < before.len() && before[k] == y;
                if k < at {
                    assert(after[k] == y);
                } else {
                    assert(after[k + 1] == y);
                }
            }
            if y == year {
                assert(after[at as int] == y);
            }
        }
    }
}

/// The years that are shown: those whose entry has at least
/// [`MIN_COMMITS`] commits, the latest first, each once.
pub fn select_active_years(totals: &Vec<YearTotal>) -> (years: Vec<i32>)
    ensures
        strictly_descending(years@),
        forall|year: i32| years@.contains(year) <==> is_active(totals@, year),
{
    let mut years: Vec<i32> = Vec::new();
    let mut i: usize = 0;
    while i < totals.len()
        invariant
            i <= totals.len(),
            strictly_descending(years@),
            forall|year: i32| years@.contains(year) <==> is_active(totals@.take(i as int), year),
        decreases totals.len() - i,
    {
        let total = totals[i];
        proof {
            let seen = totals@.take(i as int);
            let now = totals@.take(i + 1);
            assert forall|year: i32|
                is_active(now, year) <==> (is_active(seen, year) || (total.year == year
                    && total.commits >= MIN_COMMITS)) by {
                if is_active(now, year) {
                    let k = choose|k: int|
                        0 <= k < now.len() && (#[trigger] now[k]).year == year && now[k].commits
                            >= MIN_COMMITS;
                    if k < i {
                        assert(seen[k].year == year);
                    }
                }
                if is_active(seen, year) {
                    let k = choose|k: int|
                        0 <= k < seen.len() && (#[trigger] seen[k]).year == year
                            && seen[k].commits >= MIN_COMMITS;
                    assert(now[k].year == year);
                }
                if total.year == year && total.commits >= MIN_COMMITS {
                    assert(now[i as int].year == year);
                }
            }
        }
        if total.commits >= MIN_COMMITS {
            insert_descending(&mut years, total.year);
        }
        i += 1;
    }
    proof {
        assert(totals@.take(i as int) == totals@);
    }
    years
}

fn find_year(totals: &Vec<YearTotal>, year: i32) -> (found: bool)
    ensures
        found == has_year(totals@, year),
{
    let mut i: usize = 0;
    while i < totals.len()
        invariant
            i <= totals.len(),
            forall|j: int| 0 <= j < i ==> (#[trigger] totals@[j]).year != year,
        decreases totals.len() - i,
    {
        if totals[i].year == year {
            return true;
        }
        i += 1;
    }
    false
}

impl History {
    /// The year totals: the commits of each year that has any.
    pub fn year_totals(&self) -> (totals: Vec<YearTotal>)
        requires
            self.wf(),
        ensures
            is_year_totals(self.index@, totals@),
    {
        let ghost index = self.index@;
        let ghost days = self.index.days();
        let mut totals: Vec<YearTotal> = Vec::new();
        let n = self.index.len();
        let mut i: usize = 0;
        while i < n
            invariant
                i <= n,
                n == days.len(),
                self.wf(),
                index == self.index@,
                days == self.index.days(),
                distinct_years(totals@),
                forall|k: int|
                    0 <= k < totals.len() ==> {
                        &&& MIN_YEAR <= (#[trigger] totals@[k]).year <= MAX_YEAR
                        &&& totals@[k].commits >= 1
                        &&& totals@[k].commits == commits_in_year(index, totals@[k].year as int)
                    },
                forall|j: int| 0 <= j < i ==> has_year(totals@, (#[trigger] days[j]).year),
            decreases n - i,
        {
            let date = self.index.day(i);
            if !find_year(&totals, date.year) {
                let commits = self.year_sum(date.year, Measure::Commits);
                proof {
                    self.index.lemma_days();
                    assert(days.contains(date));
                    self.index.lemma_entry(date);
                    lemma_year_sum_covers(
                        date.year as int,
                        commits_measure(index),
                        date.month as int,
                        date.day as int,
                    );
                    assert(day_of(date.year as int, date.month as int, date.day as int) == date);
                }
                let ghost before = totals@;
                totals.push(YearTotal { year: date.year, commits });
                proof {
                    assert forall|j: int| 0 <= j < i + 1 implies has_year(
                        totals@,
                        (#[trigger] days[j]).year,
                    ) by {
                        if j < i {
                            let k = choose|k: int|
                                0 <= k < before.len() && (#[trigger] before[k]).year
                                    == days[j].year;
                            assert(totals@[k].year == days[j].year);
                        } else {
                            assert(totals@[before.len() as int].year == days[j].year);
                        }
                    }
                }
            }
            i += 1;
        }
        proof {
            assert forall|year: i32| commits_in_year(index, year as int) > 0 implies has_year(
                totals@,
                year,
            ) by {
                let f = commits_measure(index);
                lemma_year_sum_witness(year as int, f);
                let month = choose|month: int|
                    1 <= month <= 12 && #[trigger] positive_in_month(
                        year as int,
                        month,
                        spec_days_in_month(year as int, month),
                        f,
                    );
                let day = choose|day: int|
                    1 <= day <= spec_days_in_month(year as int, month) && #[trigger] f(
                        day_of(year as int, month, day),
                    ) > 0;
                let date = day_of(year as int, month, day);
                assert(count_at(index, date) > 0);
                self.index.lemma_days();
                assert(days.contains(date));
                let j = choose|j: int| 0 <= j < days.len() && days[j] == date;
                assert(has_year(totals@, days[j].year));
            }
        }
        totals
    }

    /// The active years: the years with at least [`MIN_COMMITS`] commits,
    /// the latest first.
    pub fn active_years(&self) -> (years: Vec<i32>)
        requires
            self.wf(),
        ensures
            years@ == active_years_of(self.index@),
            is_active_years(self.index@, years@),
            forall|i: int| 0 <= i < years.len() ==> MIN_YEAR <= #[trigger] years@[i] <= MAX_YEAR,
            spec_image_height(years.len() as int) <= u32::MAX,
    {
        let totals = self.year_totals();
        let years = select_active_years(&totals);
        proof {
            assert forall|year: i32|
                years@.contains(year) <==> commits_in_year(self.index@, year as int)
                    >= MIN_COMMITS by {
                if is_active(totals@, year) {
                    let k = choose|k: int|
                        0 <= k < totals.len() && (#[trigger] totals@[k]).year == year
                            && totals@[k].commits >= MIN_COMMITS;
                }
                if commits_in_year(self.index@, year as int) >= MIN_COMMITS {
                    assert(has_year(totals@, year));
                    let k = choose|k: int| 0 <= k < totals.len() && (#[trigger] totals@[k]).year == year;
                    assert(totals@[k].commits >= MIN_COMMITS);
                }
            }
            assert forall|i: int| 0 <= i < years.len() implies MIN_YEAR <= #[trigger] years@[i]
                <= MAX_YEAR by {
                assert(years@.contains(years@[i]));
                let k = choose|k: int|
                    0 <= k < totals.len() && (#[trigger] totals@[k]).year == years@[i]
                        && totals@[k].commits >= MIN_COMMITS;
            }
            lemma_active_years(self.index@, years@);
            lemma_descending_length(years@, MIN_YEAR as int, MAX_YEAR as int);
        }
        years
    }
}

/// In a strictly descending sequence the year at position `k` lies at
/// least `k` below the first.
pub proof fn lemma_descent(years: Seq<i32>, k: int)
    requires
        strictly_descending(years),
        0 <= k < years.len(),
    ensures
        years[k] <= years[0] - k,
    decreases k,
{
    if k > 0 {
        lemma_descent(years, k - 1);
    }
}

/// A strictly descending sequence of years between `low` and `high` has no
/// more entries than there are years between the two.
pub proof fn lemma_descending_length(years: Seq<i32>, low: int, high: int)
    requires
        strictly_descending(years),
        forall|i: int| 0 <= i < years.len() ==> low <= #[trigger] years[i] <= high,
    ensures
        years.len() > 0 ==> years.len() <= high - low + 1,
{
    if years.len() > 0 {
        lemma_descent(years, years.len() - 1);
    }
}

/// Two strictly descending sequences that hold the same years are the
/// same sequence.
pub proof fn lemma_descending_unique(a: Seq<i32>, b: Seq<i32>)
    requires
        strictly_descending(a),
        strictly_descending(b),
        forall|year: i32| a.contains(year) <==> b.contains(year),
    ensures
        a == b,
    decreases a.len(),
{
    if a.len() == 0 {
        if b.len() > 0 {
            assert(b.contains(b[0]));
        }
        assert(a =~= b);
    } else {
        assert(a.contains(a[0]));
        let j = choose|j: int| 0 <= j < b.len() && b[j] == a[0];
        assert(b.contains(b[0]));
        let i = choose|i: int| 0 <= i < a.len() && a[i] == b[0];
        assert(a[0] == b[0]);
        let a1 = a.drop_first();
        let b1 = b.drop_first();
        assert forall|year: i32| a1.contains(year) <==> b1.contains(year) by {
            if a1.contains(year) {
                let k = choose|k: int| 0 <= k < a1.len() && a1[k] == year;
                assert(a[k + 1] == year);
                assert(a.contains(year));
                let m = choose|m: int| 0 <= m < b.len() && b[m] == year;
                assert(b1[m - 1] == year);
            }
            if b1.contains(year) {
                let k = choose|k: int| 0 <= k < b1.len() && b1[k] == year;
                assert(b[k + 1] == year);
                assert(b.contains(year));
                let m = choose|m: int| 0 <= m < a.len() && a[m] == year;
                assert(a1[m - 1] == year);
            }
        }
        lemma_descending_unique(a1, b1);
        assert forall|k: int| 0 <= k < a.len() implies a[k] == b[k] by {
            if k > 0 {
                assert(a[k] == a1[k - 1]);
                assert(b[k] == b1[k - 1]);
            }
        }
        assert(a.len() == a1.len() + 1);
        assert(b.len() == b1.len() + 1);
        assert(a =~= b);
    }
}

/// The active years of a daily index: the years with at least
/// [`MIN_COMMITS`] commits, the latest first. There is exactly one such
/// sequence for an index whose keys are days of the calendar.
pub open spec fn active_years_of(index: Map<Date, nat>) -> Seq<i32> {
    choose|years: Seq<i32>| is_active_years(index, years)
}

/// A sequence that holds the active years of an index is the one that
/// [`active_years_of`] names.
pub proof fn lemma_active_years(index: Map<Date, nat>, years: Seq<i32>)
    requires
        is_active_years(index, years),
    ensures
        years == active_years_of(index),
{
    lemma_descending_unique(years, active_years_of(index));
}

} // verus!
