//! What holds of the aggregation whatever the order of its input, and of
//! the image whatever the input.

use crate::calendar::Date;
use crate::history::{all_changes, all_dates, date_events, date_of_line, stat_events, RepoLog, StatEvent};
use crate::index::{commits_on, index_of};
use crate::pipeline::calendar_of;
use crate::render::{blank, frame_of, DrawCmd, FrameView};
use crate::stats::{stats_of, totals_on, with_event, DayTotals};
use crate::summary::{commits_in_year, commits_measure, lemma_year_sum_bounded};
use crate::text::lines_of;
use crate::theme::Theme;
use crate::years::{active_years_of, is_active_years, lemma_active_years};
use vstd::multiset::group_multiset_axioms;
use vstd::prelude::*;
use vstd::seq_lib::lemma_multiset_commutative;

verus! {

/// Whether two sequences hold the same items, each the same number of
/// times: whether one is the other in another order.
pub open spec fn same_items<A>(a: Seq<A>, b: Seq<A>) -> bool {
    a.to_multiset() == b.to_multiset()
}

/// What `f` gives the items, one after the other.
pub open spec fn spread<T, A>(items: Seq<T>, f: spec_fn(T) -> Seq<A>) -> Seq<A>
    decreases items.len(),
{
    if items.len() == 0 {
        Seq::<A>::empty()
    } else {
        spread(items.drop_last(), f) + f(items.last())
    }
}

proof fn lemma_reorder_step<T>(a: Seq<T>, b: Seq<T>) -> (j: int)
    requires
        same_items(a, b),
        a.len() > 0,
    ensures
        a.len() == b.len(),
        0 <= j < b.len(),
        b[j] == a.last(),
        same_items(a.drop_last(), b.remove(j)),
{
    broadcast use group_multiset_axioms;

    let x = a.last();
    let front = a.drop_last();
    a.to_multiset_ensures();
    b.to_multiset_ensures();
    front.to_multiset_ensures();
    assert(a == front.push(x));
    assert(a.to_multiset() =~= front.to_multiset().insert(x));
    assert(b.to_multiset().count(x) > 0);
    assert(b.contains(x));
    let j = choose|j: int| 0 <= j < b.len() && b[j] == x;
    assert(b.remove(j).to_multiset() =~= b.to_multiset().remove(x));
    assert(front.to_multiset() =~= b.remove(j).to_multiset());
    j
}

proof fn lemma_same_items_empty<T>(a: Seq<T>, b: Seq<T>)
    requires
        same_items(a, b),
    ensures
        a.len() == b.len(),
{
    a.to_multiset_ensures();
    b.to_multiset_ensures();
}

proof fn lemma_spread_remove<T, A>(items: Seq<T>, i: int, f: spec_fn(T) -> Seq<A>)
    requires
        0 <= i < items.len(),
    ensures
        spread(items, f).to_multiset() == spread(items.remove(i), f).to_multiset().add(
            f(items[i]).to_multiset(),
        ),
    decreases items.len(),
{
    broadcast use group_multiset_axioms;

    let last = items.last();
    let front = items.drop_last();
    lemma_multiset_commutative(spread(front, f), f(last));
    if i == items.len() - 1 {
        assert(items.remove(i) == front);
    } else {
        lemma_spread_remove(front, i, f);
        assert(items.remove(i).drop_last() == front.remove(i));
        assert(items.remove(i).last() == last);
        lemma_multiset_commutative(spread(front.remove(i), f), f(last));
        assert(spread(items, f).to_multiset() =~= spread(items.remove(i), f).to_multiset().add(
            f(items[i]).to_multiset(),
        ));
    }
}

/// Spreading a function over the same items in another order gives the
/// same results in another order.
pub proof fn lemma_spread_reordered<T, A>(a: Seq<T>, b: Seq<T>, f: spec_fn(T) -> Seq<A>)
    requires
        same_items(a, b),
    ensures
        same_items(spread(a, f), spread(b, f)),
    decreases a.len(),
{
    broadcast use group_multiset_axioms;

    lemma_same_items_empty(a, b);
    if a.len() > 0 {
        let j = lemma_reorder_step(a, b);
        lemma_spread_reordered(a.drop_last(), b.remove(j), f);
        lemma_spread_remove(b, j, f);
        lemma_multiset_commutative(spread(a.drop_last(), f), f(a.last()));
    }
}

/// The commit dates that one line of a date log gives: one or none.
pub open spec fn line_dates() -> spec_fn(Seq<char>) -> Seq<Date> {
    |line: Seq<char>|
        match date_of_line(line) {
            Some(date) => seq![date],
            None => Seq::<Date>::empty(),
        }
}

/// The commit dates that the date log of one repository gives.
pub open spec fn log_dates() -> spec_fn(RepoLog) -> Seq<Date> {
    |log: RepoLog| date_events(lines_of(log.dates@))
}

/// The change events that the change log of one repository gives.
pub open spec fn log_changes() -> spec_fn(RepoLog) -> Seq<StatEvent> {
    |log: RepoLog| stat_events(lines_of(log.changes@))
}

proof fn lemma_date_events_spread(lines: Seq<Seq<char>>)
    ensures
        date_events(lines) == spread(lines, line_dates()),
    decreases lines.len(),
{
    if lines.len() > 0 {
        lemma_date_events_spread(lines.drop_last());
        assert(date_events(lines) =~= spread(lines.drop_last(), line_dates()) + line_dates()(
            lines.last(),
        ));
    }
}

proof fn lemma_all_dates_spread(logs: Seq<RepoLog>)
    ensures
        all_dates(logs) == spread(logs, log_dates()),
    decreases logs.len(),
{
    if logs.len() > 0 {
        lemma_all_dates_spread(logs.drop_last());
    }
}

proof fn lemma_all_changes_spread(logs: Seq<RepoLog>)
    ensures
        all_changes(logs) == spread(logs, log_changes()),
    decreases logs.len(),
{
    if logs.len() > 0 {
        lemma_all_changes_spread(logs.drop_last());
    }
}

proof fn lemma_totals_remove(events: Seq<StatEvent>, i: int, date: Date)
    requires
        0 <= i < events.len(),
    ensures
        totals_on(events, date) == (if events[i].date == date {
            with_event(totals_on(events.remove(i), date), events[i])
        } else {
            totals_on(events.remove(i), date)
        }),
    decreases events.len(),
{
    if i == events.len() - 1 {
        assert(events.remove(i) == events.drop_last());
    } else {
        lemma_totals_remove(events.drop_last(), i, date);
        assert(events.remove(i).drop_last() == events.drop_last().remove(i));
        assert(events.remove(i).last() == events.last());
    }
}

proof fn lemma_totals_reordered(a: Seq<StatEvent>, b: Seq<StatEvent>, date: Date)
    requires
        same_items(a, b),
    ensures
        totals_on(a, date) == totals_on(b, date),
    decreases a.len(),
{
    lemma_same_items_empty(a, b);
    if a.len() > 0 {
        let j = lemma_reorder_step(a, b);
        lemma_totals_reordered(a.drop_last(), b.remove(j), date);
        lemma_totals_remove(b, j, date);
    }
}

/// The daily index does not depend on the order of the commit dates.
pub proof fn lemma_index_ignores_order(dates: Seq<Date>, reordered: Seq<Date>)
    requires
        same_items(dates, reordered),
    ensures
        index_of(dates) == index_of(reordered),
{
    assert(index_of(dates) =~= index_of(reordered));
}

/// The daily statistics do not depend on the order of the change events.
pub proof fn lemma_stats_ignore_order(events: Seq<StatEvent>, reordered: Seq<StatEvent>)
    requires
        same_items(events, reordered),
    ensures
        stats_of(events) == stats_of(reordered),
{
    assert forall|date: Date| totals_on(events, date) == totals_on(reordered, date) by {
        lemma_totals_reordered(events, reordered, date);
    }
    assert(stats_of(events) =~= stats_of(reordered));
}

/// The daily index does not depend on the order of the lines of a date log.
pub proof fn lemma_index_ignores_line_order(lines: Seq<Seq<char>>, reordered: Seq<Seq<char>>)
    requires
        same_items(lines, reordered),
    ensures
        index_of(date_events(lines)) == index_of(date_events(reordered)),
{
    lemma_date_events_spread(lines);
    lemma_date_events_spread(reordered);
    lemma_spread_reordered(lines, reordered, line_dates());
    lemma_index_ignores_order(date_events(lines), date_events(reordered));
}

/// The daily statistics do not depend on the order of the lines of a
/// change log, as long as the reordered lines give the same events: as long
/// as every change line stays under a date line of the same date.
pub proof fn lemma_stats_ignore_line_order(lines: Seq<Seq<char>>, reordered: Seq<Seq<char>>)
    requires
        same_items(lines, reordered),
        same_items(stat_events(lines), stat_events(reordered)),
    ensures
        stats_of(stat_events(lines)) == stats_of(stat_events(reordered)),
{
    lemma_stats_ignore_order(stat_events(lines), stat_events(reordered));
}

/// Neither the daily index nor the daily statistics depend on the order
/// in which the repositories are read.
pub proof fn lemma_aggregation_ignores_repository_order(logs: Seq<RepoLog>, reordered: Seq<RepoLog>)
    requires
        same_items(logs, reordered),
    ensures
        index_of(all_dates(logs)) == index_of(all_dates(reordered)),
        stats_of(all_changes(logs)) == stats_of(all_changes(reordered)),
{
    lemma_all_dates_spread(logs);
    lemma_all_dates_spread(reordered);
    lemma_spread_reordered(logs, reordered, log_dates());
    lemma_index_ignores_order(all_dates(logs), all_dates(reordered));
    lemma_all_changes_spread(logs);
    lemma_all_changes_spread(reordered);
    lemma_spread_reordered(logs, reordered, log_changes());
    lemma_stats_ignore_order(all_changes(logs), all_changes(reordered));
}

/// The totals of two groups of events taken together.
pub open spec fn plus(a: DayTotals, b: DayTotals) -> DayTotals {
    DayTotals {
        files: a.files + b.files,
        insertions: a.insertions + b.insertions,
        deletions: a.deletions + b.deletions,
    }
}

proof fn lemma_spread_concat<T, A>(a: Seq<T>, b: Seq<T>, f: spec_fn(T) -> Seq<A>)
    ensures
        spread(a + b, f) == spread(a, f) + spread(b, f),
    decreases b.len(),
{
    if b.len() == 0 {
        assert(a + b == a);
        assert(spread(a, f) + spread(b, f) == spread(a, f));
    } else {
        assert((a + b).drop_last() == a + b.drop_last());
        assert((a + b).last() == b.last());
        lemma_spread_concat(a, b.drop_last(), f);
        assert(spread(a + b, f) == spread(a, f) + spread(b, f));
    }
}

proof fn lemma_totals_concat(a: Seq<StatEvent>, b: Seq<StatEvent>, date: Date)
    ensures
        totals_on(a + b, date) == plus(totals_on(a, date), totals_on(b, date)),
    decreases b.len(),
{
    if b.len() == 0 {
        assert(a + b == a);
    } else {
        assert((a + b).drop_last() == a + b.drop_last());
        assert((a + b).last() == b.last());
        lemma_totals_concat(a, b.drop_last(), date);
    }
}

/// Aggregation adds up: the counts and totals of two groups of
/// repositories read together are the sums of what each group gives alone,
/// so it does not matter how the repositories are grouped.
pub proof fn lemma_aggregation_adds_up(first: Seq<RepoLog>, second: Seq<RepoLog>, date: Date)
    ensures
        commits_on(all_dates(first + second), date) == commits_on(all_dates(first), date)
            + commits_on(all_dates(second), date),
        totals_on(all_changes(first + second), date) == plus(
            totals_on(all_changes(first), date),
            totals_on(all_changes(second), date),
        ),
{
    broadcast use group_multiset_axioms;

    lemma_all_dates_spread(first);
    lemma_all_dates_spread(second);
    lemma_all_dates_spread(first + second);
    lemma_spread_concat(first, second, log_dates());
    lemma_multiset_commutative(all_dates(first), all_dates(second));
    lemma_all_changes_spread(first);
    lemma_all_changes_spread(second);
    lemma_all_changes_spread(first + second);
    lemma_spread_concat(first, second, log_changes());
    lemma_totals_concat(all_changes(first), all_changes(second), date);
}

/// Whether two sequences of logs hold the same texts at the same places.
pub open spec fn same_texts(a: Seq<RepoLog>, b: Seq<RepoLog>) -> bool {
    &&& a.len() == b.len()
    &&& forall|i: int|
        0 <= i < a.len() ==> (#[trigger] a[i]).dates@ == b[i].dates@ && a[i].changes@
            == b[i].changes@
}

/// Logs of the same texts give the same daily index, the same daily
/// statistics and the same image: the result is a function of the texts
/// and the theme, and of nothing else.
pub proof fn lemma_same_texts_same_result(a: Seq<RepoLog>, b: Seq<RepoLog>, theme: Theme)
    requires
        same_texts(a, b),
    ensures
        index_of(all_dates(a)) == index_of(all_dates(b)),
        stats_of(all_changes(a)) == stats_of(all_changes(b)),
        calendar_of(a, theme) == calendar_of(b, theme),
{
    lemma_same_texts(a, b);
}

proof fn lemma_same_texts(a: Seq<RepoLog>, b: Seq<RepoLog>)
    requires
        same_texts(a, b),
    ensures
        all_dates(a) == all_dates(b),
        all_changes(a) == all_changes(b),
    decreases a.len(),
{
    if a.len() > 0 {
        assert(a.last().dates@ == b.last().dates@) by {
            assert(a[a.len() - 1].dates@ == b[a.len() - 1].dates@);
        }
        assert(a.last().changes@ == b.last().changes@) by {
            assert(a[a.len() - 1].changes@ == b[a.len() - 1].changes@);
        }
        assert(same_texts(a.drop_last(), b.drop_last())) by {
            assert forall|i: int| 0 <= i < a.drop_last().len() implies (#[trigger] a.drop_last()[i]).dates@
                == b.drop_last()[i].dates@ && a.drop_last()[i].changes@
                == b.drop_last()[i].changes@ by {
                assert(a[i].dates@ == b[i].dates@);
            }
        }
        lemma_same_texts(a.drop_last(), b.drop_last());
    }
}

/// The image without commits: one blank pixel and nothing drawn on it.
pub open spec fn placeholder() -> FrameView {
    FrameView { width: 1, height: 1, background: blank(), ops: Seq::<DrawCmd>::empty() }
}

/// An index without commits has no active year.
pub proof fn lemma_no_commits_no_years()
    ensures
        index_of(Seq::<Date>::empty()) == Map::<Date, nat>::empty(),
        active_years_of(Map::<Date, nat>::empty()) == Seq::<i32>::empty(),
{
    broadcast use group_multiset_axioms;

    let index = Map::<Date, nat>::empty();
    Seq::<Date>::empty().to_multiset_ensures();
    assert(index_of(Seq::<Date>::empty()) =~= index);
    assert forall|year: i32| commits_in_year(index, year as int) == 0 by {
        lemma_year_sum_bounded(year as int, commits_measure(index), 0);
    }
    assert(is_active_years(index, Seq::<i32>::empty()));
    lemma_active_years(index, Seq::<i32>::empty());
}

/// Logs without a commit date give the placeholder image, whatever the
/// change logs hold.
pub proof fn lemma_no_commits_placeholder(logs: Seq<RepoLog>, theme: Theme)
    requires
        all_dates(logs).len() == 0,
    ensures
        calendar_of(logs, theme) == placeholder(),
{
    lemma_no_commits_no_years();
    assert(all_dates(logs) =~= Seq::<Date>::empty());
}

/// The image is the placeholder if and only if no year is shown.
pub proof fn lemma_placeholder_iff_no_years(
    index: Map<Date, nat>,
    stats: Map<Date, DayTotals>,
    theme: Theme,
    years: Seq<i32>,
)
    ensures
        years.len() == 0 <==> frame_of(index, stats, theme, years) == placeholder(),
{
}

} // verus!
