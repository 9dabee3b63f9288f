//! The daily statistics: files changed, lines added and lines deleted on
//! each calendar day.

use crate::calendar::Date;
use crate::history::{all_dated, StatEvent};
use crate::table::DayTable;
use vstd::prelude::*;

verus! {

/// The change totals of one day, as numbers without a machine limit.
pub struct DayTotals {
    pub files: nat,
    pub insertions: nat,
    pub deletions: nat,
}

/// The totals of a day without changes.
pub open spec fn no_totals() -> DayTotals {
    DayTotals { files: 0, insertions: 0, deletions: 0 }
}

/// The totals after one more changed file.
pub open spec fn with_event(totals: DayTotals, event: StatEvent) -> DayTotals {
    DayTotals {
        files: totals.files + 1,
        insertions: totals.insertions + event.added as nat,
        deletions: totals.deletions + event.deleted as nat,
    }
}

/// The totals of `date` over a sequence of events: the number of events of
/// that date, and the sums of their added and of their deleted lines.
pub open spec fn totals_on(events: Seq<StatEvent>, date: Date) -> DayTotals
    decreases events.len(),
{
    if events.len() == 0 {
        no_totals()
    } else {
        let before = totals_on(events.drop_last(), date);
        if events.last().date == date {
            with_event(before, events.last())
        } else {
            before
        }
    }
}

/// The daily statistics of a sequence of events: each date that has an
/// event, with its totals. A date without events is no key.
pub open spec fn stats_of(events: Seq<StatEvent>) -> Map<Date, DayTotals> {
    Map::new(|date: Date| totals_on(events, date).files > 0, |date: Date| totals_on(events, date))
}

/// The totals that daily statistics give a date: its entry, or zeros where
/// it has none.
pub open spec fn totals_at(stats: Map<Date, DayTotals>, date: Date) -> DayTotals {
    if stats.dom().contains(date) {
        stats[date]
    } else {
        no_totals()
    }
}

/// Largest sum of added or of deleted lines that one day can hold.
pub const SUM_LIMIT: u128 = 0x1_0000_0000_0000_0000_0000_0000;

/// The totals of a day never exceed what the number of events allows.
pub proof fn lemma_totals_bounded(events: Seq<StatEvent>, date: Date)
    ensures
        totals_on(events, date).files <= events.len(),
        totals_on(events, date).insertions <= events.len() * u32::MAX,
        totals_on(events, date).deletions <= events.len() * u32::MAX,
    decreases events.len(),
{
    if events.len() > 0 {
        lemma_totals_bounded(events.drop_last(), date);
    }
}

/// A day without events has no added and no deleted lines.
pub proof fn lemma_totals_none(events: Seq<StatEvent>, date: Date)
    requires
        totals_on(events, date).files == 0,
    ensures
        totals_on(events, date) == no_totals(),
    decreases events.len(),
{
    if events.len() > 0 {
        if events.last().date != date {
            lemma_totals_none(events.drop_last(), date);
        }
    }
}

/// Adding one event to a sequence adds it to the totals of its date and
/// leaves every other entry as it was.
pub proof fn lemma_stats_of_push(events: Seq<StatEvent>, event: StatEvent)
    ensures
        stats_of(events.push(event)) == stats_of(events).insert(
            event.date,
            with_event(totals_at(stats_of(events), event.date), event),
        ),
{
    assert(events.push(event).drop_last() == events);
    assert forall|date: Date|
        totals_on(events.push(event), date) == (if date == event.date {
            with_event(totals_on(events, date), event)
        } else {
            totals_on(events, date)
        }) by {}
    if totals_on(events, event.date).files == 0 {
        lemma_totals_none(events, event.date);
    }
    assert(stats_of(events.push(event)) =~= stats_of(events).insert(
        event.date,
        with_event(totals_at(stats_of(events), event.date), event),
    ));
}

/// The change totals of one day.
#[derive(Clone, Copy, Debug, PartialEq, Eq, Structural)]
pub struct DayStats {
    pub files: u64,
    pub insertions: u128,
    pub deletions: u128,
}

impl View for DayStats {
    type V = DayTotals;

    open spec fn view(&self) -> DayTotals {
        DayTotals {
            files: self.files as nat,
            insertions: self.insertions as nat,
            deletions: self.deletions as nat,
        }
    }
}

/// Change totals by calendar day. Its view is the map from each day that
/// has a changed file to the totals of that day.
#[derive(Debug)]
pub struct DailyStats {
    table: DayTable<DayStats>,
}

impl View for DailyStats {
    type V = Map<Date, DayTotals>;

    closed spec fn view(&self) -> Map<Date, DayTotals> {
        Map::new(|date: Date| self.table@.dom().contains(date), |date: Date| self.table@[date]@)
    }
}

impl DailyStats {
    /// Every key is a day of the calendar with at least one changed file,
    /// and no sum exceeds [`SUM_LIMIT`].
    pub closed spec fn wf(&self) -> bool {
        &&& self.table.wf()
        &&& forall|date: Date| #[trigger]
            self.table@.dom().contains(date) ==> {
                &&& date.valid()
                &&& self.table@[date].files >= 1
                &&& self.table@[date].insertions <= SUM_LIMIT
                &&& self.table@[date].deletions <= SUM_LIMIT
            }
    }

    /// In well-formed statistics every key is a day of the calendar with at
    /// least one changed file, and its totals are within the machine's limits.
    pub proof fn lemma_entry(&self, date: Date)
        requires
            self.wf(),
            self@.dom().contains(date),
        ensures
            date.valid(),
            1 <= self@[date].files <= u64::MAX,
            self@[date].insertions <= SUM_LIMIT,
            self@[date].deletions <= SUM_LIMIT,
    {
    }

    /// Statistics without entries.
    pub fn new() -> (stats: DailyStats)
        ensures
            stats.wf(),
            stats@ == Map::<Date, DayTotals>::empty(),
    {
        let stats = DailyStats { table: DayTable::new() };
        assert(stats@ =~= Map::<Date, DayTotals>::empty());
        stats
    }

    /// The totals of `date`, zeros where the statistics have no entry.
    pub fn totals(&self, date: Date) -> (totals: DayStats)
        requires
            self.wf(),
        ensures
            totals@ == totals_at(self@, date),
            totals.insertions <= SUM_LIMIT,
            totals.deletions <= SUM_LIMIT,
    {
        match self.table.get(date) {
            Some(totals) => totals,
            None => DayStats { files: 0, insertions: 0, deletions: 0 },
        }
    }

    /// Adds one changed file to the totals of its date.
    pub fn record(&mut self, event: StatEvent)
        requires
            old(self).wf(),
            event.date.valid(),
            totals_at(old(self)@, event.date).files < u64::MAX,
            totals_at(old(self)@, event.date).insertions + event.added <= SUM_LIMIT,
            totals_at(old(self)@, event.date).deletions + event.deleted <= SUM_LIMIT,
        ensures
            final(self).wf(),
            final(self)@ == old(self)@.insert(
                event.date,
                with_event(totals_at(old(self)@, event.date), event),
            ),
    {
        let before = self.totals(event.date);
        let after = DayStats {
            files: before.files + 1,
            insertions: before.insertions + event.added as u128,
            deletions: before.deletions + event.deleted as u128,
        };
        self.table.put(event.date, after);
        proof {
            assert(self@ =~= old(self)@.insert(
                event.date,
                with_event(totals_at(old(self)@, event.date), event),
            ));
        }
    }

    /// The daily statistics of a sequence of events.
    pub fn from_events(events: &Vec<StatEvent>) -> (stats: DailyStats)
        requires
            all_dated(events@),
        ensures
            stats.wf(),
            stats@ == stats_of(events@),
    {
        let mut stats = DailyStats::new();
        assert(stats@ =~= stats_of(events@.take(0)));
        let mut i: usize = 0;
        while i < events.len()
            invariant
                i <= events.len(),
                all_dated(events@),
                stats.wf(),
                stats@ == stats_of(events@.take(i as int)),
            decreases events.len() - i,
        {
            proof {
                let seen = events@.take(i as int);
                let event = events@[i as int];
                lemma_totals_bounded(seen, event.date);
                assert(seen.len() * u32::MAX + u32::MAX <= SUM_LIMIT) by (nonlinear_arith)
                    requires
                        seen.len() <= u64::MAX,
                ;
                assert(events@.take(i + 1) == seen.push(event));
                lemma_stats_of_push(seen, event);
            }
            stats.record(events[i]);
            i += 1;
        }
        proof {
            assert(events@.take(i as int) == events@);
        }
        stats
    }
}

} // verus!
