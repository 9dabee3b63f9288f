//! The daily index: how many commits each calendar day has.

use crate::calendar::Date;
use crate::history::all_valid;
use crate::table::DayTable;
use vstd::prelude::*;

verus! {

/// How often `date` occurs among `dates`.
pub open spec fn commits_on(dates: Seq<Date>, date: Date) -> nat {
    dates.to_multiset().count(date)
}

/// The daily index of a sequence of commit dates: each date that occurs,
/// with the number of times it occurs. A date that does not occur is no key.
pub open spec fn index_of(dates: Seq<Date>) -> Map<Date, nat> {
    Map::new(|date: Date| commits_on(dates, date) > 0, |date: Date| commits_on(dates, date))
}

/// The count a daily index gives a date: its entry, or 0 where it has none.
pub open spec fn count_at(index: Map<Date, nat>, date: Date) -> nat {
    if index.dom().contains(date) {
        index[date]
    } else {
        0
    }
}

/// Adding one commit date to a sequence raises that date's count by one
/// and leaves every other entry as it was.
pub proof fn lemma_index_of_push(dates: Seq<Date>, date: Date)
    ensures
        index_of(dates.push(date)) == index_of(dates).insert(
            date,
            count_at(index_of(dates), date) + 1,
        ),
{
    broadcast use vstd::seq_lib::group_to_multiset_ensures;
    broadcast use vstd::multiset::group_multiset_axioms;

    assert(dates.push(date).to_multiset() =~= dates.to_multiset().insert(date));
    assert(index_of(dates.push(date)) =~= index_of(dates).insert(
        date,
        count_at(index_of(dates), date) + 1,
    ));
}

/// Commit counts by calendar day. Its view is the map from each day that
/// has commits to their number; a day without commits is no key.
#[derive(Debug)]
pub struct DailyIndex {
    table: DayTable<u64>,
}

impl View for DailyIndex {
    type V = Map<Date, nat>;

    closed spec fn view(&self) -> Map<Date, nat> {
        Map::new(
            |date: Date| self.table@.dom().contains(date),
            |date: Date| self.table@[date] as nat,
        )
    }
}

impl DailyIndex {
    /// Every key is a day of the calendar, and every count is at least 1.
    pub closed spec fn wf(&self) -> bool {
        &&& self.table.wf()
        &&& forall|date: Date| #[trigger]
            self.table@.dom().contains(date) ==> date.valid() && self.table@[date] >= 1
    }

    /// The days that have commits, in the order in which they were first recorded.
    pub closed spec fn days(&self) -> Seq<Date> {
        self.table.keys()
    }

    /// In a well-formed index every key is a day of the calendar, and every
    /// count is at least 1 and fits the machine's counter.
    pub proof fn lemma_entry(&self, date: Date)
        requires
            self.wf(),
            self@.dom().contains(date),
        ensures
            date.valid(),
            1 <= self@[date] <= u64::MAX,
    {
    }

    /// The recorded days are the keys of the index, each once.
    pub proof fn lemma_days(&self)
        requires
            self.wf(),
        ensures
            self.days().no_duplicates(),
            forall|date: Date| self.days().contains(date) <==> self@.dom().contains(date),
    {
        self.table.lemma_keys();
    }

    /// An index without entries.
    pub fn new() -> (index: DailyIndex)
        ensures
            index.wf(),
            index@ == Map::<Date, nat>::empty(),
    {
        let index = DailyIndex { table: DayTable::new() };
        assert(index@ =~= Map::<Date, nat>::empty());
        index
    }

    /// Number of days that have commits.
    pub fn len(&self) -> (n: usize)
        ensures
            n == self.days().len(),
    {
        self.table.len()
    }

    /// The day at position `i` among the recorded days.
    pub fn day(&self, i: usize) -> (date: Date)
        requires
            i < self.days().len(),
        ensures
            date == self.days()[i as int],
    {
        self.table.key(i)
    }

    /// The number of commits on `date`, 0 where the index has no entry.
    pub fn count(&self, date: Date) -> (commits: u64)
        requires
            self.wf(),
        ensures
            commits == count_at(self@, date),
    {
        match self.table.get(date) {
            Some(commits) => commits,
            None => 0,
        }
    }

    /// Counts one more commit on `date`.
    pub fn record(&mut self, date: Date)
        requires
            old(self).wf(),
            date.valid(),
            count_at(old(self)@, date) < u64::MAX,
        ensures
            final(self).wf(),
            final(self)@ == old(self)@.insert(date, count_at(old(self)@, date) + 1),
    {
        let commits = self.count(date);
        self.table.put(date, commits + 1);
        proof {
            assert(self@ =~= old(self)@.insert(date, count_at(old(self)@, date) + 1));
        }
    }

    /// The daily index of a sequence of commit dates.
    pub fn from_dates(dates: &Vec<Date>) -> (index: DailyIndex)
        requires
            all_valid(dates@),
        ensures
            index.wf(),
            index@ == index_of(dates@),
    {
        let mut index = DailyIndex::new();
        assert(index@ =~= index_of(dates@.take(0))) by {
            broadcast use vstd::seq_lib::group_to_multiset_ensures;
            broadcast use vstd::multiset::group_multiset_axioms;

        }
        let mut i: usize = 0;
        while i < dates.len()
            invariant
                i <= dates.len(),
                all_valid(dates@),
                index.wf(),
                index@ == index_of(dates@.take(i as int)),
            decreases dates.len() - i,
        {
            proof {
                broadcast use vstd::seq_lib::group_to_multiset_ensures;
                broadcast use vstd::multiset::group_multiset_axioms;

                let seen = dates@.take(i as int);
                assert(seen.to_multiset().count(dates@[i as int]) <= seen.to_multiset().len());
                assert(dates@.take(i + 1) == seen.push(dates@[i as int]));
                lemma_index_of_push(seen, dates@[i as int]);
            }
            index.record(dates[i]);
            i += 1;
        }
        proof {
            assert(dates@.take(i as int) == dates@);
        }
        index
    }
}

} // verus!
