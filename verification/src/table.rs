//! A table keyed by calendar day: a hash map under a numbering of the days,
//! and the days in the order in which they were first entered.

use crate::calendar::Date;
use std::collections::HashMap;
use vstd::prelude::*;
use vstd::std_specs::hash::group_hash_axioms;

verus! {

broadcast use group_hash_axioms;

/// The number under which a date is filed. No two dates share a number.
pub open spec fn date_key(date: Date) -> u64 {
    ((date.year as int + 0x8000_0000) * 0x1_0000 + date.month as int * 0x100
        + date.day as int) as u64
}

/// Dates with the same number are the same date.
pub proof fn lemma_date_key_injective(a: Date, b: Date)
    requires
        date_key(a) == date_key(b),
    ensures
        a == b,
{
}

fn key_of(date: Date) -> (key: u64)
    ensures
        key == date_key(date),
{
    ((date.year as i64 + 0x8000_0000) as u64) * 0x1_0000 + (date.month as u64) * 0x100
        + date.day as u64
}

/// A table from calendar days to values. Its view is the map it stands for.
#[derive(Debug)]
pub struct DayTable<V> {
    map: HashMap<u64, V>,
    days: Vec<Date>,
}

impl<V> View for DayTable<V> {
    type V = Map<Date, V>;

    closed spec fn view(&self) -> Map<Date, V> {
        Map::new(
            |date: Date| self.map@.dom().contains(date_key(date)),
            |date: Date| self.map@[date_key(date)],
        )
    }
}

impl<V: Copy> DayTable<V> {
    /// The list of days holds each day of the table once, and no other.
    pub closed spec fn wf(&self) -> bool {
        &&& self.days@.no_duplicates()
        &&& forall|date: Date|
            self.days@.contains(date) <==> self.map@.dom().contains(#[trigger] date_key(date))
    }

    /// The days of the table, in the order in which they were entered.
    pub closed spec fn keys(&self) -> Seq<Date> {
        self.days@
    }

    /// The keys of a well-formed table are its days, each once.
    pub proof fn lemma_keys(&self)
        requires
            self.wf(),
        ensures
            self.keys().no_duplicates(),
            forall|date: Date| self.keys().contains(date) <==> self@.dom().contains(date),
    {
        assert forall|date: Date| self.keys().contains(date) <==> self@.dom().contains(date) by {
            assert(self.days@.contains(date) <==> self.map@.dom().contains(date_key(date)));
        }
    }

    /// A table without entries.
    pub fn new() -> (table: DayTable<V>)
        ensures
            table.wf(),
            table@ == Map::<Date, V>::empty(),
            table.keys() == Seq::<Date>::empty(),
    {
        let table = DayTable { map: HashMap::new(), days: Vec::new() };
        assert(table@ =~= Map::<Date, V>::empty());
        table
    }

    /// Number of days in the table.
    pub fn len(&self) -> (n: usize)
        ensures
            n == self.keys().len(),
    {
        self.days.len()
    }

    /// The day at position `i`.
    pub fn key(&self, i: usize) -> (date: Date)
        requires
            i < self.keys().len(),
        ensures
            date == self.keys()[i as int],
    {
        self.days[i]
    }

    /// The value entered for `date`, if there is one.
    pub fn get(&self, date: Date) -> (value: Option<V>)
        ensures
            value == (if self@.dom().contains(date) {
                Some(self@[date])
            } else {
                None
            }),
    {
        let key = key_of(date);
        match self.map.get(&key) {
            Some(value) => Some(*value),
            None => None,
        }
    }

    /// Enters `value` for `date`, in place of the value the day had, if any.
    pub fn put(&mut self, date: Date, value: V)
        requires
            old(self).wf(),
        ensures
            final(self).wf(),
            final(self)@ == old(self)@.insert(date, value),
            final(self).keys() == (if old(self)@.dom().contains(date) {
                old(self).keys()
            } else {
                old(self).keys().push(date)
            }),
    {
        let key = key_of(date);
        let had = self.map.insert(key, value);
        if had.is_none() {
            self.days.push(date);
        }
        proof {
            assert forall|d: Date| date_key(d) == key implies d == date by {
                lemma_date_key_injective(d, date);
            }
            assert(self@ =~= old(self)@.insert(date, value));
            let before = old(self).days@;
            assert forall|d: Date|
                self.days@.contains(d) <==> self.map@.dom().contains(#[trigger] date_key(d)) by {
                assert(before.contains(d) <==> old(self).map@.dom().contains(date_key(d)));
                if had is None {
                    if before.contains(d) {
                        let i = choose|i: int| 0 <= i < before.len() && before[i] == d;
                        assert(self.days@[i] == d);
                    }
                    if d == date {
                        assert(self.days@[before.len() as int] == d);
                    }
                    if self.days@.contains(d) && d != date {
                        let i = choose|i: int| 0 <= i < self.days@.len() && self.days@[i] == d;
                        assert(before[i] == d);
                    }
                }
            }
            if had is None {
                assert(!before.contains(date)) by {
                    assert(before.contains(date) <==> old(self).map@.dom().contains(
                        date_key(date),
                    ));
                }
                assert(self.days@.no_duplicates()) by {
                    assert forall|i: int, j: int|
                        0 <= i < self.days@.len() && 0 <= j < self.days@.len() && i
                            != j implies self.days@[i] != self.days@[j] by {
                        if i < before.len() {
                            assert(before.contains(before[i]));
                        }
                        if j < before.len() {
                            assert(before.contains(before[j]));
                        }
                    }
                }
            }
        }
    }
}

} // verus!
