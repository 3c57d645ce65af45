//! An array of records addressed by a `u64` index, which keeps the range
//! of indexes that are currently valid.
use crate::types::MultiTxsOperationProcessingResult;
use std::collections::HashMap;
use vstd::prelude::*;

verus! {

broadcast use vstd::std_specs::hash::group_hash_axioms;

/// A record that can be stored in a [`LookupArray`].
pub trait IndexedAndClearable: Sized {
    /// The record as it is after its index has been set to `index`.
    spec fn indexed(self, index: u64) -> Self;

    /// Sets the index of the record.
    fn set_index(&mut self, index: &u64)
        ensures
            *final(self) == old(self).indexed(*index),
    ;

    /// Releases what the record holds besides itself.
    fn clear_extra_storage(&mut self);
}

/// The records between a start index and an end index.
#[verifier::reject_recursive_types(T)]
pub struct LookupArray<T> {
    lookup_map: HashMap<u64, T>,
    start_index: u64,
    end_index: u64,
}

/// The range of valid indexes of an array of records.
#[derive(Clone, Copy, Debug, PartialEq, Eq)]
pub struct IndexRange {
    pub start_index: u64,
    pub end_index: u64,
}

/// The records of `m` at the indexes `lo..hi`, in the order of their index,
/// leaving out the indexes that hold no record.
pub open spec fn records_between<T>(m: Map<u64, T>, lo: int, hi: int) -> Seq<T>
    decreases hi - lo,
{
    if hi <= lo {
        Seq::empty()
    } else {
        let prefix = records_between(m, lo, hi - 1);
        if m.contains_key((hi - 1) as u64) {
            prefix.push(m[(hi - 1) as u64])
        } else {
            prefix
        }
    }
}

/// The records of `m` (whose valid indexes are `start..=end`) that
/// `get_slice_of` reads from `start_index` for `quantity`.
pub open spec fn slice_of<T>(m: Map<u64, T>, start: u64, end: u64, start_index: u64, quantity: Option<u64>) -> Seq<T> {
    let first = if start > start_index { start as int } else { start_index as int };
    let last0 = if slice_last_index(first, quantity) < u64::MAX {
        slice_last_index(first, quantity)
    } else {
        u64::MAX as int
    };
    let last = if last0 < end { last0 } else { end as int };
    records_between(m, first, last + 1)
}

/// The last index that `get_slice_of` reads, before it is bounded by the end index.
pub open spec fn slice_last_index(first: int, quantity: Option<u64>) -> int {
    first + match quantity {
        Some(q) => if q > 50 { 49 } else { q - 1 },
        None => 49,
    }
}

impl<T: IndexedAndClearable> LookupArray<T> {
    /// The records, by their index.
    pub closed spec fn records(&self) -> Map<u64, T> {
        self.lookup_map@
    }

    /// The first valid index.
    pub closed spec fn start(&self) -> u64 {
        self.start_index
    }

    /// The last valid index.
    pub closed spec fn end(&self) -> u64 {
        self.end_index
    }

    /// The index that `append` gives to the next record.
    pub open spec fn next_index(&self) -> u64 {
        if self.records().contains_key(0) {
            (self.end() + 1) as u64
        } else {
            0
        }
    }

    /// An empty array.
    pub fn new() -> (res: Self)
        ensures
            res.records() == Map::<u64, T>::empty(),
            res.start() == 0,
            res.end() == 0,
    {
        LookupArray { lookup_map: HashMap::new(), start_index: 0, end_index: 0 }
    }

    /// The record at `index`, if any.
    pub fn get(&self, index: &u64) -> (res: Option<&T>)
        ensures
            match res {
                Some(r) => self.records().contains_key(*index) && *r == self.records()[*index],
                None => !self.records().contains_key(*index),
            },
    {
        self.lookup_map.get(index)
    }

    /// Whether a record is stored at `index`.
    pub fn contains(&self, index: &u64) -> (res: bool)
        ensures
            res == self.records().contains_key(*index),
    {
        self.lookup_map.contains_key(index)
    }

    /// Stores `record` at `index`; the end index grows to `index` where it is smaller.
    pub fn insert(&mut self, index: &u64, record: T)
        ensures
            final(self).records() == old(self).records().insert(*index, record),
            final(self).start() == old(self).start(),
            final(self).end() == if *index > old(self).end() { *index } else { old(self).end() },
    {
        self.lookup_map.insert(*index, record);
        if *index > self.end_index {
            self.end_index = *index;
        }
    }

    /// The range of valid indexes.
    pub fn index_range(&self) -> (res: IndexRange)
        ensures
            res.start_index == self.start(),
            res.end_index == self.end(),
    {
        IndexRange { start_index: self.start_index, end_index: self.end_index }
    }

    /// Appends `record` after the last record and returns the index it is stored at.
    /// The first record of an array is stored at index 0.
    pub fn append(&mut self, record: T) -> (index: u64)
        requires
            old(self).records().contains_key(0) ==> old(self).end() < u64::MAX,
        ensures
            index == old(self).next_index(),
            final(self).records() == old(self).records().insert(index, record.indexed(index)),
            final(self).start() == old(self).start(),
            final(self).end() == index,
    {
        let index: u64 = if self.lookup_map.contains_key(&0) {
            self.end_index + 1
        } else {
            0
        };
        let mut record = record;
        record.set_index(&index);
        self.lookup_map.insert(index, record);
        self.end_index = index;
        index
    }

    /// Takes the record at `index` out of the array, if any.
    pub fn take(&mut self, index: &u64) -> (res: Option<T>)
        ensures
            final(self).records() == old(self).records().remove(*index),
            final(self).start() == old(self).start(),
            final(self).end() == old(self).end(),
            match res {
                Some(r) => old(self).records().contains_key(*index) && r == old(self).records()[*index],
                None => !old(self).records().contains_key(*index),
            },
    {
        self.lookup_map.remove(index)
    }

    /// Removes the record at `index`, if any.
    pub fn remove_at(&mut self, index: &u64)
        ensures
            final(self).records() == old(self).records().remove(*index),
            final(self).start() == old(self).start(),
            final(self).end() == old(self).end(),
    {
        if let Some(mut record) = self.lookup_map.remove(index) {
            record.clear_extra_storage();
        }
    }

    /// Whether `after` is `self` with the records before `index` removed and
    /// `index` as its start index; `self` itself where its start index is not
    /// before `index`.
    pub open spec fn removed_before(&self, after: &Self, index: u64) -> bool {
        &&& self.start() >= index ==> *after == *self
        &&& self.start() < index ==> {
            &&& after.records() == self.records().restrict(
                self.records().dom().filter(|i: u64| !(self.start() <= i < index)),
            )
            &&& after.start() == index
            &&& after.end() == self.end()
        }
    }

    /// Removes the records before `index`, which becomes the start index.
    /// Nothing changes where the start index is not before `index`.
    pub fn remove_before(&mut self, index: &u64)
        ensures
            old(self).removed_before(final(self), *index),
    {
        if self.start_index >= *index {
            return;
        }
        let ghost old_map = self.lookup_map@;
        let ghost first = self.start_index;
        let mut i: u64 = self.start_index;
        while i < *index
            invariant
                first <= i <= *index,
                self.start_index == first,
                self.end_index == old(self).end_index,
                self.lookup_map@ == old_map.restrict(
                    old_map.dom().filter(|k: u64| !(first <= k < i)),
                ),
            decreases *index - i,
        {
            self.remove_at(&i);
            assert(self.lookup_map@ =~= old_map.restrict(
                old_map.dom().filter(|k: u64| !(first <= k < i + 1)),
            ));
            i = i + 1;
        }
        self.start_index = *index;
    }

    /// Removes the records after `index`, which becomes the end index.
    pub fn reset_to(&mut self, index: &u64)
        requires
            old(self).start() <= *index <= old(self).end(),
            old(self).end() < u64::MAX,
        ensures
            final(self).records() == old(self).records().restrict(
                old(self).records().dom().filter(|i: u64| !(*index < i <= old(self).end())),
            ),
            final(self).start() == old(self).start(),
            final(self).end() == *index,
    {
        let ghost old_map = self.lookup_map@;
        let last = self.end_index;
        let mut i: u64 = *index + 1;
        while i < last + 1
            invariant
                *index + 1 <= i <= last + 1,
                last == old(self).end_index,
                last < u64::MAX,
                self.start_index == old(self).start_index,
                self.end_index == last,
                self.lookup_map@ == old_map.restrict(
                    old_map.dom().filter(|k: u64| !(*index < k < i)),
                ),
            decreases last + 1 - i,
        {
            self.remove_at(&i);
            assert(self.lookup_map@ =~= old_map.restrict(
                old_map.dom().filter(|k: u64| !(*index < k < i + 1)),
            ));
            i = i + 1;
        }
        assert(self.lookup_map@ =~= old_map.restrict(
            old_map.dom().filter(|k: u64| !(*index < k <= last)),
        ));
        self.end_index = *index;
    }

    /// Removes the valid records; both indexes become 0.
    pub fn clear_range(&mut self)
        requires
            old(self).end() < u64::MAX,
        ensures
            final(self).records() == old(self).records().restrict(
                old(self).records().dom().filter(|i: u64| !(old(self).start() <= i <= old(self).end())),
            ),
            final(self).start() == 0,
            final(self).end() == 0,
    {
        let ghost old_map = self.lookup_map@;
        let first = self.start_index;
        let last = self.end_index;
        let mut i: u64 = first;
        while i < last + 1
            invariant
                first <= i,
                i <= last + 1 || i == first,
                first == old(self).start_index,
                last == old(self).end_index,
                last < u64::MAX,
                self.lookup_map@ == old_map.restrict(
                    old_map.dom().filter(|k: u64| !(first <= k < i)),
                ),
            decreases last + 1 - i,
        {
            self.remove_at(&i);
            assert(self.lookup_map@ =~= old_map.restrict(
                old_map.dom().filter(|k: u64| !(first <= k < i + 1)),
            ));
            i = i + 1;
        }
        assert(self.lookup_map@ =~= old_map.restrict(
            old_map.dom().filter(|k: u64| !(first <= k <= last)),
        ));
        self.start_index = 0;
        self.end_index = 0;
    }

    /// Whether `after`, with the result `res`, is `self` after one call of
    /// `clear` that removes at most `max_removals` indexes.
    pub open spec fn cleared_by(&self, after: &Self, max_removals: u64, res: MultiTxsOperationProcessingResult) -> bool {
        let first = self.start() as int;
        let last = self.end() as int;
        let stop = if first + max_removals > last + 1 {
            last + 1
        } else {
            first + max_removals
        };
        &&& after.records() == self.records().restrict(self.records().dom().filter(|i: u64| !(first <= i < stop)))
        &&& if stop >= last + 1 {
            &&& res == MultiTxsOperationProcessingResult::Finished
            &&& after.start() == 0
            &&& after.end() == 0
        } else {
            &&& res == MultiTxsOperationProcessingResult::NeedMoreGas
            &&& after.start() == stop
            &&& after.end() == self.end()
        }
    }

    /// Removes the valid records from the start index on, at most
    /// `max_removals` indexes of them (as many as the gas of a call allows).
    /// Where all are removed both indexes become 0 and the result is
    /// `Finished`; where not, the start index moves past the removed ones
    /// and the result is `NeedMoreGas`.
    pub fn clear(&mut self, max_removals: u64) -> (res: MultiTxsOperationProcessingResult)
        requires
            old(self).end() < u64::MAX,
        ensures
            ({
                let first = old(self).start() as int;
                let last = old(self).end() as int;
                let stop = if first + max_removals > last + 1 {
                    last + 1
                } else {
                    first + max_removals
                };
                &&& final(self).records() == old(self).records().restrict(
                    old(self).records().dom().filter(|i: u64| !(first <= i < stop)),
                )
                &&& if stop >= last + 1 {
                    &&& res == MultiTxsOperationProcessingResult::Finished
                    &&& final(self).start() == 0
                    &&& final(self).end() == 0
                } else {
                    &&& res == MultiTxsOperationProcessingResult::NeedMoreGas
                    &&& final(self).start() == stop
                    &&& final(self).end() == old(self).end()
                }
            }),
    {
        let ghost old_map = self.lookup_map@;
        let first = self.start_index;
        let last = self.end_index;
        let mut index: u64 = first;
        let mut removed: u64 = 0;
        while index <= last && removed < max_removals
            invariant
                first <= index,
                index <= last + 1 || index == first,
                first == old(self).start_index,
                last == old(self).end_index,
                last < u64::MAX,
                removed == index - first,
                removed <= max_removals,
                self.end_index == last,
                self.lookup_map@ == old_map.restrict(old_map.dom().filter(|k: u64| !(first <= k < index))),
            decreases last + 1 - index,
        {
            self.remove_at(&index);
            assert(self.lookup_map@ =~= old_map.restrict(old_map.dom().filter(|k: u64| !(first <= k < index + 1))));
            index = index + 1;
            removed = removed + 1;
        }
        if index <= last {
            self.start_index = index;
            MultiTxsOperationProcessingResult::NeedMoreGas
        } else {
            assert(old_map.restrict(old_map.dom().filter(|k: u64| !(first <= k < index))) =~= old_map.restrict(
                old_map.dom().filter(|k: u64| !(first <= k < last + 1)),
            ));
            self.start_index = 0;
            self.end_index = 0;
            MultiTxsOperationProcessingResult::Finished
        }
    }

    /// At most 50 records (or `quantity` of them), starting at `start_index` or at
    /// the first valid index where that is later, and never past the end index
    /// (nor past the largest index).
    pub fn get_slice_of(&self, start_index: &u64, quantity: Option<u64>) -> (res: Vec<&T>)
        requires
            quantity != Some(0u64),
        ensures
            res@.len() == slice_of(self.records(), self.start(), self.end(), *start_index, quantity).len(),
            forall|k: int| 0 <= k < res@.len() ==>
                *res@[k] == slice_of(self.records(), self.start(), self.end(), *start_index, quantity)[k],
    {
        let mut results: Vec<&T> = Vec::new();
        let first: u64 = if self.start_index > *start_index { self.start_index } else { *start_index };
        let span: u64 = match quantity {
            Some(q) => if q > 50 { 49 } else { q - 1 },
            None => 49,
        };
        let mut last: u64 = if first <= u64::MAX - span { first + span } else { u64::MAX };
        last = if last < self.end_index { last } else { self.end_index };
        let ghost m = self.lookup_map@;
        if first <= last {
            let mut i: u64 = first;
            loop
                invariant_except_break
                    first <= i <= last,
                    results@.len() == records_between(m, first as int, i as int).len(),
                    forall|k: int| 0 <= k < results@.len() ==>
                        *results@[k] == records_between(m, first as int, i as int)[k],
                invariant
                    m == self.lookup_map@,
                    first <= last,
                ensures
                    results@.len() == records_between(m, first as int, last + 1).len(),
                    forall|k: int| 0 <= k < results@.len() ==>
                        *results@[k] == records_between(m, first as int, last + 1)[k],
                decreases last - i,
            {
                if let Some(record) = self.lookup_map.get(&i) {
                    results.push(record);
                }
                if i == last {
                    break;
                }
                i = i + 1;
            }
        } else {
            assert(records_between(m, first as int, last + 1) =~= Seq::empty());
        }
        results
    }
}

/// Appends number the records from 0: where `states` are an array without a
/// record at index 0 and the arrays after each of a run of appends, each
/// with the index it gave in `indexes`, the append at position `i` of the run
/// gave the index `i`.
pub proof fn lemma_appends_number_from_zero<T: IndexedAndClearable>(states: Seq<LookupArray<T>>, indexes: Seq<u64>)
    requires
        states.len() == indexes.len() + 1,
        indexes.len() <= u64::MAX,
        !states[0].records().contains_key(0),
        forall|i: int|
            0 <= i < indexes.len() ==> {
                &&& #[trigger] indexes[i] == states[i].next_index()
                &&& states[i + 1].records().dom() == states[i].records().dom().insert(indexes[i])
                &&& states[i + 1].end() == indexes[i]
            },
    ensures
        forall|i: int| 0 <= i < indexes.len() ==> #[trigger] indexes[i] == i,
        indexes.len() > 0 ==> states.last().records().contains_key(0) && states.last().end() == indexes.len() - 1,
    decreases indexes.len(),
{
    if indexes.len() > 0 {
        let n = indexes.len() - 1;
        let prev_states = states.drop_last();
        let prev = indexes.drop_last();
        assert forall|i: int| 0 <= i < prev.len() implies {
            &&& #[trigger] prev[i] == prev_states[i].next_index()
            &&& prev_states[i + 1].records().dom() == prev_states[i].records().dom().insert(prev[i])
            &&& prev_states[i + 1].end() == prev[i]
        } by {
            assert(prev[i] == indexes[i]);
            assert(indexes[i] == states[i].next_index());
        }
        lemma_appends_number_from_zero(prev_states, prev);
        assert(indexes[n] == states[n].next_index());
        if n > 0 {
            assert(prev_states.last() == states[n]);
            assert(states[n].records().contains_key(0));
            assert(states[n].end() == n - 1);
            assert(states[n].next_index() == n);
        }
        assert(states[n + 1].records().dom() == states[n].records().dom().insert(indexes[n]));
        assert(states[n + 1].records().dom().contains(indexes[n]));
        assert(indexes[n] == n);
        assert(states.last() == states[n + 1]);
        assert(states[n + 1].records().dom().contains(0));
        assert forall|i: int| 0 <= i < indexes.len() implies #[trigger] indexes[i] == i by {
            if i < n {
                assert(prev[i] == indexes[i]);
            }
        }
    }
}

} // verus!
