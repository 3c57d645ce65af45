//! Amounts of tokens recorded by account, by pair of accounts, or by era and account.
use crate::types::AccountId;
use vstd::prelude::*;

verus! {

/// A key of a [`BalanceMap`], compared by its abstract value.
pub trait TableKey: Sized {
    /// The abstract value of the key.
    spec fn key_view(&self) -> Seq<Seq<char>>;

    /// The era that the key names, where it names one.
    spec fn key_era(&self) -> int;

    /// Whether two keys are equal.
    fn same_key(&self, other: &Self) -> (res: bool)
        ensures
            res == (self.key_view() == other.key_view() && self.key_era() == other.key_era()),
    ;

    /// A copy of the key.
    fn copy_key(&self) -> (res: Self)
        ensures
            res.key_view() == self.key_view(),
            res.key_era() == self.key_era(),
    ;
}

impl TableKey for AccountId {
    open spec fn key_view(&self) -> Seq<Seq<char>> {
        seq![self@]
    }

    open spec fn key_era(&self) -> int {
        0
    }

    fn same_key(&self, other: &Self) -> (res: bool) {
        let res = *self == *other;
        proof {
            if !res {
                assert(seq![self@][0] != seq![other@][0]);
            }
        }
        res
    }

    fn copy_key(&self) -> (res: Self) {
        self.clone()
    }
}

impl TableKey for (AccountId, AccountId) {
    open spec fn key_view(&self) -> Seq<Seq<char>> {
        seq![self.0@, self.1@]
    }

    open spec fn key_era(&self) -> int {
        0
    }

    fn same_key(&self, other: &Self) -> (res: bool) {
        let res = self.0 == other.0 && self.1 == other.1;
        proof {
            let a = seq![self.0@, self.1@];
            let b = seq![other.0@, other.1@];
            if res {
                assert(a =~= b);
            } else {
                assert(a[0] != b[0] || a[1] != b[1]);
            }
        }
        res
    }

    fn copy_key(&self) -> (res: Self) {
        let res = (self.0.clone(), self.1.clone());
        assert(res.key_view() =~= self.key_view());
        res
    }
}

impl TableKey for (u64, AccountId) {
    open spec fn key_view(&self) -> Seq<Seq<char>> {
        seq![self.1@]
    }

    open spec fn key_era(&self) -> int {
        self.0 as int
    }

    fn same_key(&self, other: &Self) -> (res: bool) {
        let res = self.0 == other.0 && self.1 == other.1;
        proof {
            if !res && self.0 == other.0 {
                assert(seq![self.1@][0] != seq![other.1@][0]);
            }
        }
        res
    }

    fn copy_key(&self) -> (res: Self) {
        (self.0, self.1.clone())
    }
}

impl TableKey for (u64, AccountId, AccountId) {
    open spec fn key_view(&self) -> Seq<Seq<char>> {
        seq![self.1@, self.2@]
    }

    open spec fn key_era(&self) -> int {
        self.0 as int
    }

    fn same_key(&self, other: &Self) -> (res: bool) {
        let res = self.0 == other.0 && self.1 == other.1 && self.2 == other.2;
        proof {
            let a = seq![self.1@, self.2@];
            let b = seq![other.1@, other.2@];
            if res {
                assert(a =~= b);
            } else if self.0 == other.0 {
                assert(a[0] != b[0] || a[1] != b[1]);
            }
        }
        res
    }

    fn copy_key(&self) -> (res: Self) {
        let res = (self.0, self.1.clone(), self.2.clone());
        assert(res.key_view() =~= self.key_view());
        res
    }
}

/// The abstract key of `k`: its era and its account ids.
pub open spec fn abstract_key<K: TableKey>(k: K) -> (int, Seq<Seq<char>>) {
    (k.key_era(), k.key_view())
}

/// Amounts recorded by key.
#[verifier::reject_recursive_types(K)]
pub struct BalanceMap<K> {
    entries: Vec<(K, u128)>,
}

impl<K: TableKey> BalanceMap<K> {
    /// Whether the keys of the entries are distinct.
    pub closed spec fn wf(&self) -> bool {
        forall|i: int, j: int|
            0 <= i < self.entries@.len() && 0 <= j < self.entries@.len() && i != j
                ==> abstract_key((#[trigger] self.entries@[i]).0) != abstract_key((#[trigger] self.entries@[j]).0)
    }

    /// The amounts, by abstract key.
    pub closed spec fn amounts(&self) -> Map<(int, Seq<Seq<char>>), u128> {
        Map::new(
            |k: (int, Seq<Seq<char>>)| exists|i: int| 0 <= i < self.entries@.len() && abstract_key(#[trigger] self.entries@[i].0) == k,
            |k: (int, Seq<Seq<char>>)| self.entries@[choose|i: int| 0 <= i < self.entries@.len() && abstract_key(#[trigger] self.entries@[i].0) == k].1,
        )
    }

    /// An empty map.
    pub fn new() -> (res: Self)
        ensures
            res.wf(),
            res.amounts() == Map::<(int, Seq<Seq<char>>), u128>::empty(),
    {
        let res = BalanceMap { entries: Vec::new() };
        assert(res.amounts() =~= Map::<(int, Seq<Seq<char>>), u128>::empty());
        res
    }

    fn find(&self, key: &K) -> (res: Option<usize>)
        requires
            self.wf(),
        ensures
            match res {
                Some(i) => i < self.entries@.len() && abstract_key(self.entries@[i as int].0) == abstract_key(*key),
                None => !self.amounts().contains_key(abstract_key(*key)),
            },
    {
        let mut i: usize = 0;
        while i < self.entries.len()
            invariant
                i <= self.entries@.len(),
                forall|k: int| 0 <= k < i ==> abstract_key((#[trigger] self.entries@[k]).0) != abstract_key(*key),
            decreases self.entries@.len() - i,
        {
            if self.entries[i].0.same_key(key) {
                return Some(i);
            }
            i = i + 1;
        }
        None
    }

    proof fn lemma_entry(&self, i: int)
        requires
            self.wf(),
            0 <= i < self.entries@.len(),
        ensures
            self.amounts().contains_key(abstract_key(self.entries@[i].0)),
            self.amounts()[abstract_key(self.entries@[i].0)] == self.entries@[i].1,
    {
        let k = abstract_key(self.entries@[i].0);
        assert(abstract_key(self.entries@[i].0) == k);
        let c = choose|c: int| 0 <= c < self.entries@.len() && abstract_key(#[trigger] self.entries@[c].0) == k;
        assert(abstract_key(self.entries@[c].0) == k);
    }

    /// The amount recorded for `key`, if any.
    pub fn get(&self, key: &K) -> (res: Option<u128>)
        requires
            self.wf(),
        ensures
            match res {
                Some(a) => self.amounts().contains_key(abstract_key(*key)) && a == self.amounts()[abstract_key(*key)],
                None => !self.amounts().contains_key(abstract_key(*key)),
            },
    {
        match self.find(key) {
            Some(i) => {
                proof {
                    self.lemma_entry(i as int);
                }
                Some(self.entries[i].1)
            },
            None => None,
        }
    }

    /// Records `amount` for `key`.
    pub fn insert(&mut self, key: &K, amount: u128)
        requires
            old(self).wf(),
        ensures
            final(self).wf(),
            final(self).amounts() == old(self).amounts().insert(abstract_key(*key), amount),
    {
        let ghost old_entries = self.entries@;
        match self.find(key) {
            Some(i) => {
                let k = self.entries[i].0.copy_key();
                self.entries.set(i, (k, amount));
                proof {
                    let m = old(self).amounts().insert(abstract_key(*key), amount);
                    assert forall|x: (int, Seq<Seq<char>>)| #[trigger] self.amounts().contains_key(x) == m.contains_key(x) by {
                        if m.contains_key(x) && x != abstract_key(*key) {
                            let c = choose|c: int| 0 <= c < old_entries.len() && abstract_key(#[trigger] old_entries[c].0) == x;
                            assert(abstract_key(self.entries@[c].0) == x);
                        }
                        if x == abstract_key(*key) {
                            assert(abstract_key(self.entries@[i as int].0) == x);
                        }
                    }
                    assert forall|x: (int, Seq<Seq<char>>)| #[trigger] self.amounts().contains_key(x) implies self.amounts()[x] == m[x] by {
                        let c = choose|c: int| 0 <= c < self.entries@.len() && abstract_key(#[trigger] self.entries@[c].0) == x;
                        self.lemma_entry(c);
                        if c != i {
                            old(self).lemma_entry(c);
                        }
                    }
                    assert(self.amounts() =~= m);
                }
            },
            None => {
                let k = key.copy_key();
                self.entries.push((k, amount));
                proof {
                    let m = old(self).amounts().insert(abstract_key(*key), amount);
                    let n = old_entries.len() as int;
                    assert forall|a: int, b: int|
                        0 <= a < self.entries@.len() && 0 <= b < self.entries@.len() && a != b
                        implies abstract_key((#[trigger] self.entries@[a]).0) != abstract_key((#[trigger] self.entries@[b]).0) by {
                        if a == n {
                            if abstract_key(old_entries[b].0) == abstract_key(*key) {
                                old(self).lemma_entry(b);
                            }
                        } else if b == n {
                            if abstract_key(old_entries[a].0) == abstract_key(*key) {
                                old(self).lemma_entry(a);
                            }
                        }
                    }
                    assert forall|x: (int, Seq<Seq<char>>)| #[trigger] self.amounts().contains_key(x) == m.contains_key(x) by {
                        if m.contains_key(x) && x != abstract_key(*key) {
                            let c = choose|c: int| 0 <= c < old_entries.len() && abstract_key(#[trigger] old_entries[c].0) == x;
                            assert(abstract_key(self.entries@[c].0) == x);
                        }
                        if x == abstract_key(*key) {
                            assert(abstract_key(self.entries@[n].0) == x);
                        }
                    }
                    assert forall|x: (int, Seq<Seq<char>>)| #[trigger] self.amounts().contains_key(x) implies self.amounts()[x] == m[x] by {
                        let c = choose|c: int| 0 <= c < self.entries@.len() && abstract_key(#[trigger] self.entries@[c].0) == x;
                        self.lemma_entry(c);
                        if c != n {
                            old(self).lemma_entry(c);
                        }
                    }
                    assert(self.amounts() =~= m);
                }
            },
        }
    }

    /// Removes the amount recorded for `key` and returns it, if any.
    pub fn remove(&mut self, key: &K) -> (res: Option<u128>)
        requires
            old(self).wf(),
        ensures
            final(self).wf(),
            final(self).amounts() == old(self).amounts().remove(abstract_key(*key)),
            match res {
                Some(a) => old(self).amounts().contains_key(abstract_key(*key)) && a == old(self).amounts()[abstract_key(*key)],
                None => !old(self).amounts().contains_key(abstract_key(*key)),
            },
    {
        let ghost old_entries = self.entries@;
        match self.find(key) {
            Some(i) => {
                proof {
                    self.lemma_entry(i as int);
                }
                let (_k, amount) = self.entries.swap_remove(i);
                proof {
                    let m = old(self).amounts().remove(abstract_key(*key));
                    let last = old_entries.len() - 1;
                    let r = self.entries@;
                    assert forall|a: int| 0 <= a < r.len() implies #[trigger] r[a] == old_entries[if a == i { last } else { a }] by {}
                    assert forall|a: int, b: int|
                        0 <= a < r.len() && 0 <= b < r.len() && a != b
                        implies abstract_key((#[trigger] r[a]).0) != abstract_key((#[trigger] r[b]).0) by {
                        assert(r[a] == old_entries[if a == i { last } else { a }]);
                        assert(r[b] == old_entries[if b == i { last } else { b }]);
                    }
                    assert forall|x: (int, Seq<Seq<char>>)| #[trigger] self.amounts().contains_key(x) == m.contains_key(x) by {
                        if m.contains_key(x) {
                            let c = choose|c: int| 0 <= c < old_entries.len() && abstract_key(#[trigger] old_entries[c].0) == x;
                            let c2 = if c == last { i as int } else { c };
                            assert(r[c2] == old_entries[c]);
                            assert(abstract_key(r[c2].0) == x);
                        }
                        if self.amounts().contains_key(x) {
                            let c = choose|c: int| 0 <= c < r.len() && abstract_key(#[trigger] r[c].0) == x;
                            let c0 = if c == i { last } else { c };
                            assert(r[c] == old_entries[c0]);
                            assert(abstract_key(old_entries[c0].0) == x);
                            if x == abstract_key(*key) {
                                assert(abstract_key(old_entries[i as int].0) == x);
                            }
                        }
                    }
                    assert forall|x: (int, Seq<Seq<char>>)| #[trigger] self.amounts().contains_key(x) implies self.amounts()[x] == m[x] by {
                        let c = choose|c: int| 0 <= c < r.len() && abstract_key(#[trigger] r[c].0) == x;
                        self.lemma_entry(c);
                        let c0 = if c == i { last } else { c };
                        assert(r[c] == old_entries[c0]);
                        old(self).lemma_entry(c0);
                    }
                    assert(self.amounts() =~= m);
                }
                Some(amount)
            },
            None => {
                assert(self.amounts() =~= old(self).amounts().remove(abstract_key(*key)));
                None
            },
        }
    }
}

} // verus!
