//! The stakes that accounts have unbonded and not yet withdrawn, as references
//! to the era and the staking history in which they were unbonded.
use crate::types::AccountId;
use vstd::prelude::*;

verus! {

/// Where an unbonded stake was recorded.
#[derive(Clone, Copy, Debug, PartialEq, Eq)]
pub struct UnbondedStakeReference {
    /// The era in which the stake was unbonded.
    pub era_number: u64,
    /// The index of the staking history that unbonded it.
    pub staking_history_index: u64,
}

/// The references of `entries` that belong to the account `id`, in order.
pub open spec fn refs_of(entries: Seq<(AccountId, UnbondedStakeReference)>, id: Seq<char>) -> Seq<UnbondedStakeReference>
    decreases entries.len(),
{
    if entries.len() == 0 {
        Seq::empty()
    } else {
        let prefix = refs_of(entries.drop_last(), id);
        if entries.last().0@ == id {
            prefix.push(entries.last().1)
        } else {
            prefix
        }
    }
}

/// The unbonded stakes of all accounts.
pub struct UnbondedStakes {
    entries: Vec<(AccountId, UnbondedStakeReference)>,
}

impl UnbondedStakes {
    /// The references of the unbonded stakes of the account `id`, in the
    /// order in which they were added.
    pub closed spec fn stakes_of(&self, id: Seq<char>) -> Seq<UnbondedStakeReference> {
        refs_of(self.entries@, id)
    }

    /// No unbonded stake.
    pub fn new() -> (res: Self)
        ensures
            forall|id: Seq<char>| #[trigger] res.stakes_of(id) == Seq::<UnbondedStakeReference>::empty(),
    {
        UnbondedStakes { entries: Vec::new() }
    }

    /// Adds `reference` after the unbonded stakes of `account_id`.
    pub fn add(&mut self, account_id: &AccountId, reference: UnbondedStakeReference)
        ensures
            forall|id: Seq<char>| #[trigger] final(self).stakes_of(id) == if id == account_id@ {
                old(self).stakes_of(id).push(reference)
            } else {
                old(self).stakes_of(id)
            },
    {
        self.entries.push((account_id.clone(), reference));
        assert forall|id: Seq<char>| #[trigger] self.stakes_of(id) == if id == account_id@ {
            old(self).stakes_of(id).push(reference)
        } else {
            old(self).stakes_of(id)
        } by {
            assert(self.entries@.drop_last() =~= old(self).entries@);
        }
    }

    /// Whether `account_id` holds unbonded stakes.
    pub fn contains_account(&self, account_id: &AccountId) -> (res: bool)
        ensures
            res == (self.stakes_of(account_id@).len() > 0),
    {
        let mut i: usize = 0;
        while i < self.entries.len()
            invariant
                i <= self.entries@.len(),
                refs_of(self.entries@.take(i as int), account_id@).len() == 0,
            decreases self.entries@.len() - i,
        {
            assert(self.entries@.take(i + 1).drop_last() =~= self.entries@.take(i as int));
            if self.entries[i].0 == *account_id {
                proof {
                    lemma_refs_of_prefix(self.entries@, (i + 1) as int, account_id@);
                }
                return true;
            }
            i = i + 1;
        }
        assert(self.entries@.take(i as int) =~= self.entries@);
        false
    }

    /// The references of the unbonded stakes of `account_id`.
    pub fn get_stakes_of(&self, account_id: &AccountId) -> (res: Vec<UnbondedStakeReference>)
        ensures
            res@ == self.stakes_of(account_id@),
    {
        let mut res: Vec<UnbondedStakeReference> = Vec::new();
        let mut i: usize = 0;
        while i < self.entries.len()
            invariant
                i <= self.entries@.len(),
                res@ == refs_of(self.entries@.take(i as int), account_id@),
            decreases self.entries@.len() - i,
        {
            assert(self.entries@.take(i + 1).drop_last() =~= self.entries@.take(i as int));
            if self.entries[i].0 == *account_id {
                res.push(self.entries[i].1);
            }
            i = i + 1;
        }
        assert(self.entries@.take(i as int) =~= self.entries@);
        res
    }

    /// Makes `remaining` the unbonded stakes of `account_id`.
    pub fn replace_stakes_of(&mut self, account_id: &AccountId, remaining: Vec<UnbondedStakeReference>)
        ensures
            forall|id: Seq<char>| #[trigger] final(self).stakes_of(id) == if id == account_id@ {
                remaining@
            } else {
                old(self).stakes_of(id)
            },
    {
        let ghost old_entries = self.entries@;
        let mut kept: Vec<(AccountId, UnbondedStakeReference)> = Vec::new();
        let mut i: usize = 0;
        while i < self.entries.len()
            invariant
                self.entries@ == old_entries,
                i <= old_entries.len(),
                forall|id: Seq<char>| #[trigger] refs_of(kept@, id) == if id == account_id@ {
                    Seq::<UnbondedStakeReference>::empty()
                } else {
                    refs_of(old_entries.take(i as int), id)
                },
            decreases old_entries.len() - i,
        {
            let ghost before = kept@;
            assert(old_entries.take(i + 1).drop_last() =~= old_entries.take(i as int));
            let ghost cur = old_entries[i as int];
            if self.entries[i].0 != *account_id {
                let e = (self.entries[i].0.clone(), self.entries[i].1);
                kept.push(e);
                assert(kept@.drop_last() =~= before);
                assert(kept@.last().0@ == cur.0@);
            }
            assert forall|id: Seq<char>| #[trigger] refs_of(kept@, id) == if id == account_id@ {
                Seq::<UnbondedStakeReference>::empty()
            } else {
                refs_of(old_entries.take(i + 1), id)
            } by {
                assert(old_entries.take(i + 1).last() == cur);
                assert(refs_of(before, id) == if id == account_id@ {
                    Seq::<UnbondedStakeReference>::empty()
                } else {
                    refs_of(old_entries.take(i as int), id)
                });
            }
            i = i + 1;
        }
        assert(old_entries.take(i as int) =~= old_entries);
        let mut k: usize = 0;
        while k < remaining.len()
            invariant
                k <= remaining@.len(),
                forall|id: Seq<char>| #[trigger] refs_of(kept@, id) == if id == account_id@ {
                    remaining@.take(k as int)
                } else {
                    refs_of(old_entries, id)
                },
            decreases remaining@.len() - k,
        {
            let ghost before = kept@;
            kept.push((account_id.clone(), remaining[k]));
            assert(kept@.drop_last() =~= before);
            assert(remaining@.take(k + 1) =~= remaining@.take(k as int).push(remaining@[k as int]));
            assert forall|id: Seq<char>| #[trigger] refs_of(kept@, id) == if id == account_id@ {
                remaining@.take(k + 1)
            } else {
                refs_of(old_entries, id)
            } by {
                assert(refs_of(before, id) == if id == account_id@ {
                    remaining@.take(k as int)
                } else {
                    refs_of(old_entries, id)
                });
            }
            k = k + 1;
        }
        assert(remaining@.take(k as int) =~= remaining@);
        self.entries = kept;
    }
}

/// A prefix that ends with an entry of `id` gives `id` a reference.
proof fn lemma_refs_of_prefix(entries: Seq<(AccountId, UnbondedStakeReference)>, n: int, id: Seq<char>)
    requires
        0 < n <= entries.len(),
        entries[n - 1].0@ == id,
    ensures
        refs_of(entries, id).len() > 0,
    decreases entries.len(),
{
    if n < entries.len() {
        assert(entries.drop_last()[n - 1] == entries[n - 1]);
        lemma_refs_of_prefix(entries.drop_last(), n, id);
    }
}

} // verus!
