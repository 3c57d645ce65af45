//! Removing the validator sets of past eras, the oldest first, together with
//! the records of the rewards distributed in them and the rewards not yet
//! withdrawn from them.
use crate::anchor::AppchainAnchor;
use crate::errors::AnchorError;
use crate::lookup_array::LookupArray;
use crate::rewards::records_cleared;
use crate::types::{AccountId, MultiTxsOperationProcessingResult};
use crate::validator_set::Validator;
use crate::validator_set_of_era::{histories_applied, ValidatorSetOfEra};
use vstd::prelude::*;

verus! {

/// The validators of `s` whose rewards the anchor keeps: all of them once
/// the staking histories are applied to the set, and none before.
pub open spec fn reward_validators(s: ValidatorSetOfEra) -> Seq<Validator> {
    if histories_applied(s.status()) {
        s.set().validators
    } else {
        Seq::empty()
    }
}

/// Whether `k` is the key of the reward in era `era` of one of the first `n`
/// validators of `s` whose rewards are kept.
pub open spec fn validator_key_below(s: ValidatorSetOfEra, era: u64, n: int, k: (int, Seq<Seq<char>>)) -> bool {
    exists|i: int| 0 <= i < n && i < reward_validators(s).len() && k == (era as int, seq![reward_validators(s)[i].validator_id@])
}

/// The key of the reward in era `era` of the delegator `j` of the validator
/// `i` of `s` whose rewards are kept.
pub open spec fn delegator_key(s: ValidatorSetOfEra, era: u64, i: int, j: int) -> (int, Seq<Seq<char>>) {
    let v = reward_validators(s)[i].validator_id@;
    (era as int, seq![s.set().delegators_of(v)[j].delegator_id@, v])
}

/// Whether `k` is the key of the reward in era `era` of a delegator of one of
/// the first `n` validators of `s` whose rewards are kept, or of one of the
/// first `m` delegators of validator `n`.
pub open spec fn delegator_key_below(s: ValidatorSetOfEra, era: u64, n: int, m: int, k: (int, Seq<Seq<char>>)) -> bool {
    exists|i: int, j: int|
        0 <= i < reward_validators(s).len() && 0 <= j < s.set().delegators_of(reward_validators(s)[i].validator_id@).len()
            && (i < n || (i == n && j < m)) && k == #[trigger] delegator_key(s, era, i, j)
}

/// Whether `k` is the key of a validator's reward in era `era` of `s`.
pub open spec fn validator_reward_key(s: ValidatorSetOfEra, era: u64, k: (int, Seq<Seq<char>>)) -> bool {
    validator_key_below(s, era, reward_validators(s).len() as int, k)
}

/// Whether `k` is the key of a delegator's reward in era `era` of `s`.
pub open spec fn delegator_reward_key(s: ValidatorSetOfEra, era: u64, k: (int, Seq<Seq<char>>)) -> bool {
    delegator_key_below(s, era, reward_validators(s).len() as int, 0, k)
}

/// The amounts `m` without those whose keys meet `p`.
pub open spec fn without_keys(m: Map<(int, Seq<Seq<char>>), u128>, p: spec_fn((int, Seq<Seq<char>>)) -> bool) -> Map<
    (int, Seq<Seq<char>>),
    u128,
> {
    m.restrict(m.dom().filter(|k: (int, Seq<Seq<char>>)| !p(k)))
}

/// The number of eras whose validator sets `h` holds, counted from its start
/// index to its end index, where the end index holds a set.
pub open spec fn history_length(h: LookupArray<ValidatorSetOfEra>) -> int {
    if h.start() <= h.end() && h.records().contains_key(h.end()) {
        h.end() - h.start() + 1
    } else {
        0
    }
}

/// Whether `after` is `before` with one step of the removal of its oldest
/// validator set taken, giving `res`: an index without a set is passed over
/// (`NeedMoreGas`); the set at the start index is removed with the records
/// of the rewards distributed in its era and the rewards of its validators
/// and delegators not yet withdrawn (`Finished`).
pub open spec fn oldest_set_removed(before: AppchainAnchor, after: AppchainAnchor, res: (u64, MultiTxsOperationProcessingResult)) -> bool {
    let h = before.validator_set_histories;
    let era = h.start();
    &&& res.0 == era
    &&& h.removed_before(&after.validator_set_histories, (era + 1) as u64)
    &&& after.wf()
    &&& if !h.records().contains_key(era) {
        &&& res.1 == MultiTxsOperationProcessingResult::NeedMoreGas
        &&& after == (AppchainAnchor { validator_set_histories: after.validator_set_histories, ..before })
    } else {
        let s = h.records()[era];
        &&& res.1 == MultiTxsOperationProcessingResult::Finished
        &&& records_cleared(before.reward_distribution_records, after.reward_distribution_records, s, era)
        &&& after.unwithdrawn_validator_rewards.amounts() == without_keys(
            before.unwithdrawn_validator_rewards.amounts(),
            |k: (int, Seq<Seq<char>>)| validator_reward_key(s, era, k),
        )
        &&& after.unwithdrawn_delegator_rewards.amounts() == without_keys(
            before.unwithdrawn_delegator_rewards.amounts(),
            |k: (int, Seq<Seq<char>>)| delegator_reward_key(s, era, k),
        )
        &&& after == (AppchainAnchor {
            validator_set_histories: after.validator_set_histories,
            reward_distribution_records: after.reward_distribution_records,
            unwithdrawn_validator_rewards: after.unwithdrawn_validator_rewards,
            unwithdrawn_delegator_rewards: after.unwithdrawn_delegator_rewards,
            ..before
        })
    }
}

impl AppchainAnchor {
    /// Removes the unwithdrawn rewards of era `era` of the validators of `set`
    /// and of their delegators.
    fn clear_unwithdrawn_rewards_of(&mut self, set: &ValidatorSetOfEra, era: u64)
        requires
            old(self).unwithdrawn_validator_rewards.wf(),
            old(self).unwithdrawn_delegator_rewards.wf(),
            set.wf(),
        ensures
            final(self).unwithdrawn_validator_rewards.wf(),
            final(self).unwithdrawn_delegator_rewards.wf(),
            final(self).unwithdrawn_validator_rewards.amounts() == without_keys(
                old(self).unwithdrawn_validator_rewards.amounts(),
                |k: (int, Seq<Seq<char>>)| validator_reward_key(*set, era, k),
            ),
            final(self).unwithdrawn_delegator_rewards.amounts() == without_keys(
                old(self).unwithdrawn_delegator_rewards.amounts(),
                |k: (int, Seq<Seq<char>>)| delegator_reward_key(*set, era, k),
            ),
            *final(self) == (AppchainAnchor {
                unwithdrawn_validator_rewards: final(self).unwithdrawn_validator_rewards,
                unwithdrawn_delegator_rewards: final(self).unwithdrawn_delegator_rewards,
                ..*old(self)
            }),
    {
        let ghost vm = self.unwithdrawn_validator_rewards.amounts();
        let ghost dm = self.unwithdrawn_delegator_rewards.amounts();
        let ghost start = *self;
        let ghost vs = reward_validators(*set);
        let vids = set.get_validator_ids();
        let mut i: usize = 0;
        while i < vids.len()
            invariant
                set.wf(),
                vs == reward_validators(*set),
                vids@.len() == vs.len(),
                forall|q: int| 0 <= q < vids@.len() ==> vids@[q] == vs[q].validator_id,
                i <= vids@.len(),
                self.unwithdrawn_validator_rewards.wf(),
                self.unwithdrawn_delegator_rewards.wf(),
                self.unwithdrawn_validator_rewards.amounts() == without_keys(
                    vm,
                    |k: (int, Seq<Seq<char>>)| validator_key_below(*set, era, i as int, k),
                ),
                self.unwithdrawn_delegator_rewards.amounts() == without_keys(
                    dm,
                    |k: (int, Seq<Seq<char>>)| delegator_key_below(*set, era, i as int, 0, k),
                ),
                *self == (AppchainAnchor {
                    unwithdrawn_validator_rewards: self.unwithdrawn_validator_rewards,
                    unwithdrawn_delegator_rewards: self.unwithdrawn_delegator_rewards,
                    ..start
                }),
            decreases vids@.len() - i,
        {
            let vid = &vids[i];
            let dids = set.get_delegator_ids_of(vid);
            let ghost dels = set.set().delegators_of(vid@);
            let ghost outer = *self;
            proof {
                assert(histories_applied(set.status()));
                assert(vs == set.set().validators);
            }
            let mut j: usize = 0;
            while j < dids.len()
                invariant
                    set.wf(),
                    vs == reward_validators(*set),
                    histories_applied(set.status()),
                    i < vids@.len(),
                    vids@.len() == vs.len(),
                    vid@ == vs[i as int].validator_id@,
                    dels == set.set().delegators_of(vid@),
                    dids@.len() == dels.len(),
                    forall|q: int| 0 <= q < dids@.len() ==> dids@[q] == dels[q].delegator_id,
                    j <= dids@.len(),
                    self.unwithdrawn_delegator_rewards.wf(),
                    self.unwithdrawn_delegator_rewards.amounts() == without_keys(
                        dm,
                        |k: (int, Seq<Seq<char>>)| delegator_key_below(*set, era, i as int, j as int, k),
                    ),
                    outer.unwithdrawn_validator_rewards.wf(),
                    *self == (AppchainAnchor { unwithdrawn_delegator_rewards: self.unwithdrawn_delegator_rewards, ..outer }),
                decreases dids@.len() - j,
            {
                let key = (era, dids[j].clone(), vid.clone());
                let ghost before = self.unwithdrawn_delegator_rewards.amounts();
                let _ = self.unwithdrawn_delegator_rewards.remove(&key);
                proof {
                    let dk = delegator_key(*set, era, i as int, j as int);
                    assert(dk == (era as int, seq![dids@[j as int]@, vid@]));
                    assert forall|k: (int, Seq<Seq<char>>)|
                        delegator_key_below(*set, era, i as int, j + 1, k) == (delegator_key_below(
                            *set,
                            era,
                            i as int,
                            j as int,
                            k,
                        ) || k == dk) by {
                        if delegator_key_below(*set, era, i as int, j + 1, k) {
                            let (a, b) = choose|a: int, b: int|
                                0 <= a < reward_validators(*set).len() && 0 <= b < set.set().delegators_of(
                                    reward_validators(*set)[a].validator_id@,
                                ).len() && (a < i || (a == i && b < j + 1)) && k == #[trigger] delegator_key(
                                    *set,
                                    era,
                                    a,
                                    b,
                                );
                            if !(a == i && b == j) {
                                assert(delegator_key_below(*set, era, i as int, j as int, k));
                            }
                        }
                        if k == dk {
                            assert(delegator_key_below(*set, era, i as int, j + 1, k));
                        }
                    }
                    assert(self.unwithdrawn_delegator_rewards.amounts() =~= without_keys(
                        dm,
                        |k: (int, Seq<Seq<char>>)| delegator_key_below(*set, era, i as int, j + 1, k),
                    ));
                }
                j = j + 1;
            }
            proof {
                assert forall|k: (int, Seq<Seq<char>>)|
                    delegator_key_below(*set, era, i as int, j as int, k) == delegator_key_below(
                        *set,
                        era,
                        i + 1,
                        0,
                        k,
                    ) by {
                    if delegator_key_below(*set, era, i + 1, 0, k) {
                        let (a, b) = choose|a: int, b: int|
                            0 <= a < reward_validators(*set).len() && 0 <= b < set.set().delegators_of(
                                reward_validators(*set)[a].validator_id@,
                            ).len() && (a < i + 1 || (a == i + 1 && b < 0)) && k == #[trigger] delegator_key(
                                *set,
                                era,
                                a,
                                b,
                            );
                        assert(delegator_key_below(*set, era, i as int, j as int, k));
                    }
                }
                assert(without_keys(dm, |k: (int, Seq<Seq<char>>)| delegator_key_below(*set, era, i as int, j as int, k))
                    =~= without_keys(dm, |k: (int, Seq<Seq<char>>)| delegator_key_below(*set, era, i + 1, 0, k)));
            }
            let key = (era, vid.clone());
            let _ = self.unwithdrawn_validator_rewards.remove(&key);
            proof {
                let vk = (era as int, seq![vs[i as int].validator_id@]);
                assert forall|k: (int, Seq<Seq<char>>)|
                    validator_key_below(*set, era, i + 1, k) == (validator_key_below(*set, era, i as int, k) || k == vk) by {
                    if validator_key_below(*set, era, i + 1, k) {
                        let a = choose|a: int|
                            0 <= a < i + 1 && a < reward_validators(*set).len() && k == (
                                era as int,
                                seq![reward_validators(*set)[a].validator_id@],
                            );
                        if a < i {
                            assert(validator_key_below(*set, era, i as int, k));
                        }
                    }
                }
                assert(self.unwithdrawn_validator_rewards.amounts() =~= without_keys(
                    vm,
                    |k: (int, Seq<Seq<char>>)| validator_key_below(*set, era, i + 1, k),
                ));
            }
            i = i + 1;
        }
    }
    fn remove_oldest_step(&mut self) -> (res: (u64, MultiTxsOperationProcessingResult))
        requires
            old(self).wf(),
            old(self).validator_set_histories.start() < u64::MAX,
        ensures
            oldest_set_removed(*old(self), *final(self), res),
    {
        let era = self.validator_set_histories.index_range().start_index;
        let ghost before = *self;
        let result = match self.validator_set_histories.get(&era) {
            None => MultiTxsOperationProcessingResult::NeedMoreGas,
            Some(set) => {
                self.reward_distribution_records.clear(set, era);
                MultiTxsOperationProcessingResult::Finished
            },
        };
        if self.validator_set_histories.contains(&era) {
            let set = self.validator_set_histories.take(&era);
            match set {
                Some(s) => {
                    self.clear_unwithdrawn_rewards_of(&s, era);
                },
                None => {},
            }
        }
        let ghost mid = self.validator_set_histories;
        self.validator_set_histories.remove_before(&(era + 1));
        proof {
            let h = before.validator_set_histories;
            assert(self.validator_set_histories.records() =~= h.records().restrict(
                h.records().dom().filter(|i: u64| !(h.start() <= i < era + 1)),
            ));
            assert forall|e: u64| #[trigger]
                self.validator_set_histories.records().contains_key(e) implies self.validator_set_histories.records()[e].wf() by {
                assert(before.validator_set_histories.records().contains_key(e));
            }
        }
        (era, result)
    }

    /// Takes one step of the removal of the oldest validator set: an index
    /// without a set is passed over, or the set at the start index is
    /// removed with its reward records and unwithdrawn rewards. Refused
    /// unless `caller` is the owner and the history holds more eras than the
    /// anchor setting `min_length_of_validator_set_history`.
    pub fn remove_oldest_validator_set(&mut self, caller: &AccountId) -> (res: Result<
        (u64, MultiTxsOperationProcessingResult),
        AnchorError,
    >)
        requires
            old(self).wf(),
            old(self).validator_set_histories.end() < u64::MAX,
        ensures
            caller@ != old(self).owner@ ==> res == Err::<(u64, MultiTxsOperationProcessingResult), AnchorError>(
                AnchorError::NotAuthorized,
            ) && *final(self) == *old(self),
            caller@ == old(self).owner@ && history_length(old(self).validator_set_histories)
                <= old(self).anchor_settings.min_length_of_validator_set_history ==> res
                == Err::<(u64, MultiTxsOperationProcessingResult), AnchorError>(AnchorError::ValidatorSetHistoryTooShort)
                && *final(self) == *old(self),
            caller@ == old(self).owner@ && history_length(old(self).validator_set_histories)
                > old(self).anchor_settings.min_length_of_validator_set_history ==> (res matches Ok(
                r,
            ) && oldest_set_removed(*old(self), *final(self), r)),
    {
        if *caller != self.owner {
            return Err(AnchorError::NotAuthorized);
        }
        let range = self.validator_set_histories.index_range();
        let length: u64 = if range.start_index <= range.end_index && self.validator_set_histories.contains(&range.end_index) {
            range.end_index - range.start_index + 1
        } else {
            0
        };
        if length <= self.anchor_settings.min_length_of_validator_set_history {
            return Err(AnchorError::ValidatorSetHistoryTooShort);
        }
        Ok(self.remove_oldest_step())
    }

    /// Takes one step of the removal of all validator sets, as
    /// `remove_oldest_validator_set` does with no length to keep; where
    /// no set is left, nothing changes and the result is `Finished`. Refused
    /// unless `caller` is the owner.
    pub fn clear_validator_set_histories(&mut self, caller: &AccountId) -> (res: Result<
        (u64, MultiTxsOperationProcessingResult),
        AnchorError,
    >)
        requires
            old(self).wf(),
            old(self).validator_set_histories.end() < u64::MAX,
        ensures
            caller@ != old(self).owner@ ==> res == Err::<(u64, MultiTxsOperationProcessingResult), AnchorError>(
                AnchorError::NotAuthorized,
            ) && *final(self) == *old(self),
            caller@ == old(self).owner@ && history_length(old(self).validator_set_histories) == 0 ==> res == Ok::<
                (u64, MultiTxsOperationProcessingResult),
                AnchorError,
            >((old(self).validator_set_histories.start(), MultiTxsOperationProcessingResult::Finished))
                && *final(self) == *old(self),
            caller@ == old(self).owner@ && history_length(old(self).validator_set_histories) > 0 ==> (res matches Ok(
                r,
            ) && oldest_set_removed(*old(self), *final(self), r)),
    {
        if *caller != self.owner {
            return Err(AnchorError::NotAuthorized);
        }
        let range = self.validator_set_histories.index_range();
        if !(range.start_index <= range.end_index && self.validator_set_histories.contains(&range.end_index)) {
            return Ok((range.start_index, MultiTxsOperationProcessingResult::Finished));
        }
        Ok(self.remove_oldest_step())
    }
}

} // verus!
