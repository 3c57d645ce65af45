//! The withdrawal of unbonded stakes, once they are unlocked, and of the
//! rewards of the latest eras.
use crate::anchor::AppchainAnchor;
use crate::errors::AnchorError;
use crate::switching_era::{era_set, unbonded_account};
use crate::types::{AccountId, StakingFact, UnbondedStake};
use crate::unbonded_stakes::UnbondedStakeReference;
use vstd::prelude::*;

verus! {

/// The seconds of a day.
pub const SECONDS_OF_A_DAY: u64 = 86400;

/// The nanoseconds of a second.
pub const NANO_SECONDS_MULTIPLE: u64 = 1_000_000_000;

/// The sum of the rewards of `m` for the account ids `ids` in the eras from
/// `lo` to before `hi`.
pub open spec fn rewards_between(m: Map<(int, Seq<Seq<char>>), u128>, ids: Seq<Seq<char>>, lo: int, hi: int) -> int
    decreases hi - lo,
{
    if hi <= lo {
        0
    } else {
        rewards_between(m, ids, lo, hi - 1) + if m.contains_key((hi - 1, ids)) {
            m[(hi - 1, ids)] as int
        } else {
            0
        }
    }
}

/// `m` without the rewards for the account ids `ids` in the eras from `lo`
/// to before `hi`.
pub open spec fn rewards_removed(m: Map<(int, Seq<Seq<char>>), u128>, ids: Seq<Seq<char>>, lo: int, hi: int) -> Map<
    (int, Seq<Seq<char>>),
    u128,
> {
    m.restrict(m.dom().filter(|k: (int, Seq<Seq<char>>)| !(k.1 == ids && lo <= k.0 < hi)))
}

proof fn lemma_rewards_between_grows(m: Map<(int, Seq<Seq<char>>), u128>, ids: Seq<Seq<char>>, lo: int, hi: int, top: int)
    requires
        lo <= hi <= top,
    ensures
        0 <= rewards_between(m, ids, lo, hi) <= rewards_between(m, ids, lo, top),
    decreases top - lo,
{
    if hi < top {
        lemma_rewards_between_grows(m, ids, lo, hi, top - 1);
    } else if lo < hi {
        lemma_rewards_between_grows(m, ids, lo, hi - 1, hi - 1);
    }
}

/// The first era whose rewards can still be withdrawn, where the last era
/// is `end` and rewards stay for `count` eras.
pub open spec fn first_reward_era(end: u64, count: u64) -> int {
    if end > count {
        end - count + 1
    } else {
        0
    }
}

/// Why `a` refuses a withdrawal of rewards, if it does.
pub open spec fn reward_withdrawal_refusal(a: AppchainAnchor) -> Option<AnchorError> {
    if a.asset_transfer_is_paused {
        Some(AnchorError::AssetTransferPaused)
    } else if a.rewards_withdrawal_is_paused {
        Some(AnchorError::RewardsWithdrawalPaused)
    } else {
        None
    }
}

impl AppchainAnchor {
    /// Takes the unwithdrawn rewards of the validator `validator_id` in the
    /// eras whose rewards can still be withdrawn, up to the last era, and
    /// returns their sum, which is to be transferred to the validator.
    /// Refused while the transfer of assets or the withdrawal of rewards is
    /// paused.
    pub fn withdraw_validator_rewards(&mut self, validator_id: &AccountId) -> (res: Result<u128, AnchorError>)
        requires
            old(self).unwithdrawn_validator_rewards.wf(),
            old(self).validator_set_histories.end() < u64::MAX,
            rewards_between(
                old(self).unwithdrawn_validator_rewards.amounts(),
                seq![validator_id@],
                first_reward_era(
                    old(self).validator_set_histories.end(),
                    old(self).protocol_settings.maximum_era_count_of_unwithdrawn_reward,
                ),
                old(self).validator_set_histories.end() + 1,
            ) <= u128::MAX,
        ensures
            match reward_withdrawal_refusal(*old(self)) {
                Some(e) => res == Err::<u128, AnchorError>(e) && *final(self) == *old(self),
                None => {
                    let m = old(self).unwithdrawn_validator_rewards.amounts();
                    let lo = first_reward_era(
                        old(self).validator_set_histories.end(),
                        old(self).protocol_settings.maximum_era_count_of_unwithdrawn_reward,
                    );
                    let hi = old(self).validator_set_histories.end() + 1;
                    &&& res == Ok::<u128, AnchorError>(rewards_between(m, seq![validator_id@], lo, hi) as u128)
                    &&& final(self).unwithdrawn_validator_rewards.wf()
                    &&& final(self).unwithdrawn_validator_rewards.amounts() == rewards_removed(m, seq![validator_id@], lo, hi)
                    &&& *final(self) == (AppchainAnchor {
                        unwithdrawn_validator_rewards: final(self).unwithdrawn_validator_rewards,
                        ..*old(self)
                    })
                },
            },
    {
        if self.asset_transfer_is_paused {
            return Err(AnchorError::AssetTransferPaused);
        }
        if self.rewards_withdrawal_is_paused {
            return Err(AnchorError::RewardsWithdrawalPaused);
        }
        let end_era = self.validator_set_histories.index_range().end_index;
        let count = self.protocol_settings.maximum_era_count_of_unwithdrawn_reward;
        let start_era = if end_era > count {
            end_era - count + 1
        } else {
            0
        };
        let ghost m = self.unwithdrawn_validator_rewards.amounts();
        let ghost ids = seq![validator_id@];
        let ghost start = *self;
        let mut reward_to_withdraw: u128 = 0;
        let mut era_number = start_era;
        while era_number < end_era + 1
            invariant
                start_era <= era_number <= end_era + 1,
                end_era < u64::MAX,
                ids == seq![validator_id@],
                rewards_between(m, ids, start_era as int, end_era + 1) <= u128::MAX,
                reward_to_withdraw == rewards_between(m, ids, start_era as int, era_number as int),
                self.unwithdrawn_validator_rewards.wf(),
                self.unwithdrawn_validator_rewards.amounts() == rewards_removed(m, ids, start_era as int, era_number as int),
                *self == (AppchainAnchor { unwithdrawn_validator_rewards: self.unwithdrawn_validator_rewards, ..start }),
            decreases end_era + 1 - era_number,
        {
            let key = (era_number, validator_id.clone());
            proof {
                lemma_rewards_between_grows(m, ids, start_era as int, era_number + 1, end_era + 1);
            }
            if let Some(reward) = self.unwithdrawn_validator_rewards.remove(&key) {
                reward_to_withdraw = reward_to_withdraw + reward;
            }
            assert(self.unwithdrawn_validator_rewards.amounts() =~= rewards_removed(
                m,
                ids,
                start_era as int,
                era_number + 1,
            ));
            era_number = era_number + 1;
        }
        Ok(reward_to_withdraw)
    }

    /// Takes the unwithdrawn rewards of `delegator_id` for its delegation to
    /// `validator_id` in the eras whose rewards can still be withdrawn, up to
    /// the last era, and returns their sum, which is to be transferred to the
    /// delegator. Refused while the transfer of assets or the withdrawal of
    /// rewards is paused.
    pub fn withdraw_delegator_rewards(&mut self, delegator_id: &AccountId, validator_id: &AccountId) -> (res: Result<u128, AnchorError>)
        requires
            old(self).unwithdrawn_delegator_rewards.wf(),
            old(self).validator_set_histories.end() < u64::MAX,
            rewards_between(
                old(self).unwithdrawn_delegator_rewards.amounts(),
                seq![delegator_id@, validator_id@],
                first_reward_era(
                    old(self).validator_set_histories.end(),
                    old(self).protocol_settings.maximum_era_count_of_unwithdrawn_reward,
                ),
                old(self).validator_set_histories.end() + 1,
            ) <= u128::MAX,
        ensures
            match reward_withdrawal_refusal(*old(self)) {
                Some(e) => res == Err::<u128, AnchorError>(e) && *final(self) == *old(self),
                None => {
                    let m = old(self).unwithdrawn_delegator_rewards.amounts();
                    let ids = seq![delegator_id@, validator_id@];
                    let lo = first_reward_era(
                        old(self).validator_set_histories.end(),
                        old(self).protocol_settings.maximum_era_count_of_unwithdrawn_reward,
                    );
                    let hi = old(self).validator_set_histories.end() + 1;
                    &&& res == Ok::<u128, AnchorError>(rewards_between(m, ids, lo, hi) as u128)
                    &&& final(self).unwithdrawn_delegator_rewards.wf()
                    &&& final(self).unwithdrawn_delegator_rewards.amounts() == rewards_removed(m, ids, lo, hi)
                    &&& *final(self) == (AppchainAnchor {
                        unwithdrawn_delegator_rewards: final(self).unwithdrawn_delegator_rewards,
                        ..*old(self)
                    })
                },
            },
    {
        if self.asset_transfer_is_paused {
            return Err(AnchorError::AssetTransferPaused);
        }
        if self.rewards_withdrawal_is_paused {
            return Err(AnchorError::RewardsWithdrawalPaused);
        }
        let end_era = self.validator_set_histories.index_range().end_index;
        let count = self.protocol_settings.maximum_era_count_of_unwithdrawn_reward;
        let start_era = if end_era > count {
            end_era - count + 1
        } else {
            0
        };
        let ghost m = self.unwithdrawn_delegator_rewards.amounts();
        let ghost ids = seq![delegator_id@, validator_id@];
        let ghost start = *self;
        let mut reward_to_withdraw: u128 = 0;
        let mut era_number = start_era;
        while era_number < end_era + 1
            invariant
                start_era <= era_number <= end_era + 1,
                end_era < u64::MAX,
                ids == seq![delegator_id@, validator_id@],
                rewards_between(m, ids, start_era as int, end_era + 1) <= u128::MAX,
                reward_to_withdraw == rewards_between(m, ids, start_era as int, era_number as int),
                self.unwithdrawn_delegator_rewards.wf(),
                self.unwithdrawn_delegator_rewards.amounts() == rewards_removed(m, ids, start_era as int, era_number as int),
                *self == (AppchainAnchor { unwithdrawn_delegator_rewards: self.unwithdrawn_delegator_rewards, ..start }),
            decreases end_era + 1 - era_number,
        {
            let key = (era_number, delegator_id.clone(), validator_id.clone());
            proof {
                lemma_rewards_between_grows(m, ids, start_era as int, era_number + 1, end_era + 1);
            }
            if let Some(reward) = self.unwithdrawn_delegator_rewards.remove(&key) {
                reward_to_withdraw = reward_to_withdraw + reward;
            }
            assert(self.unwithdrawn_delegator_rewards.amounts() =~= rewards_removed(
                m,
                ids,
                start_era as int,
                era_number + 1,
            ));
            era_number = era_number + 1;
        }
        Ok(reward_to_withdraw)
    }
}

/// The amount that `fact` unbonds and the unlock period (in days) of it,
/// where it unbonds a stake that can be withdrawn.
pub open spec fn unlocked_amount(a: AppchainAnchor, fact: StakingFact) -> Option<(u128, u64)> {
    match fact {
        StakingFact::StakeDecreased { amount, .. } => Some((amount, a.protocol_settings.unlock_period_of_validator_deposit)),
        StakingFact::ValidatorUnbonded { amount, .. } => Some((amount, a.protocol_settings.unlock_period_of_validator_deposit)),
        StakingFact::DelegationDecreased { amount, .. } => Some((amount, a.protocol_settings.unlock_period_of_delegator_deposit)),
        StakingFact::DelegatorUnbonded { amount, .. } => Some((amount, a.protocol_settings.unlock_period_of_delegator_deposit)),
        _ => None,
    }
}

/// The time at which the stake unbonded at `r` unlocks, where it can be withdrawn.
pub open spec fn unlock_time(a: AppchainAnchor, r: UnbondedStakeReference) -> int {
    let days = unlocked_amount(a, a.staking_histories.records()[r.staking_history_index].staking_fact)->Some_0.1;
    era_set(a, r.era_number).start_time() + days * SECONDS_OF_A_DAY * NANO_SECONDS_MULTIPLE
}

/// The sum of the stakes of `refs` that are unlocked at `now`, and the
/// references of the stakes that are still locked, in order; references of
/// stakes that cannot be withdrawn are dropped.
pub open spec fn withdrawal(a: AppchainAnchor, refs: Seq<UnbondedStakeReference>, now: u64) -> (int, Seq<UnbondedStakeReference>)
    decreases refs.len(),
{
    if refs.len() == 0 {
        (0, Seq::empty())
    } else {
        let (sum, kept) = withdrawal(a, refs.drop_last(), now);
        let r = refs.last();
        match unlocked_amount(a, a.staking_histories.records()[r.staking_history_index].staking_fact) {
            Some((amount, _)) => if unlock_time(a, r) < now {
                (sum + amount, kept)
            } else {
                (sum, kept.push(r))
            },
            None => (sum, kept),
        }
    }
}

/// Whether the references `refs` name sets of eras and staking histories of
/// `a`, with unlock times that fit in a `u64`.
pub open spec fn references_readable(a: AppchainAnchor, refs: Seq<UnbondedStakeReference>) -> bool {
    forall|i: int| 0 <= i < refs.len() ==> {
        &&& a.validator_set_histories.records().contains_key(#[trigger] refs[i].era_number)
        &&& a.staking_histories.records().contains_key(refs[i].staking_history_index)
        &&& unlocked_amount(a, a.staking_histories.records()[refs[i].staking_history_index].staking_fact) is Some
            ==> unlock_time(a, refs[i]) <= u64::MAX
    }
}

proof fn lemma_withdrawal_grows(a: AppchainAnchor, refs: Seq<UnbondedStakeReference>, now: u64, n: int)
    requires
        0 <= n <= refs.len(),
    ensures
        0 <= withdrawal(a, refs.take(n), now).0 <= withdrawal(a, refs, now).0,
    decreases refs.len(),
{
    if n < refs.len() {
        assert(refs.drop_last().take(n) =~= refs.take(n));
        lemma_withdrawal_grows(a, refs.drop_last(), now, n);
    } else {
        assert(refs.take(n) =~= refs);
        if refs.len() > 0 {
            lemma_withdrawal_grows(a, refs.drop_last(), now, refs.len() - 1);
            assert(refs.drop_last().take(refs.len() - 1) =~= refs.drop_last());
        }
    }
}

impl AppchainAnchor {
    /// Takes the unbonded stakes of `account_id` that are unlocked at `now`
    /// and returns their sum, which is to be transferred to the account; the
    /// stakes that are still locked stay. Refused while the transfer of
    /// assets is paused.
    pub fn withdraw_stake(&mut self, account_id: &AccountId, now: u64) -> (res: Result<u128, AnchorError>)
        requires
            references_readable(*old(self), old(self).unbonded_stakes.stakes_of(account_id@)),
            withdrawal(*old(self), old(self).unbonded_stakes.stakes_of(account_id@), now).0 <= u128::MAX,
        ensures
            old(self).asset_transfer_is_paused ==> res == Err::<u128, AnchorError>(AnchorError::AssetTransferPaused)
                && *final(self) == *old(self),
            !old(self).asset_transfer_is_paused ==> {
                let (sum, kept) = withdrawal(*old(self), old(self).unbonded_stakes.stakes_of(account_id@), now);
                &&& res == Ok::<u128, AnchorError>(sum as u128)
                &&& forall|id: Seq<char>| #[trigger] final(self).unbonded_stakes.stakes_of(id) == if id == account_id@ {
                    kept
                } else {
                    old(self).unbonded_stakes.stakes_of(id)
                }
                &&& *final(self) == (AppchainAnchor { unbonded_stakes: final(self).unbonded_stakes, ..*old(self) })
            },
    {
        if self.asset_transfer_is_paused {
            return Err(AnchorError::AssetTransferPaused);
        }
        let refs = self.unbonded_stakes.get_stakes_of(account_id);
        let ghost a = *self;
        let mut balance_to_withdraw: u128 = 0;
        let mut remained_stakes: Vec<UnbondedStakeReference> = Vec::new();
        let mut i: usize = 0;
        while i < refs.len()
            invariant
                *self == a,
                refs@ == a.unbonded_stakes.stakes_of(account_id@),
                references_readable(a, refs@),
                withdrawal(a, refs@, now).0 <= u128::MAX,
                i <= refs@.len(),
                (balance_to_withdraw as int, remained_stakes@) == withdrawal(a, refs@.take(i as int), now),
            decreases refs@.len() - i,
        {
            let reference = refs[i];
            assert(refs@.take(i + 1).drop_last() =~= refs@.take(i as int));
            assert(refs@.take(i + 1).last() == reference);
            proof {
                lemma_withdrawal_grows(a, refs@, now, i + 1);
            }
            let start_time = match self.validator_set_histories.get(&reference.era_number) {
                Some(set) => set.start_timestamp(),
                None => {
                    assert(false);
                    0
                },
            };
            let unlocked = match self.staking_histories.get(&reference.staking_history_index) {
                Some(history) => match &history.staking_fact {
                    StakingFact::StakeDecreased { amount, .. } => Some((*amount, self.protocol_settings.unlock_period_of_validator_deposit)),
                    StakingFact::ValidatorUnbonded { amount, .. } => Some(
                        (*amount, self.protocol_settings.unlock_period_of_validator_deposit),
                    ),
                    StakingFact::DelegationDecreased { amount, .. } => Some(
                        (*amount, self.protocol_settings.unlock_period_of_delegator_deposit),
                    ),
                    StakingFact::DelegatorUnbonded { amount, .. } => Some(
                        (*amount, self.protocol_settings.unlock_period_of_delegator_deposit),
                    ),
                    _ => None,
                },
                None => {
                    assert(false);
                    None
                },
            };
            if let Some((amount, days)) = unlocked {
                assert(unlock_time(a, refs@[i as int]) <= u64::MAX);
                if start_time + days * SECONDS_OF_A_DAY * NANO_SECONDS_MULTIPLE < now {
                    balance_to_withdraw = balance_to_withdraw + amount;
                } else {
                    remained_stakes.push(reference);
                }
            }
            i = i + 1;
        }
        assert(refs@.take(i as int) =~= refs@);
        self.unbonded_stakes.replace_stakes_of(account_id, remained_stakes);
        Ok(balance_to_withdraw)
    }
}

/// The unbonded stakes of the references `refs` in `a`, as the anchor shows
/// them: the era, the account, the amount and the time of unlocking of each
/// stake that a decrease or an unbonding recorded.
pub open spec fn unbonded_stakes_view(a: AppchainAnchor, refs: Seq<UnbondedStakeReference>) -> Seq<UnbondedStake>
    decreases refs.len(),
{
    if refs.len() == 0 {
        Seq::empty()
    } else {
        let prev = unbonded_stakes_view(a, refs.drop_last());
        let r = refs.last();
        let fact = a.staking_histories.records()[r.staking_history_index].staking_fact;
        match unlocked_amount(a, fact) {
            Some((amount, _)) => prev.push(
                UnbondedStake {
                    era_number: r.era_number,
                    account_id: unbonded_account(fact)->Some_0,
                    amount,
                    unlock_time: unlock_time(a, r) as u64,
                },
            ),
            None => prev,
        }
    }
}

impl AppchainAnchor {
    /// The unbonded stakes of `account_id` that are not withdrawn, each with
    /// the time at which it unlocks.
    pub fn get_unbonded_stakes_of(&self, account_id: &AccountId) -> (res: Vec<UnbondedStake>)
        requires
            references_readable(*self, self.unbonded_stakes.stakes_of(account_id@)),
        ensures
            res@ == unbonded_stakes_view(*self, self.unbonded_stakes.stakes_of(account_id@)),
    {
        let refs = self.unbonded_stakes.get_stakes_of(account_id);
        let mut result: Vec<UnbondedStake> = Vec::new();
        let mut i: usize = 0;
        while i < refs.len()
            invariant
                refs@ == self.unbonded_stakes.stakes_of(account_id@),
                references_readable(*self, refs@),
                i <= refs@.len(),
                result@ == unbonded_stakes_view(*self, refs@.take(i as int)),
            decreases refs@.len() - i,
        {
            let reference = refs[i];
            assert(refs@.take(i + 1).drop_last() =~= refs@.take(i as int));
            assert(refs@.take(i + 1).last() == reference);
            let start_time = match self.validator_set_histories.get(&reference.era_number) {
                Some(set) => set.start_timestamp(),
                None => {
                    assert(false);
                    0
                },
            };
            let stake = match self.staking_histories.get(&reference.staking_history_index) {
                Some(history) => match &history.staking_fact {
                    StakingFact::StakeDecreased { validator_id, amount } | StakingFact::ValidatorUnbonded {
                        validator_id,
                        amount,
                    } => Some((validator_id.clone(), *amount, self.protocol_settings.unlock_period_of_validator_deposit)),
                    StakingFact::DelegationDecreased { delegator_id, amount, .. }
                    | StakingFact::DelegatorUnbonded { delegator_id, amount, .. } => Some(
                        (delegator_id.clone(), *amount, self.protocol_settings.unlock_period_of_delegator_deposit),
                    ),
                    _ => None,
                },
                None => {
                    assert(false);
                    None
                },
            };
            if let Some((account, amount, days)) = stake {
                assert(unlock_time(*self, refs@[i as int]) <= u64::MAX);
                result.push(
                    UnbondedStake {
                        era_number: reference.era_number,
                        account_id: account,
                        amount,
                        unlock_time: start_time + days * SECONDS_OF_A_DAY * NANO_SECONDS_MULTIPLE,
                    },
                );
            }
            i = i + 1;
        }
        assert(refs@.take(i as int) =~= refs@);
        result
    }
}

proof fn lemma_rewards_between_absent(m: Map<(int, Seq<Seq<char>>), u128>, ids: Seq<Seq<char>>, lo: int, hi: int)
    requires
        forall|k: int| lo <= k < hi ==> !m.contains_key((k, ids)),
    ensures
        rewards_between(m, ids, lo, hi) == 0,
    decreases hi - lo,
{
    if hi > lo {
        lemma_rewards_between_absent(m, ids, lo, hi - 1);
    }
}

/// Law: a reward is withdrawn once. Once the rewards of `ids` in the eras
/// `lo..hi` are removed, as a withdrawal removes them, a withdrawal over the
/// same eras finds nothing left.
pub proof fn lemma_rewards_withdrawn_once(m: Map<(int, Seq<Seq<char>>), u128>, ids: Seq<Seq<char>>, lo: int, hi: int)
    ensures
        rewards_between(rewards_removed(m, ids, lo, hi), ids, lo, hi) == 0,
{
    lemma_rewards_between_absent(rewards_removed(m, ids, lo, hi), ids, lo, hi);
}

/// Law: an unbonded stake is withdrawn once. The stakes that a withdrawal
/// at `now` keeps (those still locked) give nothing to a withdrawal at the
/// same time, which keeps them all.
pub proof fn lemma_stake_withdrawn_once(a: AppchainAnchor, refs: Seq<UnbondedStakeReference>, now: u64)
    ensures
        withdrawal(a, withdrawal(a, refs, now).1, now) == (0int, withdrawal(a, refs, now).1),
    decreases refs.len(),
{
    if refs.len() > 0 {
        let front = refs.drop_last();
        lemma_stake_withdrawn_once(a, front, now);
        let kept = withdrawal(a, front, now).1;
        let r = refs.last();
        if let Some((amount, _)) = unlocked_amount(a, a.staking_histories.records()[r.staking_history_index].staking_fact) {
            if unlock_time(a, r) >= now {
                assert(kept.push(r).drop_last() =~= kept);
                assert(kept.push(r).last() == r);
            }
        }
    }
}


/// What a withdrawal at `now` keeps of the stakes `refs`: exactly those that
/// a decrease or an unbonding recorded and whose unlock time is not before
/// `now`.
proof fn lemma_withdrawal_keeps(a: AppchainAnchor, refs: Seq<UnbondedStakeReference>, now: u64, x: UnbondedStakeReference)
    ensures
        withdrawal(a, refs, now).1.contains(x) <==> (refs.contains(x) && unlocked_amount(
            a,
            a.staking_histories.records()[x.staking_history_index].staking_fact,
        ) is Some && unlock_time(a, x) >= now),
    decreases refs.len(),
{
    if refs.len() > 0 {
        let front = refs.drop_last();
        lemma_withdrawal_keeps(a, front, now, x);
        let kept = withdrawal(a, front, now).1;
        let r = refs.last();
        assert(refs == front.push(r));
        if refs.contains(x) {
            let j = choose|j: int| 0 <= j < refs.len() && refs[j] == x;
            if j < front.len() {
                assert(front[j] == x);
            }
        }
        if front.contains(x) {
            let j = choose|j: int| 0 <= j < front.len() && front[j] == x;
            assert(refs[j] == x);
        }
        if kept.contains(x) {
            let j = choose|j: int| 0 <= j < kept.len() && kept[j] == x;
            assert(kept.push(r)[j] == x);
        }
        if kept.push(r).contains(x) {
            let j = choose|j: int| 0 <= j < kept.push(r).len() && kept.push(r)[j] == x;
            if j < kept.len() {
                assert(kept[j] == x);
            }
        }
        if x == r {
            assert(refs[refs.len() - 1] == x);
            assert(kept.push(r)[kept.len() as int] == x);
        }
    }
}

/// A stake unlocks after the unlock period of its kind, counted from the
/// start of the era in which it was unbonded: a withdrawal at `now` leaves
/// the stake at `refs[i]` in place exactly while `now` is not past the start
/// time of its era plus the unlock period (in days) of validator deposits,
/// where a validator decreased or unbonded it, or of delegator deposits,
/// where a delegator did.
pub proof fn lemma_stake_unlocks_after_its_period(a: AppchainAnchor, refs: Seq<UnbondedStakeReference>, now: u64, i: int)
    requires
        0 <= i < refs.len(),
    ensures
        ({
            let r = refs[i];
            let fact = a.staking_histories.records()[r.staking_history_index].staking_fact;
            let start = era_set(a, r.era_number).start_time() as int;
            let kept = withdrawal(a, refs, now).1.contains(r);
            &&& (fact is StakeDecreased || fact is ValidatorUnbonded) ==> (kept <==> now <= start
                + a.protocol_settings.unlock_period_of_validator_deposit * SECONDS_OF_A_DAY * NANO_SECONDS_MULTIPLE)
            &&& (fact is DelegationDecreased || fact is DelegatorUnbonded) ==> (kept <==> now <= start
                + a.protocol_settings.unlock_period_of_delegator_deposit * SECONDS_OF_A_DAY * NANO_SECONDS_MULTIPLE)
        }),
{
    let r = refs[i];
    lemma_withdrawal_keeps(a, refs, now, r);
    assert(refs.contains(r));
}


/// Whether `e` shows the stake that the decrease or unbonding `fact`
/// recorded in era `era_number`, of the set `set`, with the unlock time that
/// the unlock period of its kind gives.
pub open spec fn shows_unbonded_stake(a: AppchainAnchor, e: UnbondedStake, fact: StakingFact, era_number: u64) -> bool {
    let start = era_set(a, era_number).start_time() as int;
    &&& e.era_number == era_number
    &&& match fact {
        StakingFact::StakeDecreased { validator_id, amount } => e.account_id == validator_id && e.amount == amount
            && e.unlock_time == start + a.protocol_settings.unlock_period_of_validator_deposit * SECONDS_OF_A_DAY
            * NANO_SECONDS_MULTIPLE,
        StakingFact::ValidatorUnbonded { validator_id, amount } => e.account_id == validator_id && e.amount == amount
            && e.unlock_time == start + a.protocol_settings.unlock_period_of_validator_deposit * SECONDS_OF_A_DAY
            * NANO_SECONDS_MULTIPLE,
        StakingFact::DelegationDecreased { delegator_id, amount, .. } => e.account_id == delegator_id && e.amount
            == amount && e.unlock_time == start + a.protocol_settings.unlock_period_of_delegator_deposit
            * SECONDS_OF_A_DAY * NANO_SECONDS_MULTIPLE,
        StakingFact::DelegatorUnbonded { delegator_id, amount, .. } => e.account_id == delegator_id && e.amount == amount
            && e.unlock_time == start + a.protocol_settings.unlock_period_of_delegator_deposit * SECONDS_OF_A_DAY
            * NANO_SECONDS_MULTIPLE,
        _ => false,
    }
}

/// Whether `e` shows the stake of one of the references `refs`, as
/// `shows_unbonded_stake` says.
pub open spec fn shows_stake_of(a: AppchainAnchor, e: UnbondedStake, refs: Seq<UnbondedStakeReference>) -> bool {
    exists|i: int|
        0 <= i < refs.len() && #[trigger] shows_unbonded_stake(
            a,
            e,
            a.staking_histories.records()[refs[i].staking_history_index].staking_fact,
            refs[i].era_number,
        )
}

/// Each unbonded stake that the anchor shows for the references `refs`
/// (whose unlock times fit in a `u64`) is the stake of one of them, with the
/// unlock time of its kind: the start of its era plus the unlock period of
/// validator deposits for a validator's decrease or unbonding, or of
/// delegator deposits for a delegator's.
pub proof fn lemma_shown_unbonded_stakes(a: AppchainAnchor, refs: Seq<UnbondedStakeReference>)
    requires
        references_readable(a, refs),
    ensures
        forall|k: int|
            0 <= k < unbonded_stakes_view(a, refs).len() ==> shows_stake_of(a, #[trigger] unbonded_stakes_view(a, refs)[k], refs),
    decreases refs.len(),
{
    if refs.len() > 0 {
        let front = refs.drop_last();
        assert forall|i: int| 0 <= i < front.len() implies {
            &&& a.validator_set_histories.records().contains_key(#[trigger] front[i].era_number)
            &&& a.staking_histories.records().contains_key(front[i].staking_history_index)
            &&& unlocked_amount(a, a.staking_histories.records()[front[i].staking_history_index].staking_fact) is Some
                ==> unlock_time(a, front[i]) <= u64::MAX
        } by {
            assert(front[i] == refs[i]);
        }
        lemma_shown_unbonded_stakes(a, front);
        let prev = unbonded_stakes_view(a, front);
        let view = unbonded_stakes_view(a, refs);
        let n = refs.len() - 1;
        let r = refs[n];
        assert(refs.last() == r);
        assert forall|k: int| 0 <= k < view.len() implies shows_stake_of(a, #[trigger] view[k], refs) by {
            if k < prev.len() {
                assert(view[k] == prev[k]);
                assert(shows_stake_of(a, prev[k], front));
                let i = choose|i: int|
                    0 <= i < front.len() && #[trigger] shows_unbonded_stake(
                        a,
                        prev[k],
                        a.staking_histories.records()[front[i].staking_history_index].staking_fact,
                        front[i].era_number,
                    );
                assert(refs[i] == front[i]);
                assert(shows_unbonded_stake(
                    a,
                    view[k],
                    a.staking_histories.records()[refs[i].staking_history_index].staking_fact,
                    refs[i].era_number,
                ));
            } else {
                let fact = a.staking_histories.records()[r.staking_history_index].staking_fact;
                assert(unlocked_amount(a, fact) is Some);
                assert(0 <= unlock_time(a, r) <= u64::MAX);
                assert(shows_unbonded_stake(
                    a,
                    view[k],
                    a.staking_histories.records()[refs[n].staking_history_index].staking_fact,
                    refs[n].era_number,
                ));
            }
        }
    }
}

} // verus!
