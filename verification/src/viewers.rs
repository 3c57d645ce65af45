//! What the anchor shows of its validator sets, histories and rewards.
use crate::account_id_in_appchain::{is_valid_raw_id, AccountIdInAppchain};
use crate::anchor::AppchainAnchor;
use crate::balance_map::abstract_key;
use crate::errors::AnchorError;
use crate::profiles::{position_of_id_in_appchain, ValidatorProfile};
use crate::staking_rules::formatted_id;
use crate::switching_era::era_set;
use crate::types::{
    AccountId, AppchainDelegator, AppchainNotificationHistory, RewardHistory, StakingHistory, ValidatorSetInfo,
    ValidatorSetProcessingStatus,
};
use crate::validator_set::{Delegator, ValidatorSet, ValidatorSetModel};
use crate::validator_set_of_era::histories_applied;
use vstd::prelude::*;

verus! {

/// The validators and delegators that `a` shows for era `era_number`, or for
/// the next era where none is given: a set of a past era shows nothing until
/// all its staking histories are applied.
pub open spec fn shown_set(a: AppchainAnchor, era_number: Option<u64>) -> Option<ValidatorSetModel> {
    match era_number {
        None => Some(a.next_validator_set.set()),
        Some(e) => if a.validator_set_histories.records().contains_key(e) && histories_applied(era_set(a, e).status()) {
            Some(era_set(a, e).set())
        } else {
            None
        },
    }
}

/// Whether `res` lists the delegators `ds` of the validator `validator_id`.
pub open spec fn delegators_listed(res: Seq<AppchainDelegator>, ds: Seq<Delegator>, validator_id: AccountId) -> bool {
    &&& res.len() == ds.len()
    &&& forall|i: int| 0 <= i < res.len() ==> {
        &&& (#[trigger] res[i]).delegator_id == ds[i].delegator_id
        &&& res[i].validator_id == validator_id
        &&& res[i].delegation_amount == ds[i].deposit_amount
    }
}

/// The rewards recorded by the sets of `a` for the key `key` in the eras
/// `lo..hi`, in order: the reward of the era, and what of it is not withdrawn.
pub open spec fn reward_histories(
    a: AppchainAnchor,
    set_key: (int, Seq<Seq<char>>),
    validator: bool,
    unwithdrawn: Map<(int, Seq<Seq<char>>), u128>,
    lo: int,
    hi: int,
) -> Seq<RewardHistory>
    decreases hi - lo,
{
    if hi <= lo {
        Seq::empty()
    } else {
        let prev = reward_histories(a, set_key, validator, unwithdrawn, lo, hi - 1);
        let e = (hi - 1) as u64;
        let rewards = if validator {
            era_set(a, e).validator_reward_map()
        } else {
            era_set(a, e).delegator_reward_map()
        };
        let key = (e as int, set_key.1);
        if a.validator_set_histories.records().contains_key(e) && rewards.contains_key(set_key) {
            prev.push(
                RewardHistory {
                    era_number: e,
                    total_reward: rewards[set_key],
                    unwithdrawn_reward: if unwithdrawn.contains_key(key) {
                        unwithdrawn[key]
                    } else {
                        0
                    },
                },
            )
        } else {
            prev
        }
    }
}

impl AppchainAnchor {
    /// The set that the anchor shows for `era_number`, as `shown_set` says.
    fn shown_validator_set(&self, era_number: Option<u64>) -> (res: Option<&ValidatorSet>)
        requires
            self.wf(),
        ensures
            match res {
                Some(s) => shown_set(*self, era_number) == Some(s@) && s.wf(),
                None => shown_set(*self, era_number) is None,
            },
    {
        match era_number {
            None => Some(self.next_validator_set.validator_set()),
            Some(e) => match self.validator_set_histories.get(&e) {
                Some(set) => {
                    proof {
                        set.lemma_wf();
                    }
                    match set.processing_status() {
                        ValidatorSetProcessingStatus::ReadyForDistributingReward
                        | ValidatorSetProcessingStatus::DistributingReward { .. }
                        | ValidatorSetProcessingStatus::CheckingForAutoUnbondingValidator { .. }
                        | ValidatorSetProcessingStatus::Completed => Some(set.validator_set()),
                        _ => None,
                    }
                },
                None => None,
            },
        }
    }

    /// The deposit of the validator `validator_id` in era `era_number` (the
    /// next era where none is given); 0 where the set shows no such validator.
    pub fn get_validator_deposit_of(&self, validator_id: &AccountId, era_number: Option<u64>) -> (res: u128)
        requires
            self.wf(),
        ensures
            res == match shown_set(*self, era_number) {
                Some(m) => if m.contains_validator(validator_id@) {
                    m.validator(validator_id@).deposit_amount
                } else {
                    0
                },
                None => 0,
            },
    {
        match self.shown_validator_set(era_number) {
            Some(set) => match set.get_validator(validator_id) {
                Some(v) => v.deposit_amount,
                None => 0,
            },
            None => 0,
        }
    }

    /// The deposit of the delegator `delegator_id` of `validator_id` in era
    /// `era_number` (the next era where none is given); 0 where the set shows
    /// no such delegator.
    pub fn get_delegator_deposit_of(&self, delegator_id: &AccountId, validator_id: &AccountId, era_number: Option<u64>) -> (res: u128)
        requires
            self.wf(),
        ensures
            res == match shown_set(*self, era_number) {
                Some(m) => if m.contains_delegator(delegator_id@, validator_id@) {
                    m.delegator(delegator_id@, validator_id@).deposit_amount
                } else {
                    0
                },
                None => 0,
            },
    {
        match self.shown_validator_set(era_number) {
            Some(set) => match set.get_delegator(delegator_id, validator_id) {
                Some(d) => d.deposit_amount,
                None => 0,
            },
            None => 0,
        }
    }

    /// The delegators of the validator `validator_id` in era `era_number`
    /// (the next era where none is given), in order.
    pub fn get_delegators_of_validator_in_era(&self, era_number: Option<u64>, validator_id: &AccountId) -> (res: Vec<
        AppchainDelegator,
    >)
        requires
            self.wf(),
        ensures
            match shown_set(*self, era_number) {
                Some(m) => delegators_listed(res@, m.delegators_of(validator_id@), *validator_id),
                None => res@.len() == 0,
            },
    {
        let mut result: Vec<AppchainDelegator> = Vec::new();
        let set = match self.shown_validator_set(era_number) {
            Some(set) => set,
            None => {
                return result;
            },
        };
        let count = set.get_delegator_count_of(validator_id);
        let ghost ds = set@.delegators_of(validator_id@);
        let mut i: u64 = 0;
        while i < count
            invariant
                set.wf(),
                ds == set@.delegators_of(validator_id@),
                count == ds.len(),
                i <= count,
                delegators_listed(result@, ds.take(i as int), *validator_id),
            decreases count - i,
        {
            match set.get_delegator_by_index(&i, validator_id) {
                Some(d) => {
                    result.push(
                        AppchainDelegator {
                            delegator_id: d.delegator_id.clone(),
                            validator_id: validator_id.clone(),
                            delegation_amount: d.deposit_amount,
                        },
                    );
                },
                None => {},
            }
            i = i + 1;
        }
        assert(ds.take(count as int) =~= ds);
        result
    }

    /// The info of the set of era `era_number`, if it exists.
    pub fn get_validator_set_info_of(&self, era_number: u64) -> (res: Option<ValidatorSetInfo>)
        requires
            self.wf(),
        ensures
            match res {
                Some(info) => {
                    let s = era_set(*self, era_number);
                    &&& self.validator_set_histories.records().contains_key(era_number)
                    &&& info.era_number == s.set().era_number
                    &&& info.total_stake == s.set().total_stake
                    &&& info.start_block_height == s.start_height()
                    &&& info.start_timestamp == s.start_time()
                    &&& info.staking_history_index == s.history_index()
                    &&& info.unprofitable_validator_ids@ == s.unprofitable_ids()
                    &&& info.valid_total_stake == s.valid_stake()
                    &&& info.processing_status == s.status()
                    &&& info.validator_list@.len() == if histories_applied(s.status()) {
                        s.set().validators.len()
                    } else {
                        0
                    }
                },
                None => !self.validator_set_histories.records().contains_key(era_number),
            },
    {
        match self.validator_set_histories.get(&era_number) {
            Some(set) => Some(set.to_validator_set_info()),
            None => None,
        }
    }

    /// The step that the making of the set of era `era_number` has reached,
    /// if the set exists.
    pub fn get_processing_status_of(&self, era_number: u64) -> (res: Option<ValidatorSetProcessingStatus>)
        ensures
            res == if self.validator_set_histories.records().contains_key(era_number) {
                Some(era_set(*self, era_number).status())
            } else {
                None
            },
    {
        match self.validator_set_histories.get(&era_number) {
            Some(set) => Some(set.processing_status()),
            None => None,
        }
    }

    /// The staking history at `index`, or at the end index where none is given.
    pub fn get_staking_history(&self, index: Option<u64>) -> (res: Option<StakingHistory>)
        ensures
            ({
                let i = match index {
                    Some(i) => i,
                    None => self.staking_histories.end(),
                };
                res == if self.staking_histories.records().contains_key(i) {
                    Some(self.staking_histories.records()[i])
                } else {
                    None
                }
            }),
    {
        let i = match index {
            Some(i) => i,
            None => self.staking_histories.index_range().end_index,
        };
        match self.staking_histories.get(&i) {
            Some(h) => Some(h.duplicate()),
            None => None,
        }
    }

    /// The notification history at `index`, or at the end index where none is given.
    pub fn get_appchain_notification_history(&self, index: Option<u64>) -> (res: Option<AppchainNotificationHistory>)
        ensures
            ({
                let i = match index {
                    Some(i) => i,
                    None => self.appchain_notification_histories.end(),
                };
                res == if self.appchain_notification_histories.records().contains_key(i) {
                    Some(self.appchain_notification_histories.records()[i])
                } else {
                    None
                }
            }),
    {
        let i = match index {
            Some(i) => i,
            None => self.appchain_notification_histories.index_range().end_index,
        };
        match self.appchain_notification_histories.get(&i) {
            Some(h) => Some(
                AppchainNotificationHistory {
                    appchain_notification: h.appchain_notification.duplicate(),
                    block_height: h.block_height,
                    timestamp: h.timestamp,
                    index: h.index,
                },
            ),
            None => None,
        }
    }

    /// The rewards of the validator `validator_id` in the eras from
    /// `start_era` to `end_era`, with what of each is not withdrawn.
    pub fn get_validator_rewards_of(&self, start_era: u64, end_era: u64, validator_id: &AccountId) -> (res: Vec<
        RewardHistory,
    >)
        requires
            self.wf(),
            end_era < u64::MAX,
        ensures
            res@ == reward_histories(
                *self,
                abstract_key(*validator_id),
                true,
                self.unwithdrawn_validator_rewards.amounts(),
                start_era as int,
                end_era + 1,
            ),
    {
        let mut result: Vec<RewardHistory> = Vec::new();
        let mut e = start_era;
        while e <= end_era
            invariant
                self.wf(),
                start_era <= e <= end_era + 1 || e == start_era,
                end_era < u64::MAX,
                result@ == reward_histories(
                    *self,
                    abstract_key(*validator_id),
                    true,
                    self.unwithdrawn_validator_rewards.amounts(),
                    start_era as int,
                    e as int,
                ),
            decreases end_era + 1 - e,
        {
            match self.validator_set_histories.get(&e) {
                Some(set) => match set.get_validator_rewards_of(validator_id) {
                    Some(reward) => {
                        let unwithdrawn = match self.unwithdrawn_validator_rewards.get(&(e, validator_id.clone())) {
                            Some(a) => a,
                            None => 0,
                        };
                        result.push(RewardHistory { era_number: e, total_reward: reward, unwithdrawn_reward: unwithdrawn });
                    },
                    None => {},
                },
                None => {},
            }
            e = e + 1;
        }
        result
    }

    /// The rewards of the delegator `delegator_id` of `validator_id` in the
    /// eras from `start_era` to `end_era`, with what of each is not withdrawn.
    pub fn get_delegator_rewards_of(
        &self,
        start_era: u64,
        end_era: u64,
        delegator_id: &AccountId,
        validator_id: &AccountId,
    ) -> (res: Vec<RewardHistory>)
        requires
            self.wf(),
            end_era < u64::MAX,
        ensures
            res@ == reward_histories(
                *self,
                abstract_key((*delegator_id, *validator_id)),
                false,
                self.unwithdrawn_delegator_rewards.amounts(),
                start_era as int,
                end_era + 1,
            ),
    {
        let mut result: Vec<RewardHistory> = Vec::new();
        let mut e = start_era;
        while e <= end_era
            invariant
                self.wf(),
                start_era <= e <= end_era + 1 || e == start_era,
                end_era < u64::MAX,
                result@ == reward_histories(
                    *self,
                    abstract_key((*delegator_id, *validator_id)),
                    false,
                    self.unwithdrawn_delegator_rewards.amounts(),
                    start_era as int,
                    e as int,
                ),
            decreases end_era + 1 - e,
        {
            match self.validator_set_histories.get(&e) {
                Some(set) => match set.get_delegator_rewards_of(delegator_id, validator_id) {
                    Some(reward) => {
                        let key = (e, delegator_id.clone(), validator_id.clone());
                        let unwithdrawn = match self.unwithdrawn_delegator_rewards.get(&key) {
                            Some(a) => a,
                            None => 0,
                        };
                        result.push(RewardHistory { era_number: e, total_reward: reward, unwithdrawn_reward: unwithdrawn });
                    },
                    None => {},
                },
                None => {},
            }
            e = e + 1;
        }
        result
    }

    /// The profile of the validator whose id in the appchain is
    /// `validator_id_in_appchain`, formatted; refused where the id is not valid.
    pub fn get_validator_profile_by_id_in_appchain(&self, validator_id_in_appchain: &String) -> (res: Result<
        Option<&ValidatorProfile>,
        AnchorError,
    >)
        ensures
            ({
                let raw = formatted_id(Some(*validator_id_in_appchain));
                let entries = self.validator_profiles.entries();
                if !is_valid_raw_id(self.appchain_template_type, raw) {
                    res == Err::<Option<&ValidatorProfile>, AnchorError>(
                        AnchorError::InvalidValidatorIdInAppchain(*validator_id_in_appchain),
                    )
                } else {
                    res matches Ok(found) && match found {
                        Some(p) => position_of_id_in_appchain(entries, raw) >= 0 && *p == entries[position_of_id_in_appchain(
                            entries,
                            raw,
                        )],
                        None => position_of_id_in_appchain(entries, raw) < 0,
                    }
                }
            }),
    {
        let formatted = AccountIdInAppchain::new(Some(validator_id_in_appchain.clone()), &self.appchain_template_type);
        if !formatted.is_valid() {
            return Err(AnchorError::InvalidValidatorIdInAppchain(validator_id_in_appchain.clone()));
        }
        Ok(self.validator_profiles.get_by_id_in_appchain(&formatted.to_string()))
    }
}

} // verus!
