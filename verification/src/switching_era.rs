//! The switch of the anchor to a new era: the validator set of the era is
//! copied from the last era, the leaving validators are unbonded, and the
//! staking histories of the era are applied to it, one step per call.
use crate::anchor::AppchainAnchor;
use crate::lookup_array::LookupArray;
use crate::messages::AppchainMessages;
use crate::next_validator_set::NextValidatorSet;
use crate::rewards::ResultOfLoopingValidatorSet;
use crate::text::{decimal, decimal_string, status_string, status_text};
use crate::types::{
    AccountId, AppchainMessageProcessingResult, MultiTxsOperationProcessingResult, PermissionlessActionsStatus,
    StakingFact, StakingHistory, ValidatorSetProcessingStatus,
};
use crate::unbonded_stakes::{UnbondedStakeReference, UnbondedStakes};
use crate::stake_accounting::{lemma_delegator_appended, lemma_validator_pos};
use crate::validator_set::{
    delegator_pos, group_pos, group_wf, has_delegator, unique_groups, validator_pos, Delegator, Validator, ValidatorSetModel,
};
use crate::validator_set_of_era::{histories_applied, ValidatorSetOfEra};
use vstd::prelude::*;
use vstd::string::StringExecFns;

verus! {

/// What one step of copying the set `source` into a set with the validators
/// and delegators `target` finds, and the validators and delegators after it:
/// the delegator at `delegator_index` of the validator at `validator_index`
/// is stored, or, once the delegators are passed, the validator itself.
pub open spec fn copy_step(source: ValidatorSetOfEra, target: ValidatorSetModel, validator_index: u64, delegator_index: u64) -> (
    ResultOfLoopingValidatorSet,
    ValidatorSetModel,
) {
    if !(histories_applied(source.status()) && validator_index < source.set().validators.len()) {
        (ResultOfLoopingValidatorSet::NoMoreValidator, target)
    } else {
        let v = source.set().validators[validator_index as int];
        let ds = source.set().delegators_of(v.validator_id@);
        if delegator_index >= ds.len() {
            (ResultOfLoopingValidatorSet::NoMoreDelegator, target.validator_inserted(v))
        } else {
            (ResultOfLoopingValidatorSet::NeedToContinue, target.delegator_stored(ds[delegator_index as int]))
        }
    }
}

/// What one step of unbonding the validators `ids` of the set `m` finds, and
/// the staking fact it records: the delegator at `delegator_index` of the
/// validator at `validator_index` is unbonded by the anchor, or, once the
/// delegators are passed, the validator itself (by the anchor where `auto`).
pub open spec fn unbond_step(m: ValidatorSetModel, ids: Seq<AccountId>, validator_index: u64, delegator_index: u64, auto: bool) -> (
    ResultOfLoopingValidatorSet,
    Option<StakingFact>,
) {
    if validator_index >= ids.len() {
        (ResultOfLoopingValidatorSet::NoMoreValidator, None)
    } else {
        let v = m.validator(ids[validator_index as int]@);
        let ds = m.delegators_of(v.validator_id@);
        if delegator_index >= ds.len() {
            (
                ResultOfLoopingValidatorSet::NoMoreDelegator,
                Some(
                    if auto {
                        StakingFact::ValidatorAutoUnbonded { validator_id: v.validator_id, amount: v.deposit_amount }
                    } else {
                        StakingFact::ValidatorUnbonded { validator_id: v.validator_id, amount: v.deposit_amount }
                    },
                ),
            )
        } else {
            let d = ds[delegator_index as int];
            (
                ResultOfLoopingValidatorSet::NeedToContinue,
                Some(
                    StakingFact::DelegatorAutoUnbonded {
                        delegator_id: d.delegator_id,
                        validator_id: d.validator_id,
                        amount: d.deposit_amount,
                    },
                ),
            )
        }
    }
}

/// The account whose stake `fact` unbonds, if any.
pub open spec fn unbonded_account(fact: StakingFact) -> Option<AccountId> {
    match fact {
        StakingFact::StakeDecreased { validator_id, .. } => Some(validator_id),
        StakingFact::ValidatorUnbonded { validator_id, .. } => Some(validator_id),
        StakingFact::ValidatorAutoUnbonded { validator_id, .. } => Some(validator_id),
        StakingFact::DelegationDecreased { delegator_id, .. } => Some(delegator_id),
        StakingFact::DelegatorUnbonded { delegator_id, .. } => Some(delegator_id),
        StakingFact::DelegatorAutoUnbonded { delegator_id, .. } => Some(delegator_id),
        _ => None,
    }
}

/// Whether `fact` takes a validator or a delegator out of the next validator
/// set once it is applied to the set of its era.
pub open spec fn leaves_next_set(fact: StakingFact) -> bool {
    ||| fact is ValidatorUnbonded
    ||| fact is ValidatorAutoUnbonded
    ||| fact is DelegatorAutoUnbonded
}

/// The staking history of `fact` at `index`, recorded at `block_height` and `timestamp`.
pub open spec fn history_of(fact: StakingFact, block_height: u64, timestamp: u64, index: u64) -> StakingHistory {
    StakingHistory { staking_fact: fact, block_height, timestamp, index }
}

/// Whether `after` holds the staking histories of `before` with `fact`
/// appended, recorded at `block_height` and `timestamp`.
pub open spec fn history_appended(
    before: LookupArray<StakingHistory>,
    after: LookupArray<StakingHistory>,
    fact: StakingFact,
    block_height: u64,
    timestamp: u64,
) -> bool {
    let index = before.next_index();
    &&& after.records() == before.records().insert(index, history_of(fact, block_height, timestamp, index))
    &&& after.start() == before.start()
    &&& after.end() == index
}

/// Whether the unbonded stakes `after` are `before` with the stake that `fact`
/// unbonds in era `era_number`, recorded by the history at `index`, added.
pub open spec fn unbonded_stake_added(before: UnbondedStakes, after: UnbondedStakes, fact: StakingFact, era_number: u64, index: u64) -> bool {
    forall|id: Seq<char>| #[trigger] after.stakes_of(id) == match unbonded_account(fact) {
        Some(account) => if id == account@ {
            before.stakes_of(id).push(UnbondedStakeReference { era_number, staking_history_index: index })
        } else {
            before.stakes_of(id)
        },
        None => before.stakes_of(id),
    }
}

/// The set of era `era_number` of the anchor `a`.
pub open spec fn era_set(a: AppchainAnchor, era_number: u64) -> ValidatorSetOfEra {
    a.validator_set_histories.records()[era_number]
}

/// Whether the sets of eras of `after` are those of `before` with the set of
/// era `era_number` replaced by a well formed set with the validators and
/// delegators `set`, the status `status` and the staking history index
/// `history_index`, and the other data of the replaced set.
pub open spec fn era_set_replaced(
    before: AppchainAnchor,
    after: AppchainAnchor,
    era_number: u64,
    set: ValidatorSetModel,
    status: ValidatorSetProcessingStatus,
    history_index: u64,
) -> bool {
    let new_set = era_set(after, era_number);
    &&& after.validator_set_histories.records() == before.validator_set_histories.records().insert(era_number, new_set)
    &&& after.validator_set_histories.start() == before.validator_set_histories.start()
    &&& after.validator_set_histories.end() == if era_number > before.validator_set_histories.end() {
        era_number
    } else {
        before.validator_set_histories.end()
    }
    &&& new_set.wf()
    &&& new_set.set() == set
    &&& new_set.status() == status
    &&& new_set.history_index() == history_index
    &&& new_set.same_era_data(&era_set(before, era_number))
}

/// The message recorded when the set of era `era_number` is ready.
pub open spec fn ready_message(era_number: u64) -> Seq<char> {
    "Validator set '"@ + decimal(era_number as nat) + "' is generated and is ready for distributing reward."@
}

/// The message of a switch that finds the set of era `era_number` in `status`.
pub open spec fn wrong_status_message(status: ValidatorSetProcessingStatus, era_number: u64) -> Seq<char> {
    "Wrong processing status '"@ + status_text(status) + "' of validator set '"@ + decimal(era_number as nat) + "'."@
}

/// Whether a step of the switch to era `era_number` can be taken in `a`
/// without failing: the sets and validators it reads exist, the staking
/// history it applies is applicable, and no index overflows.
pub open spec fn switching_step_allowed(a: AppchainAnchor, era_number: u64) -> bool {
    let s = era_set(a, era_number);
    let next = a.next_validator_set;
    let room = a.staking_histories.records().contains_key(0) ==> a.staking_histories.end() < u64::MAX;
    match s.status() {
        ValidatorSetProcessingStatus::CopyingFromLastEra { .. } => era_number > 0
            ==> a.validator_set_histories.records().contains_key((era_number - 1) as u64),
        ValidatorSetProcessingStatus::UnbondingValidator { unbonding_validator_index: vi, .. } => {
            &&& room
            &&& vi < next.unbonding_ids().len() ==> next.set().contains_validator(next.unbonding_ids()[vi as int]@)
        },
        ValidatorSetProcessingStatus::AutoUnbondingValidator { unbonding_validator_index: vi, .. } => {
            &&& room
            &&& vi < next.auto_unbonding_ids().len() ==> next.set().contains_validator(
                next.auto_unbonding_ids()[vi as int]@,
            )
            &&& vi >= next.auto_unbonding_ids().len() ==> {
                &&& era_number > 0
                &&& a.validator_set_histories.records().contains_key((era_number - 1) as u64)
                &&& era_set(a, (era_number - 1) as u64).history_index() < u64::MAX
            }
        },
        ValidatorSetProcessingStatus::ApplyingStakingHistory { applying_index: ai } => ai <= s.history_index() ==> {
            &&& ai < u64::MAX
            &&& a.staking_histories.records().contains_key(ai) ==> {
                let fact = a.staking_histories.records()[ai].staking_fact;
                &&& s.set().applicable(fact)
                &&& leaves_next_set(fact) ==> next.set().applicable(fact)
            }
        },
        _ => true,
    }
}

/// Whether `after` keeps everything of `before` but the parts that a step
/// of the switch of an era may change.
pub open spec fn switching_frame(before: AppchainAnchor, after: AppchainAnchor) -> bool {
    after == AppchainAnchor {
        validator_set_histories: after.validator_set_histories,
        next_validator_set: after.next_validator_set,
        staking_histories: after.staking_histories,
        unbonded_stakes: after.unbonded_stakes,
        permissionless_actions_status: after.permissionless_actions_status,
        appchain_messages: after.appchain_messages,
        ..before
    }
}

impl AppchainAnchor {
    /// Appends `staking_fact` to the staking histories, recorded at
    /// `block_height` and `timestamp`, and returns its index.
    pub fn record_staking_fact(&mut self, staking_fact: StakingFact, block_height: u64, timestamp: u64) -> (index: u64)
        requires
            old(self).staking_histories.records().contains_key(0) ==> old(self).staking_histories.end() < u64::MAX,
        ensures
            index == old(self).staking_histories.next_index(),
            history_appended(old(self).staking_histories, final(self).staking_histories, staking_fact, block_height, timestamp),
            *final(self) == (AppchainAnchor { staking_histories: final(self).staking_histories, ..*old(self) }),
    {
        self.staking_histories.append(StakingHistory { staking_fact, block_height, timestamp, index: 0 })
    }

    /// One step of copying the set `source_validator_set` into
    /// `target_validator_set`, at the delegator `delegator_index` of the
    /// validator `validator_index`.
    pub fn copy_delegator_to_validator_set(
        source_validator_set: &ValidatorSetOfEra,
        target_validator_set: &mut ValidatorSetOfEra,
        validator_index: u64,
        delegator_index: u64,
    ) -> (res: ResultOfLoopingValidatorSet)
        requires
            source_validator_set.wf(),
            old(target_validator_set).wf(),
        ensures
            final(target_validator_set).wf(),
            (res, final(target_validator_set).set()) == copy_step(
                *source_validator_set,
                old(target_validator_set).set(),
                validator_index,
                delegator_index,
            ),
            final(target_validator_set).status() == old(target_validator_set).status(),
            final(target_validator_set).history_index() == old(target_validator_set).history_index(),
            final(target_validator_set).same_era_data(old(target_validator_set)),
            res is NoMoreDelegator ==> validator_index < u64::MAX,
            res is NeedToContinue ==> delegator_index < u64::MAX,
    {
        if validator_index >= source_validator_set.validator_count() {
            return ResultOfLoopingValidatorSet::NoMoreValidator;
        }
        let validator = match source_validator_set.get_validator_by_index(&validator_index) {
            Some(v) => v,
            None => {
                return ResultOfLoopingValidatorSet::NoMoreValidator;
            },
        };
        let validator_id = validator.validator_id.clone();
        if delegator_index >= source_validator_set.get_delegator_count_of(&validator_id) {
            target_validator_set.insert_validator(validator.duplicate());
            return ResultOfLoopingValidatorSet::NoMoreDelegator;
        }
        let delegator = match source_validator_set.get_delegator_by_index(&delegator_index, &validator_id) {
            Some(d) => d,
            None => {
                return ResultOfLoopingValidatorSet::NeedToContinue;
            },
        };
        target_validator_set.insert_delegator(delegator.duplicate());
        ResultOfLoopingValidatorSet::NeedToContinue
    }
}

/// The staking histories of `after` are those of `before` with `fact`, if
/// any, appended.
pub open spec fn history_maybe_appended(
    before: LookupArray<StakingHistory>,
    after: LookupArray<StakingHistory>,
    fact: Option<StakingFact>,
    block_height: u64,
    timestamp: u64,
) -> bool {
    match fact {
        Some(f) => history_appended(before, after, f, block_height, timestamp),
        None => after == before,
    }
}

/// A step of copying the set of the last era into the set of era `era_number`.
pub open spec fn copying_stepped(
    before: AppchainAnchor,
    after: AppchainAnchor,
    era_number: u64,
    vi: u64,
    di: u64,
    res: MultiTxsOperationProcessingResult,
) -> bool {
    let s = era_set(before, era_number);
    &&& res == MultiTxsOperationProcessingResult::NeedMoreGas
    &&& after.next_validator_set == before.next_validator_set
    &&& after.staking_histories == before.staking_histories
    &&& after.unbonded_stakes == before.unbonded_stakes
    &&& after.permissionless_actions_status == before.permissionless_actions_status
    &&& after.appchain_messages == before.appchain_messages
    &&& if era_number == 0 {
        era_set_replaced(
            before,
            after,
            era_number,
            s.set(),
            ValidatorSetProcessingStatus::ApplyingStakingHistory { applying_index: 0 },
            s.history_index(),
        )
    } else {
        let last = era_set(before, (era_number - 1) as u64);
        let (r, m) = copy_step(last, s.set(), vi, di);
        match r {
            ResultOfLoopingValidatorSet::NoMoreValidator => era_set_replaced(
                before,
                after,
                era_number,
                ValidatorSetModel {
                    total_stake: if histories_applied(last.status()) {
                        last.set().total_stake
                    } else {
                        0
                    },
                    ..s.set()
                },
                ValidatorSetProcessingStatus::UnbondingValidator { unbonding_validator_index: 0, unbonding_delegator_index: 0 },
                s.history_index(),
            ),
            ResultOfLoopingValidatorSet::NoMoreDelegator => era_set_replaced(
                before,
                after,
                era_number,
                m,
                ValidatorSetProcessingStatus::CopyingFromLastEra {
                    copying_validator_index: (vi + 1) as u64,
                    copying_delegator_index: 0,
                },
                s.history_index(),
            ),
            ResultOfLoopingValidatorSet::NeedToContinue => era_set_replaced(
                before,
                after,
                era_number,
                m,
                ValidatorSetProcessingStatus::CopyingFromLastEra {
                    copying_validator_index: vi,
                    copying_delegator_index: (di + 1) as u64,
                },
                s.history_index(),
            ),
        }
    }
}

/// A step of unbonding the validators that leave the next set (those that
/// the anchor unbonds where `auto`) in the switch to era `era_number`.
pub open spec fn unbonding_stepped(
    before: AppchainAnchor,
    after: AppchainAnchor,
    era_number: u64,
    auto: bool,
    vi: u64,
    di: u64,
    block_height: u64,
    timestamp: u64,
    res: MultiTxsOperationProcessingResult,
) -> bool {
    let s = era_set(before, era_number);
    let next = before.next_validator_set;
    let ids = if auto {
        next.auto_unbonding_ids()
    } else {
        next.unbonding_ids()
    };
    let (r, fact) = unbond_step(next.set(), ids, vi, di, auto);
    let status = |a: u64, b: u64|
        if auto {
            ValidatorSetProcessingStatus::AutoUnbondingValidator { unbonding_validator_index: a, unbonding_delegator_index: b }
        } else {
            ValidatorSetProcessingStatus::UnbondingValidator { unbonding_validator_index: a, unbonding_delegator_index: b }
        };
    &&& res == MultiTxsOperationProcessingResult::NeedMoreGas
    &&& history_maybe_appended(before.staking_histories, after.staking_histories, fact, block_height, timestamp)
    &&& after.unbonded_stakes == before.unbonded_stakes
    &&& after.permissionless_actions_status == before.permissionless_actions_status
    &&& after.appchain_messages == before.appchain_messages
    &&& match r {
        ResultOfLoopingValidatorSet::NoMoreValidator => {
            &&& after.next_validator_set.set() == next.set()
            &&& if auto {
                &&& after.next_validator_set.unbonding_ids() == next.unbonding_ids()
                &&& after.next_validator_set.auto_unbonding_ids() == Seq::<AccountId>::empty()
                &&& era_set_replaced(
                    before,
                    after,
                    era_number,
                    s.set(),
                    ValidatorSetProcessingStatus::ApplyingStakingHistory {
                        applying_index: (era_set(before, (era_number - 1) as u64).history_index() + 1) as u64,
                    },
                    before.staking_histories.end(),
                )
            } else {
                &&& after.next_validator_set.unbonding_ids() == Seq::<AccountId>::empty()
                &&& after.next_validator_set.auto_unbonding_ids() == next.auto_unbonding_ids()
                &&& era_set_replaced(
                    before,
                    after,
                    era_number,
                    s.set(),
                    ValidatorSetProcessingStatus::AutoUnbondingValidator { unbonding_validator_index: 0, unbonding_delegator_index: 0 },
                    s.history_index(),
                )
            }
        },
        ResultOfLoopingValidatorSet::NoMoreDelegator => {
            &&& after.next_validator_set == next
            &&& era_set_replaced(before, after, era_number, s.set(), status((vi + 1) as u64, 0), s.history_index())
        },
        ResultOfLoopingValidatorSet::NeedToContinue => {
            &&& after.next_validator_set == next
            &&& era_set_replaced(before, after, era_number, s.set(), status(vi, (di + 1) as u64), s.history_index())
        },
    }
}

impl AppchainAnchor {
    fn unbond_leaving_validator(
        &mut self,
        auto: bool,
        validator_index: u64,
        delegator_index: u64,
        block_height: u64,
        timestamp: u64,
    ) -> (res: ResultOfLoopingValidatorSet)
        requires
            old(self).next_validator_set.wf(),
            old(self).staking_histories.records().contains_key(0) ==> old(self).staking_histories.end() < u64::MAX,
            ({
                let ids = if auto {
                    old(self).next_validator_set.auto_unbonding_ids()
                } else {
                    old(self).next_validator_set.unbonding_ids()
                };
                validator_index < ids.len() ==> old(self).next_validator_set.set().contains_validator(ids[validator_index as int]@)
            }),
        ensures
            ({
                let ids = if auto {
                    old(self).next_validator_set.auto_unbonding_ids()
                } else {
                    old(self).next_validator_set.unbonding_ids()
                };
                let (r, fact) = unbond_step(old(self).next_validator_set.set(), ids, validator_index, delegator_index, auto);
                &&& res == r
                &&& history_maybe_appended(
                    old(self).staking_histories,
                    final(self).staking_histories,
                    fact,
                    block_height,
                    timestamp,
                )
                &&& *final(self) == (AppchainAnchor { staking_histories: final(self).staking_histories, ..*old(self) })
            }),
            res is NoMoreDelegator ==> validator_index < u64::MAX,
            res is NeedToContinue ==> delegator_index < u64::MAX,
    {
        let ids = if auto {
            self.next_validator_set.get_auto_unbonding_validator_ids()
        } else {
            self.next_validator_set.get_unbonding_validator_ids()
        };
        if validator_index >= ids.len() as u64 {
            return ResultOfLoopingValidatorSet::NoMoreValidator;
        }
        let fact;
        let res;
        {
            let validator_set = self.next_validator_set.validator_set();
            let validator = match validator_set.get_validator(&ids[validator_index as usize]) {
                Some(v) => v,
                None => {
                    return ResultOfLoopingValidatorSet::NoMoreValidator;
                },
            };
            let validator_id = validator.validator_id.clone();
            if delegator_index >= validator_set.get_delegator_count_of(&validator_id) {
                fact = if auto {
                    StakingFact::ValidatorAutoUnbonded { validator_id, amount: validator.deposit_amount }
                } else {
                    StakingFact::ValidatorUnbonded { validator_id, amount: validator.deposit_amount }
                };
                res = ResultOfLoopingValidatorSet::NoMoreDelegator;
            } else {
                let delegator = match validator_set.get_delegator_by_index(&delegator_index, &validator_id) {
                    Some(d) => d,
                    None => {
                        return ResultOfLoopingValidatorSet::NeedToContinue;
                    },
                };
                fact = StakingFact::DelegatorAutoUnbonded {
                    delegator_id: delegator.delegator_id.clone(),
                    validator_id: delegator.validator_id.clone(),
                    amount: delegator.deposit_amount,
                };
                res = ResultOfLoopingValidatorSet::NeedToContinue;
            }
        }
        self.record_staking_fact(fact, block_height, timestamp);
        res
    }

    /// One step of unbonding the validators that unbond from the next set:
    /// records the unbonding of the delegator `delegator_index` of the
    /// unbonding validator `validator_index` by the anchor, or, once its
    /// delegators are passed, of the validator itself.
    pub fn unbond_validator_of_next_validator_set(
        &mut self,
        validator_index: u64,
        delegator_index: u64,
        block_height: u64,
        timestamp: u64,
    ) -> (res: ResultOfLoopingValidatorSet)
        requires
            old(self).next_validator_set.wf(),
            old(self).staking_histories.records().contains_key(0) ==> old(self).staking_histories.end() < u64::MAX,
            validator_index < old(self).next_validator_set.unbonding_ids().len() ==> old(self).next_validator_set.set().contains_validator(
                old(self).next_validator_set.unbonding_ids()[validator_index as int]@,
            ),
        ensures
            ({
                let (r, fact) = unbond_step(
                    old(self).next_validator_set.set(),
                    old(self).next_validator_set.unbonding_ids(),
                    validator_index,
                    delegator_index,
                    false,
                );
                &&& res == r
                &&& history_maybe_appended(
                    old(self).staking_histories,
                    final(self).staking_histories,
                    fact,
                    block_height,
                    timestamp,
                )
                &&& *final(self) == (AppchainAnchor { staking_histories: final(self).staking_histories, ..*old(self) })
            }),
    {
        self.unbond_leaving_validator(false, validator_index, delegator_index, block_height, timestamp)
    }

    /// One step of unbonding the validators that the anchor unbonds from the
    /// next set: records the unbonding of the delegator `delegator_index` of
    /// the validator `validator_index` by the anchor, or, once its delegators
    /// are passed, of the validator itself.
    pub fn auto_unbond_validator_of_next_validator_set(
        &mut self,
        validator_index: u64,
        delegator_index: u64,
        block_height: u64,
        timestamp: u64,
    ) -> (res: ResultOfLoopingValidatorSet)
        requires
            old(self).next_validator_set.wf(),
            old(self).staking_histories.records().contains_key(0) ==> old(self).staking_histories.end() < u64::MAX,
            validator_index < old(self).next_validator_set.auto_unbonding_ids().len() ==> old(self).next_validator_set.set().contains_validator(
                old(self).next_validator_set.auto_unbonding_ids()[validator_index as int]@,
            ),
        ensures
            ({
                let (r, fact) = unbond_step(
                    old(self).next_validator_set.set(),
                    old(self).next_validator_set.auto_unbonding_ids(),
                    validator_index,
                    delegator_index,
                    true,
                );
                &&& res == r
                &&& history_maybe_appended(
                    old(self).staking_histories,
                    final(self).staking_histories,
                    fact,
                    block_height,
                    timestamp,
                )
                &&& *final(self) == (AppchainAnchor { staking_histories: final(self).staking_histories, ..*old(self) })
            }),
    {
        self.unbond_leaving_validator(true, validator_index, delegator_index, block_height, timestamp)
    }
}

impl AppchainAnchor {
    /// Applies `staking_history` to `validator_set`, records the stake that it
    /// unbonds, if any, against the unbonding account, and applies it to the
    /// next validator set where it takes a validator or delegator out of it.
    pub fn apply_staking_history_to_validator_set_of_era(
        &mut self,
        validator_set: &mut ValidatorSetOfEra,
        staking_history: &StakingHistory,
        block_height: u64,
        timestamp: u64,
    )
        requires
            old(self).next_validator_set.wf(),
            old(validator_set).wf(),
            old(validator_set).set().applicable(staking_history.staking_fact),
            leaves_next_set(staking_history.staking_fact) ==> old(self).next_validator_set.set().applicable(
                staking_history.staking_fact,
            ),
        ensures
            final(validator_set).wf(),
            final(validator_set).set() == old(validator_set).set().applied(staking_history.staking_fact, block_height, timestamp),
            final(validator_set).status() == old(validator_set).status(),
            final(validator_set).history_index() == old(validator_set).history_index(),
            final(validator_set).same_era_data(old(validator_set)),
            unbonded_stake_added(
                old(self).unbonded_stakes,
                final(self).unbonded_stakes,
                staking_history.staking_fact,
                old(validator_set).set().era_number,
                staking_history.index,
            ),
            final(self).next_validator_set.wf(),
            final(self).next_validator_set.set() == if leaves_next_set(staking_history.staking_fact) {
                old(self).next_validator_set.set().applied(staking_history.staking_fact, block_height, timestamp)
            } else {
                old(self).next_validator_set.set()
            },
            final(self).next_validator_set.unbonding_ids() == old(self).next_validator_set.unbonding_ids(),
            final(self).next_validator_set.auto_unbonding_ids() == old(self).next_validator_set.auto_unbonding_ids(),
            !leaves_next_set(staking_history.staking_fact) ==> final(self).next_validator_set == old(self).next_validator_set,
            *final(self) == (AppchainAnchor {
                unbonded_stakes: final(self).unbonded_stakes,
                next_validator_set: final(self).next_validator_set,
                ..*old(self)
            }),
    {
        let era_number = validator_set.era_number();
        validator_set.apply_staking_fact(&staking_history.staking_fact, block_height, timestamp);
        let reference = UnbondedStakeReference { era_number, staking_history_index: staking_history.index };
        match &staking_history.staking_fact {
            StakingFact::StakeDecreased { validator_id, .. } => self.unbonded_stakes.add(validator_id, reference),
            StakingFact::ValidatorUnbonded { validator_id, .. } => self.unbonded_stakes.add(validator_id, reference),
            StakingFact::ValidatorAutoUnbonded { validator_id, .. } => self.unbonded_stakes.add(validator_id, reference),
            StakingFact::DelegationDecreased { delegator_id, .. } => self.unbonded_stakes.add(delegator_id, reference),
            StakingFact::DelegatorUnbonded { delegator_id, .. } => self.unbonded_stakes.add(delegator_id, reference),
            StakingFact::DelegatorAutoUnbonded { delegator_id, .. } => self.unbonded_stakes.add(delegator_id, reference),
            _ => {},
        }
        match &staking_history.staking_fact {
            StakingFact::ValidatorUnbonded { .. } => {
                self.next_validator_set.apply_staking_fact(&staking_history.staking_fact, block_height, timestamp)
            },
            StakingFact::ValidatorAutoUnbonded { .. } => {
                self.next_validator_set.apply_staking_fact(&staking_history.staking_fact, block_height, timestamp)
            },
            StakingFact::DelegatorAutoUnbonded { .. } => {
                self.next_validator_set.apply_staking_fact(&staking_history.staking_fact, block_height, timestamp)
            },
            _ => {},
        }
    }
}

/// A step of applying the staking histories of era `era_number` to its set,
/// at the history `ai`.
pub open spec fn applying_stepped(
    before: AppchainAnchor,
    after: AppchainAnchor,
    era_number: u64,
    ai: u64,
    block_height: u64,
    timestamp: u64,
    res: MultiTxsOperationProcessingResult,
) -> bool {
    let s = era_set(before, era_number);
    let next = before.next_validator_set;
    let applies = ai <= s.history_index();
    let present = applies && before.staking_histories.records().contains_key(ai);
    let history = before.staking_histories.records()[ai];
    let fact = history.staking_fact;
    let m = if present {
        s.set().applied(fact, block_height, timestamp)
    } else {
        s.set()
    };
    let next_ai: u64 = if applies {
        (ai + 1) as u64
    } else {
        ai
    };
    let nonce: u32 = match before.permissionless_actions_status.processing_appchain_message_nonce {
        Some(n) => n,
        None => 0,
    };
    &&& after.staking_histories == before.staking_histories
    &&& if present {
        &&& unbonded_stake_added(before.unbonded_stakes, after.unbonded_stakes, fact, s.set().era_number, history.index)
        &&& after.next_validator_set.set() == if leaves_next_set(fact) {
            next.set().applied(fact, block_height, timestamp)
        } else {
            next.set()
        }
        &&& after.next_validator_set.unbonding_ids() == next.unbonding_ids()
        &&& after.next_validator_set.auto_unbonding_ids() == next.auto_unbonding_ids()
        &&& !leaves_next_set(fact) ==> after.next_validator_set == next
    } else {
        &&& after.unbonded_stakes == before.unbonded_stakes
        &&& after.next_validator_set == next
    }
    &&& if next_ai > s.history_index() {
        &&& res == MultiTxsOperationProcessingResult::Finished
        &&& era_set_replaced(before, after, era_number, m, ValidatorSetProcessingStatus::ReadyForDistributingReward, s.history_index())
        &&& after.permissionless_actions_status == (PermissionlessActionsStatus {
            switching_era_number: None,
            ..before.permissionless_actions_status
        })
        &&& after.appchain_messages.messages() == before.appchain_messages.messages()
        &&& after.appchain_messages.lowest() == before.appchain_messages.lowest()
        &&& after.appchain_messages.highest() == before.appchain_messages.highest()
        &&& if before.appchain_messages.results().contains_key(nonce) {
            after.appchain_messages.results() == before.appchain_messages.results()
        } else {
            &&& after.appchain_messages.results() == before.appchain_messages.results().insert(
                nonce,
                after.appchain_messages.results()[nonce],
            )
            &&& (after.appchain_messages.results()[nonce] matches AppchainMessageProcessingResult::Processed {
                nonce: n,
                message: Some(text),
            } && n == nonce && text@ == ready_message(era_number))
        }
    } else {
        &&& res == MultiTxsOperationProcessingResult::NeedMoreGas
        &&& era_set_replaced(
            before,
            after,
            era_number,
            m,
            ValidatorSetProcessingStatus::ApplyingStakingHistory { applying_index: next_ai },
            s.history_index(),
        )
        &&& after.permissionless_actions_status == before.permissionless_actions_status
        &&& after.appchain_messages == before.appchain_messages
    }
}

/// A step of the switch to era `era_number`, whose set is in the status that
/// the step reads.
pub open spec fn switching_stepped(
    before: AppchainAnchor,
    after: AppchainAnchor,
    era_number: u64,
    block_height: u64,
    timestamp: u64,
    res: MultiTxsOperationProcessingResult,
) -> bool {
    let s = era_set(before, era_number);
    &&& switching_frame(before, after)
    &&& match s.status() {
        ValidatorSetProcessingStatus::CopyingFromLastEra { copying_validator_index: vi, copying_delegator_index: di } =>
            copying_stepped(before, after, era_number, vi, di, res),
        ValidatorSetProcessingStatus::UnbondingValidator { unbonding_validator_index: vi, unbonding_delegator_index: di } =>
            unbonding_stepped(before, after, era_number, false, vi, di, block_height, timestamp, res),
        ValidatorSetProcessingStatus::AutoUnbondingValidator { unbonding_validator_index: vi, unbonding_delegator_index: di } =>
            unbonding_stepped(before, after, era_number, true, vi, di, block_height, timestamp, res),
        ValidatorSetProcessingStatus::ApplyingStakingHistory { applying_index: ai } =>
            applying_stepped(before, after, era_number, ai, block_height, timestamp, res),
        _ => {
            &&& (res matches MultiTxsOperationProcessingResult::Error(text) && text@ == wrong_status_message(s.status(), era_number))
            &&& after == before
        },
    }
}

impl AppchainAnchor {
    fn copying_phase_step(&mut self, era_number: u64, vi: u64, di: u64) -> (res: MultiTxsOperationProcessingResult)
        requires
            old(self).wf(),
            old(self).validator_set_histories.records().contains_key(era_number),
            era_set(*old(self), era_number).status() == (ValidatorSetProcessingStatus::CopyingFromLastEra {
                copying_validator_index: vi,
                copying_delegator_index: di,
            }),
            era_number > 0 ==> old(self).validator_set_histories.records().contains_key((era_number - 1) as u64),
        ensures
            final(self).wf(),
            switching_frame(*old(self), *final(self)),
            copying_stepped(*old(self), *final(self), era_number, vi, di, res),
    {
        let mut validator_set = match self.validator_set_histories.take(&era_number) {
            Some(v) => v,
            None => {
                assert(false);
                return MultiTxsOperationProcessingResult::NeedMoreGas;
            },
        };
        if era_number > 0 {
            match self.validator_set_histories.get(&(era_number - 1)) {
                Some(last) => {
                    match Self::copy_delegator_to_validator_set(last, &mut validator_set, vi, di) {
                        ResultOfLoopingValidatorSet::NoMoreDelegator => {
                            validator_set.set_processing_status(
                                ValidatorSetProcessingStatus::CopyingFromLastEra {
                                    copying_validator_index: vi + 1,
                                    copying_delegator_index: 0,
                                },
                            );
                        },
                        ResultOfLoopingValidatorSet::NoMoreValidator => {
                            validator_set.set_total_stake(last.total_stake());
                            validator_set.set_processing_status(
                                ValidatorSetProcessingStatus::UnbondingValidator {
                                    unbonding_validator_index: 0,
                                    unbonding_delegator_index: 0,
                                },
                            );
                        },
                        ResultOfLoopingValidatorSet::NeedToContinue => {
                            validator_set.set_processing_status(
                                ValidatorSetProcessingStatus::CopyingFromLastEra {
                                    copying_validator_index: vi,
                                    copying_delegator_index: di + 1,
                                },
                            );
                        },
                    }
                },
                None => {
                    assert(false);
                },
            }
        } else {
            validator_set.set_processing_status(ValidatorSetProcessingStatus::ApplyingStakingHistory { applying_index: 0 });
        }
        self.validator_set_histories.insert(&era_number, validator_set);
        proof {
            assert(self.validator_set_histories.records() =~= old(self).validator_set_histories.records().insert(
                era_number,
                era_set(*self, era_number),
            ));
        }
        MultiTxsOperationProcessingResult::NeedMoreGas
    }
}

impl AppchainAnchor {
    fn unbonding_phase_step(
        &mut self,
        era_number: u64,
        auto: bool,
        vi: u64,
        di: u64,
        block_height: u64,
        timestamp: u64,
    ) -> (res: MultiTxsOperationProcessingResult)
        requires
            old(self).wf(),
            old(self).validator_set_histories.records().contains_key(era_number),
            era_set(*old(self), era_number).status() == if auto {
                ValidatorSetProcessingStatus::AutoUnbondingValidator { unbonding_validator_index: vi, unbonding_delegator_index: di }
            } else {
                ValidatorSetProcessingStatus::UnbondingValidator { unbonding_validator_index: vi, unbonding_delegator_index: di }
            },
            switching_step_allowed(*old(self), era_number),
        ensures
            final(self).wf(),
            switching_frame(*old(self), *final(self)),
            unbonding_stepped(*old(self), *final(self), era_number, auto, vi, di, block_height, timestamp, res),
    {
        let r = self.unbond_leaving_validator(auto, vi, di, block_height, timestamp);
        let mut validator_set = match self.validator_set_histories.take(&era_number) {
            Some(v) => v,
            None => {
                assert(false);
                return MultiTxsOperationProcessingResult::NeedMoreGas;
            },
        };
        match r {
            ResultOfLoopingValidatorSet::NoMoreDelegator => {
                let status = if auto {
                    ValidatorSetProcessingStatus::AutoUnbondingValidator {
                        unbonding_validator_index: vi + 1,
                        unbonding_delegator_index: 0,
                    }
                } else {
                    ValidatorSetProcessingStatus::UnbondingValidator {
                        unbonding_validator_index: vi + 1,
                        unbonding_delegator_index: 0,
                    }
                };
                validator_set.set_processing_status(status);
            },
            ResultOfLoopingValidatorSet::NeedToContinue => {
                let status = if auto {
                    ValidatorSetProcessingStatus::AutoUnbondingValidator {
                        unbonding_validator_index: vi,
                        unbonding_delegator_index: di + 1,
                    }
                } else {
                    ValidatorSetProcessingStatus::UnbondingValidator {
                        unbonding_validator_index: vi,
                        unbonding_delegator_index: di + 1,
                    }
                };
                validator_set.set_processing_status(status);
            },
            ResultOfLoopingValidatorSet::NoMoreValidator => {
                if auto {
                    self.next_validator_set.clear_auto_unbonding_validator_ids();
                    let last_index = match self.validator_set_histories.get(&(era_number - 1)) {
                        Some(last) => last.staking_history_index(),
                        None => {
                            assert(false);
                            0
                        },
                    };
                    validator_set.set_processing_status(
                        ValidatorSetProcessingStatus::ApplyingStakingHistory { applying_index: last_index + 1 },
                    );
                    validator_set.set_staking_history_index(self.staking_histories.index_range().end_index);
                } else {
                    self.next_validator_set.clear_unbonding_validator_ids();
                    validator_set.set_processing_status(
                        ValidatorSetProcessingStatus::AutoUnbondingValidator {
                            unbonding_validator_index: 0,
                            unbonding_delegator_index: 0,
                        },
                    );
                }
            },
        }
        self.validator_set_histories.insert(&era_number, validator_set);
        proof {
            assert(self.validator_set_histories.records() =~= old(self).validator_set_histories.records().insert(
                era_number,
                era_set(*self, era_number),
            ));
        }
        MultiTxsOperationProcessingResult::NeedMoreGas
    }

    fn applying_phase_step(
        &mut self,
        era_number: u64,
        ai: u64,
        block_height: u64,
        timestamp: u64,
    ) -> (res: MultiTxsOperationProcessingResult)
        requires
            old(self).wf(),
            old(self).validator_set_histories.records().contains_key(era_number),
            era_set(*old(self), era_number).status() == (ValidatorSetProcessingStatus::ApplyingStakingHistory {
                applying_index: ai,
            }),
            switching_step_allowed(*old(self), era_number),
        ensures
            final(self).wf(),
            switching_frame(*old(self), *final(self)),
            applying_stepped(*old(self), *final(self), era_number, ai, block_height, timestamp, res),
    {
        let mut validator_set = match self.validator_set_histories.take(&era_number) {
            Some(v) => v,
            None => {
                assert(false);
                return MultiTxsOperationProcessingResult::NeedMoreGas;
            },
        };
        let history_index = validator_set.staking_history_index();
        let mut next_ai = ai;
        if ai <= history_index {
            let history = match self.staking_histories.get(&ai) {
                Some(h) => Some(h.duplicate()),
                None => None,
            };
            if let Some(h) = history {
                self.apply_staking_history_to_validator_set_of_era(&mut validator_set, &h, block_height, timestamp);
            }
            next_ai = ai + 1;
        }
        if next_ai > history_index {
            self.permissionless_actions_status.switching_era_number = None;
            validator_set.set_processing_status(ValidatorSetProcessingStatus::ReadyForDistributingReward);
            let nonce: u32 = match self.permissionless_actions_status.processing_appchain_message_nonce {
                Some(n) => n,
                None => 0,
            };
            let mut message = String::new();
            message.append("Validator set '");
            message.append(decimal_string(era_number as u128).as_str());
            message.append("' is generated and is ready for distributing reward.");
            self.appchain_messages.insert_processing_result(
                nonce,
                AppchainMessageProcessingResult::Processed { nonce, message: Some(message) },
            );
            self.validator_set_histories.insert(&era_number, validator_set);
            proof {
                assert(self.validator_set_histories.records() =~= old(self).validator_set_histories.records().insert(
                    era_number,
                    era_set(*self, era_number),
                ));
            }
            MultiTxsOperationProcessingResult::Finished
        } else {
            validator_set.set_processing_status(ValidatorSetProcessingStatus::ApplyingStakingHistory { applying_index: next_ai });
            self.validator_set_histories.insert(&era_number, validator_set);
            proof {
                assert(self.validator_set_histories.records() =~= old(self).validator_set_histories.records().insert(
                    era_number,
                    era_set(*self, era_number),
                ));
            }
            MultiTxsOperationProcessingResult::NeedMoreGas
        }
    }

    /// Takes one step of the switch to era `era_number` and tells whether the
    /// switch needs more steps (`NeedMoreGas`), is finished (`Finished`), or
    /// finds the set of the era in a status that no switch reaches (`Error`,
    /// which changes nothing). The set is copied from the set of the last
    /// era, then the validators that unbond and those that the anchor unbonds
    /// are unbonded, and then the staking histories of the era are applied to
    /// it; `block_height` and `timestamp` are those of the block of the call.
    pub fn complete_switching_era(&mut self, era_number: u64, block_height: u64, timestamp: u64) -> (res: MultiTxsOperationProcessingResult)
        requires
            old(self).wf(),
            old(self).validator_set_histories.records().contains_key(era_number),
            switching_step_allowed(*old(self), era_number),
        ensures
            final(self).wf(),
            switching_stepped(*old(self), *final(self), era_number, block_height, timestamp, res),
    {
        let status = match self.validator_set_histories.get(&era_number) {
            Some(s) => s.processing_status(),
            None => {
                assert(false);
                return MultiTxsOperationProcessingResult::NeedMoreGas;
            },
        };
        match status {
            ValidatorSetProcessingStatus::CopyingFromLastEra { copying_validator_index, copying_delegator_index } => {
                self.copying_phase_step(era_number, copying_validator_index, copying_delegator_index)
            },
            ValidatorSetProcessingStatus::UnbondingValidator { unbonding_validator_index, unbonding_delegator_index } => {
                self.unbonding_phase_step(
                    era_number,
                    false,
                    unbonding_validator_index,
                    unbonding_delegator_index,
                    block_height,
                    timestamp,
                )
            },
            ValidatorSetProcessingStatus::AutoUnbondingValidator { unbonding_validator_index, unbonding_delegator_index } => {
                self.unbonding_phase_step(
                    era_number,
                    true,
                    unbonding_validator_index,
                    unbonding_delegator_index,
                    block_height,
                    timestamp,
                )
            },
            ValidatorSetProcessingStatus::ApplyingStakingHistory { applying_index } => {
                self.applying_phase_step(era_number, applying_index, block_height, timestamp)
            },
            _ => {
                let mut message = String::new();
                message.append("Wrong processing status '");
                message.append(status_string(&status).as_str());
                message.append("' of validator set '");
                message.append(decimal_string(era_number as u128).as_str());
                message.append("'.");
                MultiTxsOperationProcessingResult::Error(message)
            },
        }
    }
}

/// The set `m` with the staking histories `records` at the indexes from
/// `from` on applied in order, one index for each block of `blocks` and at
/// that block; an index that holds no history is passed over.
pub open spec fn replayed(
    m: ValidatorSetModel,
    records: Map<u64, StakingHistory>,
    from: int,
    blocks: Seq<(u64, u64)>,
) -> ValidatorSetModel
    decreases blocks.len(),
{
    if blocks.len() == 0 {
        m
    } else {
        let prev = replayed(m, records, from, blocks.drop_last());
        let index = (from + blocks.len() - 1) as u64;
        if records.contains_key(index) {
            prev.applied(records[index].staking_fact, blocks.last().0, blocks.last().1)
        } else {
            prev
        }
    }
}

/// Law: the staking histories restore the validator set of an era. Where
/// the switch to era `era_number` applies the staking histories from the
/// index `ai` on, the steps `states` (taken at the blocks `blocks`) leave
/// the staking histories as they are, and after them the set of the era is
/// the set before them with the histories from `ai` on applied in order, one
/// for each step; once every history up to the staking history index of
/// the set is applied, the set is ready for the distribution of the reward.
pub proof fn lemma_staking_histories_restore_era_set(
    states: Seq<AppchainAnchor>,
    blocks: Seq<(u64, u64)>,
    results: Seq<MultiTxsOperationProcessingResult>,
    era_number: u64,
    ai: u64,
)
    requires
        states.len() == blocks.len() + 1,
        results.len() == blocks.len(),
        era_set(states[0], era_number).status() == (ValidatorSetProcessingStatus::ApplyingStakingHistory {
            applying_index: ai,
        }),
        ai <= era_set(states[0], era_number).history_index(),
        era_set(states[0], era_number).history_index() < u64::MAX,
        ai + blocks.len() <= era_set(states[0], era_number).history_index() + 1,
        forall|i: int|
            0 <= i < blocks.len() ==> #[trigger] switching_stepped(
                states[i],
                states[i + 1],
                era_number,
                blocks[i].0,
                blocks[i].1,
                results[i],
            ),
    ensures
        ({
            let first = era_set(states[0], era_number);
            let last = era_set(states.last(), era_number);
            &&& states.last().staking_histories == states[0].staking_histories
            &&& last.set() == replayed(first.set(), states[0].staking_histories.records(), ai as int, blocks)
            &&& last.history_index() == first.history_index()
            &&& last.status() == if ai + blocks.len() > first.history_index() {
                ValidatorSetProcessingStatus::ReadyForDistributingReward
            } else {
                ValidatorSetProcessingStatus::ApplyingStakingHistory { applying_index: (ai + blocks.len()) as u64 }
            }
        }),
    decreases blocks.len(),
{
    let n = blocks.len() as int;
    if n > 0 {
        let prefix_states = states.subrange(0, n);
        let prefix_blocks = blocks.drop_last();
        let prefix_results = results.subrange(0, n - 1);
        assert forall|i: int| 0 <= i < prefix_blocks.len() implies #[trigger] switching_stepped(
            prefix_states[i],
            prefix_states[i + 1],
            era_number,
            prefix_blocks[i].0,
            prefix_blocks[i].1,
            prefix_results[i],
        ) by {
            assert(prefix_states[i] == states[i]);
            assert(prefix_states[i + 1] == states[i + 1]);
            assert(prefix_blocks[i] == blocks[i]);
            assert(prefix_results[i] == results[i]);
        }
        lemma_staking_histories_restore_era_set(prefix_states, prefix_blocks, prefix_results, era_number, ai);
        assert(prefix_states.last() == states[n - 1]);
        assert(switching_stepped(states[n - 1], states[n], era_number, blocks[n - 1].0, blocks[n - 1].1, results[n - 1]));
        assert(blocks.last() == blocks[n - 1]);
        let before = states[n - 1];
        let k = (ai + n - 1) as u64;
        assert(era_set(before, era_number).status() == (ValidatorSetProcessingStatus::ApplyingStakingHistory {
            applying_index: k,
        }));
        assert(applying_stepped(before, states[n], era_number, k, blocks[n - 1].0, blocks[n - 1].1, results[n - 1]));
        assert(before.staking_histories == states[0].staking_histories);
        assert(states.last() == states[n]);
    }
}

/// The delegators of the validator `id` that copying `src` has stored by the
/// time it reaches the delegator `di` of the validator at `vi`.
pub open spec fn copied_delegators(src: ValidatorSetModel, vi: int, di: int, id: Seq<char>) -> Seq<Delegator> {
    if src.contains_validator(id) {
        let p = validator_pos(src.validators, id);
        if p < vi {
            src.delegators_of(id)
        } else if p == vi {
            src.delegators_of(id).take(di)
        } else {
            Seq::empty()
        }
    } else {
        Seq::empty()
    }
}

/// Whether `t` holds what copying `src` has stored by the time it reaches
/// the delegator `di` of the validator at `vi`.
pub open spec fn copied_up_to(src: ValidatorSetModel, vi: int, di: int, t: ValidatorSetModel) -> bool {
    &&& 0 <= vi <= src.validators.len()
    &&& vi < src.validators.len() ==> 0 <= di <= src.delegators_of(src.validators[vi].validator_id@).len()
    &&& t.validators == src.validators.take(vi)
    &&& unique_groups(t.groups)
    &&& forall|id: Seq<char>| #[trigger] t.delegators_of(id) == copied_delegators(src, vi, di, id)
}

/// Whether `t` holds the validators of `src` and the delegators of each.
pub open spec fn copy_of(src: ValidatorSetModel, t: ValidatorSetModel) -> bool {
    &&& t.validators == src.validators
    &&& forall|id: Seq<char>| #[trigger] t.delegators_of(id) == if src.contains_validator(id) {
        src.delegators_of(id)
    } else {
        Seq::<Delegator>::empty()
    }
}

/// A step of copying the set `source` keeps `copied_up_to`, and the copy is
/// whole once no validator is left.
proof fn lemma_copy_step(source: ValidatorSetOfEra, t: ValidatorSetModel, vi: u64, di: u64)
    requires
        histories_applied(source.status()),
        source.set().wf(),
        copied_up_to(source.set(), vi as int, di as int, t),
    ensures
        ({
            let src = source.set();
            let (r, m) = copy_step(source, t, vi, di);
            match r {
                ResultOfLoopingValidatorSet::NoMoreValidator => copy_of(src, t),
                ResultOfLoopingValidatorSet::NoMoreDelegator => copied_up_to(src, vi + 1, 0, m),
                ResultOfLoopingValidatorSet::NeedToContinue => copied_up_to(src, vi as int, di + 1, m),
            }
        }),
{
    let src = source.set();
    let n = src.validators.len() as int;
    if vi as int >= n {
        assert(src.validators.take(n) =~= src.validators);
        assert forall|id: Seq<char>| #[trigger] t.delegators_of(id) == if src.contains_validator(id) {
            src.delegators_of(id)
        } else {
            Seq::<Delegator>::empty()
        } by {
            assert(t.delegators_of(id) == copied_delegators(src, vi as int, di as int, id));
        }
    } else {
        let v = src.validators[vi as int];
        let ds = src.delegators_of(v.validator_id@);
        lemma_validator_pos(src.validators, vi as int);
        if di as int >= ds.len() {
            let m = t.validator_inserted(v);
            assert(!t.contains_validator(v.validator_id@)) by {
                if t.contains_validator(v.validator_id@) {
                    let k = validator_pos(t.validators, v.validator_id@);
                    assert(t.validators[k] == src.validators[k]);
                }
            }
            assert(m.validators =~= src.validators.take(vi + 1));
            assert(ds.take(di as int) =~= ds);
            assert forall|id: Seq<char>| #[trigger] m.delegators_of(id) == copied_delegators(src, vi + 1, 0, id) by {
                assert(t.delegators_of(id) == copied_delegators(src, vi as int, di as int, id));
                if src.contains_validator(id) {
                    let p = validator_pos(src.validators, id);
                    if p == vi + 1 {
                        assert(src.delegators_of(id).take(0) =~= Seq::<Delegator>::empty());
                    }
                }
            }
        } else {
            let d = ds[di as int];
            let m = t.delegator_stored(d);
            let j = group_pos(src.groups, v.validator_id@);
            assert(group_wf(src.groups[j]));
            assert(d.validator_id@ == v.validator_id@);
            assert(t.delegators_of(v.validator_id@) == ds.take(di as int));
            assert(!t.contains_delegator(d.delegator_id@, d.validator_id@)) by {
                let td = t.delegators_of(v.validator_id@);
                if has_delegator(td, d.delegator_id@) {
                    let k = delegator_pos(td, d.delegator_id@);
                    assert(td[k] == ds[k]);
                }
            }
            lemma_delegator_appended(t, d);
            assert(ds.take(di + 1) =~= ds.take(di as int).push(d));
            assert forall|id: Seq<char>| #[trigger] m.delegators_of(id) == copied_delegators(src, vi as int, di + 1, id) by {
                assert(t.delegators_of(id) == copied_delegators(src, vi as int, di as int, id));
                if id != v.validator_id@ && src.contains_validator(id) {
                    let p = validator_pos(src.validators, id);
                    assert(src.validators[p].validator_id@ == id);
                }
            }
        }
    }
}

/// Law: copying the set of the last era restores it. Where the switch to
/// era `era_number` starts to copy the set of the last era into an empty set,
/// and the steps `states` (taken at the blocks `blocks`) all find the set in
/// the copying status, the set once it leaves that status holds the
/// validators of the last era's set, in order, the delegators of each, in
/// order, and the total stake of that set.
pub proof fn lemma_copying_restores_last_era_set(
    states: Seq<AppchainAnchor>,
    blocks: Seq<(u64, u64)>,
    results: Seq<MultiTxsOperationProcessingResult>,
    era_number: u64,
)
    requires
        era_number > 0,
        states.len() == blocks.len() + 1,
        results.len() == blocks.len(),
        era_set(states[0], era_number).status() == (ValidatorSetProcessingStatus::CopyingFromLastEra {
            copying_validator_index: 0,
            copying_delegator_index: 0,
        }),
        era_set(states[0], era_number).set().validators == Seq::<Validator>::empty(),
        era_set(states[0], era_number).set().groups == Seq::<(Seq<char>, Seq<Delegator>)>::empty(),
        histories_applied(era_set(states[0], (era_number - 1) as u64).status()),
        era_set(states[0], (era_number - 1) as u64).set().wf(),
        era_set(states[0], (era_number - 1) as u64).set().validators.len() < u64::MAX,
        forall|id: Seq<char>| #[trigger] era_set(states[0], (era_number - 1) as u64).set().delegators_of(id).len() < u64::MAX,
        forall|i: int| 0 <= i < blocks.len() ==> (#[trigger] era_set(states[i], era_number)).status() is CopyingFromLastEra,
        forall|i: int|
            0 <= i < blocks.len() ==> #[trigger] switching_stepped(
                states[i],
                states[i + 1],
                era_number,
                blocks[i].0,
                blocks[i].1,
                results[i],
            ),
    ensures
        ({
            let last_set = era_set(states[0], (era_number - 1) as u64);
            let copied = era_set(states.last(), era_number);
            &&& era_set(states.last(), (era_number - 1) as u64) == last_set
            &&& copied.status() is UnbondingValidator ==> {
                &&& copy_of(last_set.set(), copied.set())
                &&& copied.set().total_stake == last_set.set().total_stake
            }
            &&& copied.status() matches ValidatorSetProcessingStatus::CopyingFromLastEra {
                copying_validator_index: vi,
                copying_delegator_index: di,
            } ==> copied_up_to(last_set.set(), vi as int, di as int, copied.set())
        }),
    decreases blocks.len(),
{
    let n = blocks.len() as int;
    let last_set = era_set(states[0], (era_number - 1) as u64);
    if n == 0 {
        let t = era_set(states[0], era_number).set();
        assert(last_set.set().validators.take(0) =~= Seq::<Validator>::empty());
        assert(states.last() == states[0]);
        assert forall|id: Seq<char>| #[trigger] t.delegators_of(id) == copied_delegators(last_set.set(), 0, 0, id) by {
            if last_set.set().contains_validator(id) {
                let p = validator_pos(last_set.set().validators, id);
                if p == 0 {
                    assert(last_set.set().delegators_of(id).take(0) =~= Seq::<Delegator>::empty());
                }
            }
        }
    } else {
        let prefix_states = states.subrange(0, n);
        let prefix_blocks = blocks.drop_last();
        let prefix_results = results.subrange(0, n - 1);
        assert forall|i: int| 0 <= i < prefix_blocks.len() implies #[trigger] switching_stepped(
            prefix_states[i],
            prefix_states[i + 1],
            era_number,
            prefix_blocks[i].0,
            prefix_blocks[i].1,
            prefix_results[i],
        ) by {
            assert(prefix_states[i] == states[i]);
            assert(prefix_states[i + 1] == states[i + 1]);
            assert(prefix_blocks[i] == blocks[i]);
            assert(prefix_results[i] == results[i]);
        }
        assert forall|i: int| 0 <= i < prefix_blocks.len() implies (#[trigger] era_set(
            prefix_states[i],
            era_number,
        )).status() is CopyingFromLastEra by {
            assert(prefix_states[i] == states[i]);
        }
        lemma_copying_restores_last_era_set(prefix_states, prefix_blocks, prefix_results, era_number);
        let before = states[n - 1];
        assert(prefix_states.last() == before);
        assert(states.last() == states[n]);
        let i = n - 1;
        assert(switching_stepped(states[i], states[i + 1], era_number, blocks[i].0, blocks[i].1, results[i]));
        assert(era_set(states[i], era_number).status() is CopyingFromLastEra);
        let s = era_set(before, era_number);
        if let ValidatorSetProcessingStatus::CopyingFromLastEra { copying_validator_index: vi, copying_delegator_index: di } = s.status() {
            assert(copying_stepped(before, states[n], era_number, vi, di, results[n - 1]));
            assert(era_set(before, (era_number - 1) as u64) == last_set);
            lemma_copy_step(last_set, s.set(), vi, di);
            if (vi as int) < last_set.set().validators.len() {
                assert(last_set.set().delegators_of(last_set.set().validators[vi as int].validator_id@).len() < u64::MAX);
            }
            let after = states[n];
            assert(era_set(after, (era_number - 1) as u64) == last_set);
            if copy_step(last_set, s.set(), vi, di).0 is NoMoreValidator {
                let t1 = era_set(after, era_number).set();
                assert forall|id: Seq<char>| #[trigger] t1.delegators_of(id) == s.set().delegators_of(id) by {}
            }
        }
    }
}

} // verus!
