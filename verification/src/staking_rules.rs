//! The rules of staking: what validators and delegators may do with their
//! stake in the next era, each action recorded as a staking fact that is
//! applied to the next validator set.
use crate::account_id_in_appchain::{is_valid_raw_id, lowercase, prefixed_id, AccountIdInAppchain};
use crate::anchor::AppchainAnchor;
use crate::next_validator_set::{lemma_unbonding_validator_leaves, listed};
use crate::profiles::{position_of_id_in_appchain, position_of_validator, ValidatorProfile};
use crate::validator_set::{Delegator, Validator};
use crate::errors::AnchorError;
use crate::switching_era::{era_set, history_appended};
use crate::validator_set_of_era::{histories_applied, ValidatorSetOfEra};
use crate::histories::{acting_account, with_history_index};
use crate::types::{AccountId, AppchainState, StakingFact, StakingHistory};
use crate::validator_set::{validator_ids_of, ValidatorSetModel};
use vstd::prelude::*;

verus! {

/// Whether `after` is `before` with `fact` recorded in the staking
/// histories at `block_height` and `timestamp`, its index added to the
/// histories of the account that acts in it, and the fact applied to the
/// next validator set, and nothing else changed.
pub open spec fn fact_recorded(before: AppchainAnchor, after: AppchainAnchor, fact: StakingFact, block_height: u64, timestamp: u64) -> bool {
    &&& history_appended(before.staking_histories, after.staking_histories, fact, block_height, timestamp)
    &&& after.user_staking_histories.histories_view() == with_history_index(
        before.user_staking_histories.histories_view(),
        acting_account(fact)@,
        before.staking_histories.next_index(),
    )
    &&& after.next_validator_set.set() == before.next_validator_set.set().applied(fact, block_height, timestamp)
    &&& after.next_validator_set.unbonding_ids() == before.next_validator_set.unbonding_ids()
    &&& after.next_validator_set.auto_unbonding_ids() == before.next_validator_set.auto_unbonding_ids()
    &&& after.next_validator_set.wf()
    &&& after == AppchainAnchor {
        staking_histories: after.staking_histories,
        next_validator_set: after.next_validator_set,
        user_staking_histories: after.user_staking_histories,
        ..before
    }
}

/// Whether a staking action that is refused for `refusal` (or else records
/// `fact`) gave `res` and turned `before` into `after`.
pub open spec fn staking_outcome(
    before: AppchainAnchor,
    after: AppchainAnchor,
    res: Result<(), AnchorError>,
    refusal: Option<AnchorError>,
    fact: StakingFact,
    block_height: u64,
    timestamp: u64,
) -> bool {
    match refusal {
        Some(e) => res == Err::<(), AnchorError>(e) && after == before,
        None => res == Ok::<(), AnchorError>(()) && fact_recorded(before, after, fact, block_height, timestamp),
    }
}

/// Whether a fact can be recorded in the staking histories of `a`.
pub open spec fn history_room(a: AppchainAnchor) -> bool {
    a.staking_histories.records().contains_key(0) ==> a.staking_histories.end() < u64::MAX
}

/// Whether the appchain is staging or active.
pub open spec fn staking_open(state: AppchainState) -> bool {
    state == AppchainState::Staging || state == AppchainState::Active
}

/// Why the total stake of `a` may not be reduced by `reduction`, if it may not:
/// the stake left must be above nothing and its price at least the price
/// needed to boot the appchain.
pub open spec fn stake_price_refusal(a: AppchainAnchor, reduction: u128) -> Option<AnchorError> {
    let total = a.next_validator_set.set().total_stake;
    if total <= reduction {
        Some(AnchorError::NotEnoughStake)
    } else if (total - reduction) * a.oct_token.price_in_usd < a.protocol_settings.minimum_total_stake_price_for_booting {
        Some(AnchorError::NotEnoughStake)
    } else {
        None
    }
}

/// Why `validator_id` is not a validator that stays in the next set of `a`.
pub open spec fn validator_refusal(a: AppchainAnchor, validator_id: AccountId) -> Option<AnchorError> {
    if !a.next_validator_set.stays(validator_id@) {
        Some(AnchorError::InvalidValidatorId(validator_id))
    } else {
        None
    }
}

/// Why `delegator_id` is not a delegator of a validator `validator_id` that
/// stays in the next set of `a`.
pub open spec fn delegator_refusal(a: AppchainAnchor, delegator_id: AccountId, validator_id: AccountId) -> Option<AnchorError> {
    if !a.next_validator_set.stays(validator_id@) {
        Some(AnchorError::InvalidValidatorId(validator_id))
    } else if !a.next_validator_set.set().contains_delegator(delegator_id@, validator_id@) {
        Some(AnchorError::InvalidDelegatorId(delegator_id, validator_id))
    } else {
        None
    }
}

impl AppchainAnchor {
    /// Records `staking_fact` in the staking histories at `block_height`
    /// and `timestamp` and applies it to the next validator set.
    pub fn record_and_apply_staking_fact(&mut self, staking_fact: StakingFact, block_height: u64, timestamp: u64)
        requires
            old(self).next_validator_set.wf(),
            old(self).next_validator_set.set().applicable(staking_fact),
            history_room(*old(self)),
        ensures
            fact_recorded(*old(self), *final(self), staking_fact, block_height, timestamp),
    {
        let fact = staking_fact.duplicate();
        let recorded = staking_fact.duplicate();
        let index = self.record_staking_fact(staking_fact, block_height, timestamp);
        self.next_validator_set.apply_staking_fact(&fact, block_height, timestamp);
        self.user_staking_histories.add_staking_history(
            &StakingHistory { staking_fact: recorded, block_height, timestamp, index },
        );
    }

    /// Refuses staking unless the appchain is staging or active.
    pub fn assert_staking_open(&self) -> (res: Result<(), AnchorError>)
        ensures
            res == if staking_open(self.appchain_state) {
                Ok::<(), AnchorError>(())
            } else {
                Err(AnchorError::InvalidAppchainState)
            },
    {
        match self.appchain_state {
            AppchainState::Staging | AppchainState::Active => Ok(()),
            _ => Err(AnchorError::InvalidAppchainState),
        }
    }

    /// Refuses a validator that does not stay in the next validator set.
    pub fn assert_validator_id(&self, validator_id: &AccountId) -> (res: Result<(), AnchorError>)
        ensures
            res == match validator_refusal(*self, *validator_id) {
                Some(e) => Err::<(), AnchorError>(e),
                None => Ok(()),
            },
    {
        if self.next_validator_set.contains_validator(validator_id) {
            Ok(())
        } else {
            Err(AnchorError::InvalidValidatorId(validator_id.clone()))
        }
    }

    /// Refuses a delegator that is not a delegator of `validator_id`, or a
    /// validator that does not stay in the next validator set.
    pub fn assert_delegator_id(&self, delegator_id: &AccountId, validator_id: &AccountId) -> (res: Result<(), AnchorError>)
        requires
            self.next_validator_set.wf(),
        ensures
            res == match delegator_refusal(*self, *delegator_id, *validator_id) {
                Some(e) => Err::<(), AnchorError>(e),
                None => Ok(()),
            },
    {
        if !self.next_validator_set.contains_validator(validator_id) {
            return Err(AnchorError::InvalidValidatorId(validator_id.clone()));
        }
        if !self.next_validator_set.contains_delegator(delegator_id, validator_id) {
            return Err(AnchorError::InvalidDelegatorId(delegator_id.clone(), validator_id.clone()));
        }
        Ok(())
    }

    /// Refuses a reduction of the total stake by `stake_reduction` that
    /// leaves no stake, or a stake whose price is below the price needed to
    /// boot the appchain.
    pub fn assert_total_stake_price(&self, stake_reduction: u128) -> (res: Result<(), AnchorError>)
        requires
            self.next_validator_set.set().total_stake > stake_reduction ==> (self.next_validator_set.set().total_stake
                - stake_reduction) * self.oct_token.price_in_usd <= u128::MAX,
        ensures
            res == match stake_price_refusal(*self, stake_reduction) {
                Some(e) => Err::<(), AnchorError>(e),
                None => Ok(()),
            },
    {
        let total_stake = self.next_validator_set.validator_set().total_stake();
        if total_stake <= stake_reduction {
            return Err(AnchorError::NotEnoughStake);
        }
        if (total_stake - stake_reduction) * self.oct_token.price_in_usd < self.protocol_settings.minimum_total_stake_price_for_booting {
            return Err(AnchorError::NotEnoughStake);
        }
        Ok(())
    }

    /// Refuses a reduction of the total stake of the next era by
    /// `stake_reduction` that leaves less than two thirds of the stake of the
    /// set of the latest era.
    pub fn assert_stake_kept_from_last_era(&self, stake_reduction: u128) -> (res: Result<(), AnchorError>)
        requires
            self.next_validator_set.set().total_stake > stake_reduction,
            share_comparable(*self),
        ensures
            res == match last_era_share_refusal(*self, stake_reduction) {
                Some(e) => Err::<(), AnchorError>(e),
                None => Ok(()),
            },
    {
        let end = self.validator_set_histories.index_range().end_index;
        let last_total = match self.validator_set_histories.get(&end) {
            Some(set) => set.total_stake(),
            None => {
                return Ok(());
            },
        };
        let remaining = self.next_validator_set.validator_set().total_stake() - stake_reduction;
        if remaining * 3 < last_total * 2 {
            return Err(AnchorError::NotEnoughStake);
        }
        Ok(())
    }

    /// Increases the stake of the validator `validator_id` by `amount`;
    /// refused unless the appchain is staging or active and the validator
    /// stays in the next validator set.
    pub fn increase_stake(&mut self, validator_id: AccountId, amount: u128, block_height: u64, timestamp: u64) -> (res: Result<(), AnchorError>)
        requires
            old(self).next_validator_set.wf(),
            history_room(*old(self)),
            old(self).next_validator_set.set().contains_validator(validator_id@) ==> old(self).next_validator_set.set().applicable(
                StakingFact::StakeIncreased { validator_id, amount },
            ),
        ensures
            staking_outcome(
                *old(self),
                *final(self),
                res,
                if !staking_open(old(self).appchain_state) {
                    Some(AnchorError::InvalidAppchainState)
                } else {
                    validator_refusal(*old(self), validator_id)
                },
                StakingFact::StakeIncreased { validator_id, amount },
                block_height,
                timestamp,
            ),
    {
        self.assert_staking_open()?;
        self.assert_validator_id(&validator_id)?;
        self.record_and_apply_staking_fact(StakingFact::StakeIncreased { validator_id, amount }, block_height, timestamp);
        Ok(())
    }
}

/// Why `a` refuses to let `delegator_id` register to `validator_id` with
/// `deposit_amount`, if it does.
pub open spec fn delegator_registration_refusal(
    a: AppchainAnchor,
    delegator_id: AccountId,
    validator_id: AccountId,
    deposit_amount: u128,
) -> Option<AnchorError> {
    let m = a.next_validator_set.set();
    let delegated = validator_ids_of(m.groups, delegator_id@).len();
    if !staking_open(a.appchain_state) {
        Some(AnchorError::InvalidAppchainState)
    } else if m.contains_delegator(delegator_id@, validator_id@) {
        Some(AnchorError::DelegatorAlreadyRegistered(delegator_id, validator_id))
    } else if a.unbonded_stakes.stakes_of(delegator_id@).len() > 0 {
        Some(AnchorError::UnbondedStakesNotWithdrawn(delegator_id))
    } else if !m.contains_validator(validator_id@) {
        Some(AnchorError::InvalidValidatorId(validator_id))
    } else if !m.validator(validator_id@).can_be_delegated_to {
        Some(AnchorError::DelegationNotAccepted(validator_id))
    } else if delegated > 0 && delegated >= a.protocol_settings.maximum_validators_per_delegator {
        Some(AnchorError::TooManyValidatorsDelegated)
    } else if deposit_amount < a.protocol_settings.minimum_delegator_deposit {
        Some(AnchorError::DepositTooFew)
    } else {
        None
    }
}

/// Why reducing the stake of the next era of `a` by `reduction` is refused
/// for leaving less than two thirds of the stake of the set of the latest
/// era, if it is.
pub open spec fn last_era_share_refusal(a: AppchainAnchor, reduction: u128) -> Option<AnchorError> {
    let end = a.validator_set_histories.end();
    if a.validator_set_histories.records().contains_key(end) && (a.next_validator_set.set().total_stake - reduction) * 3
        < shown_total_stake(era_set(a, end)) * 2 {
        Some(AnchorError::NotEnoughStake)
    } else {
        None
    }
}

/// Whether the stakes of `a` are small enough that a decrease can compare
/// them with two thirds of the stake of the latest era without overflow.
pub open spec fn share_comparable(a: AppchainAnchor) -> bool {
    let end = a.validator_set_histories.end();
    &&& a.next_validator_set.set().total_stake * 3 <= u128::MAX
    &&& a.validator_set_histories.records().contains_key(end) ==> shown_total_stake(era_set(a, end)) * 2 <= u128::MAX
}

/// Why `a` refuses to let the validator `validator_id` decrease its stake by `amount`.
pub open spec fn stake_decrease_refusal(a: AppchainAnchor, validator_id: AccountId, amount: u128) -> Option<AnchorError> {
    if a.appchain_state != AppchainState::Active {
        Some(AnchorError::InvalidAppchainState)
    } else if validator_refusal(a, validator_id) is Some {
        validator_refusal(a, validator_id)
    } else if a.next_validator_set.set().validator(validator_id@).deposit_amount < a.protocol_settings.minimum_validator_deposit
        + amount {
        Some(AnchorError::DecreaseTooMuch)
    } else if stake_price_refusal(a, amount) is Some {
        stake_price_refusal(a, amount)
    } else {
        last_era_share_refusal(a, amount)
    }
}

/// Why `a` refuses to let `delegator_id` decrease its delegation to `validator_id` by `amount`.
pub open spec fn delegation_decrease_refusal(a: AppchainAnchor, delegator_id: AccountId, validator_id: AccountId, amount: u128) -> Option<
    AnchorError,
> {
    if a.appchain_state != AppchainState::Active {
        Some(AnchorError::InvalidAppchainState)
    } else if delegator_refusal(a, delegator_id, validator_id) is Some {
        delegator_refusal(a, delegator_id, validator_id)
    } else if a.next_validator_set.set().delegator(delegator_id@, validator_id@).deposit_amount
        < a.protocol_settings.minimum_delegator_deposit + amount {
        Some(AnchorError::DecreaseTooMuch)
    } else if stake_price_refusal(a, amount) is Some {
        stake_price_refusal(a, amount)
    } else {
        last_era_share_refusal(a, amount)
    }
}

/// Whether unbonding is allowed in `state`.
pub open spec fn unbonding_open(state: AppchainState) -> bool {
    state == AppchainState::Active || state == AppchainState::Broken
}

/// Why `a` refuses to let `delegator_id` unbond from `validator_id`.
pub open spec fn delegation_unbonding_refusal(a: AppchainAnchor, delegator_id: AccountId, validator_id: AccountId) -> Option<AnchorError> {
    if !unbonding_open(a.appchain_state) {
        Some(AnchorError::InvalidAppchainState)
    } else if delegator_refusal(a, delegator_id, validator_id) is Some {
        delegator_refusal(a, delegator_id, validator_id)
    } else {
        stake_price_refusal(a, a.next_validator_set.set().delegator(delegator_id@, validator_id@).deposit_amount)
    }
}

impl AppchainAnchor {
    /// Lets the validator `validator_id` accept delegations; refused unless
    /// it stays in the next validator set.
    pub fn enable_delegation(&mut self, validator_id: AccountId, block_height: u64, timestamp: u64) -> (res: Result<(), AnchorError>)
        requires
            old(self).next_validator_set.wf(),
            history_room(*old(self)),
        ensures
            staking_outcome(
                *old(self),
                *final(self),
                res,
                validator_refusal(*old(self), validator_id),
                StakingFact::ValidatorDelegationEnabled { validator_id },
                block_height,
                timestamp,
            ),
    {
        self.assert_validator_id(&validator_id)?;
        self.record_and_apply_staking_fact(StakingFact::ValidatorDelegationEnabled { validator_id }, block_height, timestamp);
        Ok(())
    }

    /// Lets the validator `validator_id` refuse delegations; refused unless
    /// it stays in the next validator set. Its delegators stay.
    pub fn disable_delegation(&mut self, validator_id: AccountId, block_height: u64, timestamp: u64) -> (res: Result<(), AnchorError>)
        requires
            old(self).next_validator_set.wf(),
            history_room(*old(self)),
        ensures
            staking_outcome(
                *old(self),
                *final(self),
                res,
                validator_refusal(*old(self), validator_id),
                StakingFact::ValidatorDelegationDisabled { validator_id },
                block_height,
                timestamp,
            ),
    {
        self.assert_validator_id(&validator_id)?;
        self.record_and_apply_staking_fact(StakingFact::ValidatorDelegationDisabled { validator_id }, block_height, timestamp);
        Ok(())
    }

    /// Increases the delegation of `delegator_id` to `validator_id` by
    /// `amount`; refused unless the appchain is staging or active and the
    /// delegator delegates to a validator that stays in the next set.
    pub fn increase_delegation(
        &mut self,
        delegator_id: AccountId,
        validator_id: AccountId,
        amount: u128,
        block_height: u64,
        timestamp: u64,
    ) -> (res: Result<(), AnchorError>)
        requires
            old(self).next_validator_set.wf(),
            history_room(*old(self)),
            delegator_refusal(*old(self), delegator_id, validator_id) is None ==> old(self).next_validator_set.set().applicable(
                StakingFact::DelegationIncreased { delegator_id, validator_id, amount },
            ),
        ensures
            staking_outcome(
                *old(self),
                *final(self),
                res,
                if !staking_open(old(self).appchain_state) {
                    Some(AnchorError::InvalidAppchainState)
                } else {
                    delegator_refusal(*old(self), delegator_id, validator_id)
                },
                StakingFact::DelegationIncreased { delegator_id, validator_id, amount },
                block_height,
                timestamp,
            ),
    {
        self.assert_staking_open()?;
        self.assert_delegator_id(&delegator_id, &validator_id)?;
        self.record_and_apply_staking_fact(
            StakingFact::DelegationIncreased { delegator_id, validator_id, amount },
            block_height,
            timestamp,
        );
        Ok(())
    }

    /// Registers `delegator_id` as a delegator of `validator_id` with
    /// `deposit_amount`; refused unless the appchain is staging or active,
    /// the delegator is new to the validator and holds no unbonded stake,
    /// the validator is in the next set and accepts delegations, the
    /// delegator delegates to fewer validators than allowed, and the
    /// deposit is at least the minimum.
    pub fn register_delegator(
        &mut self,
        delegator_id: AccountId,
        validator_id: AccountId,
        deposit_amount: u128,
        block_height: u64,
        timestamp: u64,
    ) -> (res: Result<(), AnchorError>)
        requires
            old(self).next_validator_set.wf(),
            history_room(*old(self)),
            delegator_registration_refusal(*old(self), delegator_id, validator_id, deposit_amount) is None
                ==> old(self).next_validator_set.set().applicable(
                StakingFact::DelegatorRegistered { delegator_id, validator_id, amount: deposit_amount },
            ),
        ensures
            staking_outcome(
                *old(self),
                *final(self),
                res,
                delegator_registration_refusal(*old(self), delegator_id, validator_id, deposit_amount),
                StakingFact::DelegatorRegistered { delegator_id, validator_id, amount: deposit_amount },
                block_height,
                timestamp,
            ),
    {
        self.assert_staking_open()?;
        let set = self.next_validator_set.validator_set();
        if set.contains_delegator(&delegator_id, &validator_id) {
            return Err(AnchorError::DelegatorAlreadyRegistered(delegator_id, validator_id));
        }
        if self.unbonded_stakes.contains_account(&delegator_id) {
            return Err(AnchorError::UnbondedStakesNotWithdrawn(delegator_id));
        }
        let can_be_delegated_to = match set.get_validator(&validator_id) {
            Some(v) => v.can_be_delegated_to,
            None => {
                return Err(AnchorError::InvalidValidatorId(validator_id));
            },
        };
        if !can_be_delegated_to {
            return Err(AnchorError::DelegationNotAccepted(validator_id));
        }
        let delegated = set.get_validator_count_of(&delegator_id);
        if delegated > 0 && delegated >= self.protocol_settings.maximum_validators_per_delegator {
            return Err(AnchorError::TooManyValidatorsDelegated);
        }
        if deposit_amount < self.protocol_settings.minimum_delegator_deposit {
            return Err(AnchorError::DepositTooFew);
        }
        self.record_and_apply_staking_fact(
            StakingFact::DelegatorRegistered { delegator_id, validator_id, amount: deposit_amount },
            block_height,
            timestamp,
        );
        Ok(())
    }

    /// Decreases the stake of the validator `validator_id` by `amount`;
    /// refused unless the appchain is active, the validator stays in the
    /// next set, its deposit stays at least the minimum, and the total stake
    /// left is enough.
    pub fn decrease_stake(&mut self, validator_id: AccountId, amount: u128, block_height: u64, timestamp: u64) -> (res: Result<(), AnchorError>)
        requires
            old(self).next_validator_set.wf(),
            history_room(*old(self)),
            old(self).protocol_settings.minimum_validator_deposit + amount <= u128::MAX,
            old(self).next_validator_set.set().total_stake > amount ==> (old(self).next_validator_set.set().total_stake
                - amount) * old(self).oct_token.price_in_usd <= u128::MAX,
            share_comparable(*old(self)),
            stake_decrease_refusal(*old(self), validator_id, amount) is None ==> old(self).next_validator_set.set().applicable(
                StakingFact::StakeDecreased { validator_id, amount },
            ),
        ensures
            staking_outcome(
                *old(self),
                *final(self),
                res,
                stake_decrease_refusal(*old(self), validator_id, amount),
                StakingFact::StakeDecreased { validator_id, amount },
                block_height,
                timestamp,
            ),
    {
        match self.appchain_state {
            AppchainState::Active => {},
            _ => {
                return Err(AnchorError::InvalidAppchainState);
            },
        }
        self.assert_validator_id(&validator_id)?;
        let deposit = match self.next_validator_set.get_validator(&validator_id) {
            Some(v) => v.deposit_amount,
            None => {
                return Err(AnchorError::InvalidValidatorId(validator_id));
            },
        };
        if deposit < self.protocol_settings.minimum_validator_deposit + amount {
            return Err(AnchorError::DecreaseTooMuch);
        }
        self.assert_total_stake_price(amount)?;
        self.assert_stake_kept_from_last_era(amount)?;
        self.record_and_apply_staking_fact(StakingFact::StakeDecreased { validator_id, amount }, block_height, timestamp);
        Ok(())
    }

    /// Decreases the delegation of `delegator_id` to `validator_id` by
    /// `amount`; refused unless the appchain is active, the delegator
    /// delegates to a validator that stays in the next set, its deposit
    /// stays at least the minimum, and the total stake left is enough.
    pub fn decrease_delegation(
        &mut self,
        delegator_id: AccountId,
        validator_id: AccountId,
        amount: u128,
        block_height: u64,
        timestamp: u64,
    ) -> (res: Result<(), AnchorError>)
        requires
            old(self).next_validator_set.wf(),
            history_room(*old(self)),
            old(self).protocol_settings.minimum_delegator_deposit + amount <= u128::MAX,
            old(self).next_validator_set.set().total_stake > amount ==> (old(self).next_validator_set.set().total_stake
                - amount) * old(self).oct_token.price_in_usd <= u128::MAX,
            share_comparable(*old(self)),
            delegation_decrease_refusal(*old(self), delegator_id, validator_id, amount) is None
                ==> old(self).next_validator_set.set().applicable(
                StakingFact::DelegationDecreased { delegator_id, validator_id, amount },
            ),
        ensures
            staking_outcome(
                *old(self),
                *final(self),
                res,
                delegation_decrease_refusal(*old(self), delegator_id, validator_id, amount),
                StakingFact::DelegationDecreased { delegator_id, validator_id, amount },
                block_height,
                timestamp,
            ),
    {
        match self.appchain_state {
            AppchainState::Active => {},
            _ => {
                return Err(AnchorError::InvalidAppchainState);
            },
        }
        self.assert_delegator_id(&delegator_id, &validator_id)?;
        let deposit = match self.next_validator_set.get_delegator(&delegator_id, &validator_id) {
            Some(d) => d.deposit_amount,
            None => {
                return Err(AnchorError::InvalidDelegatorId(delegator_id, validator_id));
            },
        };
        if deposit < self.protocol_settings.minimum_delegator_deposit + amount {
            return Err(AnchorError::DecreaseTooMuch);
        }
        self.assert_total_stake_price(amount)?;
        self.assert_stake_kept_from_last_era(amount)?;
        self.record_and_apply_staking_fact(
            StakingFact::DelegationDecreased { delegator_id, validator_id, amount },
            block_height,
            timestamp,
        );
        Ok(())
    }

    /// Unbonds `delegator_id` from `validator_id`; refused unless the
    /// appchain is active or broken, the delegator delegates to a validator
    /// that stays in the next set, and the total stake left is enough.
    pub fn unbond_delegation(&mut self, delegator_id: AccountId, validator_id: AccountId, block_height: u64, timestamp: u64) -> (res:
        Result<(), AnchorError>)
        requires
            old(self).next_validator_set.wf(),
            history_room(*old(self)),
            ({
                let total = old(self).next_validator_set.set().total_stake;
                let deposit = old(self).next_validator_set.set().delegator(delegator_id@, validator_id@).deposit_amount;
                total > deposit ==> (total - deposit) * old(self).oct_token.price_in_usd <= u128::MAX
            }),
            delegation_unbonding_refusal(*old(self), delegator_id, validator_id) is None
                ==> old(self).next_validator_set.set().applicable(
                StakingFact::DelegatorUnbonded {
                    delegator_id,
                    validator_id,
                    amount: old(self).next_validator_set.set().delegator(delegator_id@, validator_id@).deposit_amount,
                },
            ),
        ensures
            staking_outcome(
                *old(self),
                *final(self),
                res,
                delegation_unbonding_refusal(*old(self), delegator_id, validator_id),
                StakingFact::DelegatorUnbonded {
                    delegator_id,
                    validator_id,
                    amount: old(self).next_validator_set.set().delegator(delegator_id@, validator_id@).deposit_amount,
                },
                block_height,
                timestamp,
            ),
    {
        match self.appchain_state {
            AppchainState::Active | AppchainState::Broken => {},
            _ => {
                return Err(AnchorError::InvalidAppchainState);
            },
        }
        self.assert_delegator_id(&delegator_id, &validator_id)?;
        let deposit = match self.next_validator_set.get_delegator(&delegator_id, &validator_id) {
            Some(d) => d.deposit_amount,
            None => {
                return Err(AnchorError::InvalidDelegatorId(delegator_id, validator_id));
            },
        };
        self.assert_total_stake_price(deposit)?;
        self.record_and_apply_staking_fact(
            StakingFact::DelegatorUnbonded { delegator_id, validator_id, amount: deposit },
            block_height,
            timestamp,
        );
        Ok(())
    }
}

/// The id in the appchain, as stored, that a validator registers with.
pub open spec fn formatted_id(id_in_appchain: Option<String>) -> Seq<char> {
    lowercase(
        match id_in_appchain {
            Some(id) => prefixed_id(id@),
            None => Seq::<char>::empty(),
        },
    )
}

/// Why `a` refuses a validator `validator_id` with the deposit `deposit_amount`
/// for its deposit and number alone.
pub open spec fn deposit_refusal(a: AppchainAnchor, deposit_amount: u128) -> Option<AnchorError> {
    if deposit_amount < a.protocol_settings.minimum_validator_deposit {
        Some(AnchorError::DepositTooFew)
    } else if a.next_validator_set.set().validators.len() >= a.protocol_settings.maximum_validator_count {
        Some(AnchorError::TooManyValidators)
    } else {
        None
    }
}

/// Why `a` refuses to register `validator_id` with the id in the appchain
/// `id_in_appchain` and the deposit `deposit_amount`, if it does.
pub open spec fn validator_registration_refusal(
    a: AppchainAnchor,
    validator_id: AccountId,
    id_in_appchain: Option<String>,
    deposit_amount: u128,
) -> Option<AnchorError> {
    let m = a.next_validator_set.set();
    let raw = formatted_id(id_in_appchain);
    if !staking_open(a.appchain_state) {
        Some(AnchorError::InvalidAppchainState)
    } else if m.contains_validator(validator_id@) {
        Some(AnchorError::AccountAlreadyRegistered(validator_id))
    } else if a.unbonded_stakes.stakes_of(validator_id@).len() > 0 {
        Some(AnchorError::UnbondedStakesNotWithdrawn(validator_id))
    } else {
        match id_in_appchain {
            Some(id) => if !is_valid_raw_id(a.appchain_template_type, raw) {
                Some(AnchorError::InvalidValidatorIdInAppchain(id))
            } else if position_of_id_in_appchain(a.validator_profiles.entries(), raw) >= 0 {
                Some(AnchorError::IdInAppchainAlreadyRegistered(id))
            } else {
                deposit_refusal(a, deposit_amount)
            },
            None => deposit_refusal(a, deposit_amount),
        }
    }
}

/// Whether `after` is `before` with the validator `validator_id` registered:
/// the registration, with the id in the appchain `raw`, is recorded and
/// applied, and the profile of the validator is stored.
pub open spec fn validator_registered(
    before: AppchainAnchor,
    after: AppchainAnchor,
    validator_id: AccountId,
    raw: Seq<char>,
    deposit_amount: u128,
    can_be_delegated_to: bool,
    profile: Vec<(String, String)>,
    block_height: u64,
    timestamp: u64,
) -> bool {
    let index = before.staking_histories.next_index();
    let fact = after.staking_histories.records()[index].staking_fact;
    let entries = before.validator_profiles.entries();
    let pos = position_of_validator(entries, validator_id@);
    let p = if pos >= 0 {
        after.validator_profiles.entries()[pos]
    } else {
        after.validator_profiles.entries().last()
    };
    &&& (fact matches StakingFact::ValidatorRegistered {
        validator_id: v,
        validator_id_in_appchain: s,
        amount,
        can_be_delegated_to: c,
    } && v == validator_id && s@ == raw && amount == deposit_amount && c == can_be_delegated_to)
    &&& fact_recorded(
        before,
        AppchainAnchor { validator_profiles: before.validator_profiles, ..after },
        fact,
        block_height,
        timestamp,
    )
    &&& after.validator_profiles.entries() == if pos >= 0 {
        entries.update(pos, p)
    } else {
        entries.push(p)
    }
    &&& p.validator_id == validator_id
    &&& p.validator_id_in_appchain@ == raw
    &&& p.profile == profile
}

impl AppchainAnchor {
    /// Registers `validator_id` as a validator of the next era with the id in
    /// the appchain `validator_id_in_appchain` (formatted), the profile
    /// `profile` and the deposit `deposit_amount`. Refused unless the
    /// appchain is staging or active, the account is not a validator and
    /// holds no unbonded stake, the id in the appchain, where given, is
    /// valid and not taken, the deposit is at least the minimum, and there
    /// are fewer validators than allowed.
    pub fn register_validator(
        &mut self,
        validator_id: AccountId,
        validator_id_in_appchain: Option<String>,
        profile: Vec<(String, String)>,
        deposit_amount: u128,
        can_be_delegated_to: bool,
        block_height: u64,
        timestamp: u64,
    ) -> (res: Result<(), AnchorError>)
        requires
            old(self).next_validator_set.wf(),
            history_room(*old(self)),
            old(self).next_validator_set.set().total_stake + deposit_amount <= u128::MAX,
        ensures
            match validator_registration_refusal(*old(self), validator_id, validator_id_in_appchain, deposit_amount) {
                Some(e) => res == Err::<(), AnchorError>(e) && *final(self) == *old(self),
                None => res == Ok::<(), AnchorError>(()) && validator_registered(
                    *old(self),
                    *final(self),
                    validator_id,
                    formatted_id(validator_id_in_appchain),
                    deposit_amount,
                    can_be_delegated_to,
                    profile,
                    block_height,
                    timestamp,
                ),
            },
    {
        self.assert_staking_open()?;
        if self.next_validator_set.validator_set().contains_validator(&validator_id) {
            return Err(AnchorError::AccountAlreadyRegistered(validator_id));
        }
        if self.unbonded_stakes.contains_account(&validator_id) {
            return Err(AnchorError::UnbondedStakesNotWithdrawn(validator_id));
        }
        let id_copy = match &validator_id_in_appchain {
            Some(id) => Some(id.clone()),
            None => None,
        };
        let formatted = AccountIdInAppchain::new(id_copy, &self.appchain_template_type);
        let raw = formatted.to_string();
        if let Some(id) = &validator_id_in_appchain {
            if !formatted.is_valid() {
                return Err(AnchorError::InvalidValidatorIdInAppchain(id.clone()));
            }
            if self.validator_profiles.get_by_id_in_appchain(&raw).is_some() {
                return Err(AnchorError::IdInAppchainAlreadyRegistered(id.clone()));
            }
        }
        if deposit_amount < self.protocol_settings.minimum_validator_deposit {
            return Err(AnchorError::DepositTooFew);
        }
        if self.next_validator_set.validator_set().validator_count() >= self.protocol_settings.maximum_validator_count {
            return Err(AnchorError::TooManyValidators);
        }
        let profile_id = formatted.to_string();
        let ghost before = *self;
        self.record_and_apply_staking_fact(
            StakingFact::ValidatorRegistered {
                validator_id: validator_id.clone(),
                validator_id_in_appchain: raw,
                amount: deposit_amount,
                can_be_delegated_to,
            },
            block_height,
            timestamp,
        );
        let ghost recorded = *self;
        proof {
            crate::profiles::lemma_position_of_validator_bounds(before.validator_profiles.entries(), validator_id@);
        }
        self.validator_profiles.insert(
            ValidatorProfile { validator_id, validator_id_in_appchain: profile_id, profile },
        );
        proof {
            assert(recorded == (AppchainAnchor { validator_profiles: before.validator_profiles, ..*self }));
        }
        Ok(())
    }
}

/// The facts that unbonding the validator `validator_id` of `m` records:
/// each of its delegators is unbonded, in order, and then the validator.
pub open spec fn unbond_facts(m: ValidatorSetModel, validator_id: AccountId) -> Seq<StakingFact> {
    let ds = m.delegators_of(validator_id@);
    Seq::new(
        (ds.len() + 1) as nat,
        |i: int|
            if i < ds.len() {
                StakingFact::DelegatorUnbonded {
                    delegator_id: ds[i].delegator_id,
                    validator_id,
                    amount: ds[i].deposit_amount,
                }
            } else {
                StakingFact::ValidatorUnbonded { validator_id, amount: m.validator(validator_id@).deposit_amount }
            },
    )
}

/// Whether the facts `facts` can be applied to `m` one after the other.
pub open spec fn facts_applicable(m: ValidatorSetModel, facts: Seq<StakingFact>, block_height: u64, timestamp: u64) -> bool
    decreases facts.len(),
{
    facts.len() == 0 || (m.applicable(facts[0]) && facts_applicable(
        m.applied(facts[0], block_height, timestamp),
        facts.skip(1),
        block_height,
        timestamp,
    ))
}

/// Whether `states` are the anchor before and after each of the facts
/// `facts` is recorded and applied, in order.
pub open spec fn recorded_through(states: Seq<AppchainAnchor>, facts: Seq<StakingFact>, block_height: u64, timestamp: u64) -> bool {
    &&& states.len() == facts.len() + 1
    &&& forall|i: int| 0 <= i < facts.len() ==> #[trigger] fact_recorded(states[i], states[i + 1], facts[i], block_height, timestamp)
}

/// Whether `after` is `before` with the facts `facts` recorded and applied
/// one after the other.
pub open spec fn facts_recorded(before: AppchainAnchor, after: AppchainAnchor, facts: Seq<StakingFact>, block_height: u64, timestamp: u64) -> bool {
    exists|states: Seq<AppchainAnchor>| #[trigger] recorded_through(states, facts, block_height, timestamp) && states[0] == before
        && states.last() == after
}

/// Why `a` refuses to let the validator `validator_id` unbond, if it does.
pub open spec fn stake_unbonding_refusal(a: AppchainAnchor, validator_id: AccountId) -> Option<AnchorError> {
    let m = a.next_validator_set.set();
    if !unbonding_open(a.appchain_state) {
        Some(AnchorError::InvalidAppchainState)
    } else if m.validators.len() <= a.protocol_settings.minimum_validator_count {
        Some(AnchorError::TooFewValidators)
    } else if validator_refusal(a, validator_id) is Some {
        validator_refusal(a, validator_id)
    } else {
        stake_price_refusal(a, m.validator(validator_id@).total_stake)
    }
}

impl AppchainAnchor {
    /// Unbonds the validator `validator_id` and all its delegators from the
    /// next era. Refused unless the appchain is active or broken, there are
    /// more validators than the minimum, the validator stays in the next set,
    /// and the total stake left is enough.
    pub fn unbond_stake(&mut self, validator_id: AccountId, block_height: u64, timestamp: u64) -> (res: Result<(), AnchorError>)
        requires
            old(self).next_validator_set.wf(),
            old(self).staking_histories.end() + unbond_facts(old(self).next_validator_set.set(), validator_id).len() < u64::MAX,
            ({
                let m = old(self).next_validator_set.set();
                m.total_stake > m.validator(validator_id@).total_stake ==> (m.total_stake - m.validator(validator_id@).total_stake)
                    * old(self).oct_token.price_in_usd <= u128::MAX
            }),
            stake_unbonding_refusal(*old(self), validator_id) is None ==> facts_applicable(
                old(self).next_validator_set.set(),
                unbond_facts(old(self).next_validator_set.set(), validator_id),
                block_height,
                timestamp,
            ),
        ensures
            match stake_unbonding_refusal(*old(self), validator_id) {
                Some(e) => res == Err::<(), AnchorError>(e) && *final(self) == *old(self),
                None => res == Ok::<(), AnchorError>(()) && facts_recorded(
                    *old(self),
                    *final(self),
                    unbond_facts(old(self).next_validator_set.set(), validator_id),
                    block_height,
                    timestamp,
                ),
            },
    {
        match self.appchain_state {
            AppchainState::Active | AppchainState::Broken => {},
            _ => {
                return Err(AnchorError::InvalidAppchainState);
            },
        }
        if self.next_validator_set.validator_set().validator_count() <= self.protocol_settings.minimum_validator_count {
            return Err(AnchorError::TooFewValidators);
        }
        self.assert_validator_id(&validator_id)?;
        let (validator_total_stake, validator_deposit) = match self.next_validator_set.get_validator(&validator_id) {
            Some(v) => (v.total_stake, v.deposit_amount),
            None => {
                return Err(AnchorError::InvalidValidatorId(validator_id));
            },
        };
        self.assert_total_stake_price(validator_total_stake)?;
        let ghost m0 = self.next_validator_set.set();
        let ghost facts = unbond_facts(m0, validator_id);
        let ghost start = *self;
        let count = self.next_validator_set.validator_set().get_delegator_count_of(&validator_id);
        let mut delegators: Vec<Delegator> = Vec::new();
        let mut i: u64 = 0;
        while i < count
            invariant
                *self == start,
                m0 == self.next_validator_set.set(),
                self.next_validator_set.wf(),
                count == m0.delegators_of(validator_id@).len(),
                i <= count,
                delegators@ == m0.delegators_of(validator_id@).take(i as int),
            decreases count - i,
        {
            match self.next_validator_set.validator_set().get_delegator_by_index(&i, &validator_id) {
                Some(d) => {
                    delegators.push(d.duplicate());
                },
                None => {
                    assert(false);
                },
            }
            i = i + 1;
            assert(delegators@ =~= m0.delegators_of(validator_id@).take(i as int));
        }
        assert(delegators@ =~= m0.delegators_of(validator_id@));
        let ghost mut states: Seq<AppchainAnchor> = seq![start];
        assert(stake_unbonding_refusal(*old(self), validator_id) is None);
        assert(facts.skip(0) =~= facts);
        assert(facts.take(0) =~= Seq::<StakingFact>::empty());
        let mut k: usize = 0;
        while k < delegators.len()
            invariant
                start.next_validator_set.set() == m0,
                facts == unbond_facts(m0, validator_id),
                delegators@ == m0.delegators_of(validator_id@),
                k <= delegators@.len(),
                recorded_through(states, facts.take(k as int), block_height, timestamp),
                states[0] == start,
                states.last() == *self,
                self.next_validator_set.wf(),
                facts_applicable(self.next_validator_set.set(), facts.skip(k as int), block_height, timestamp),
                self.staking_histories.end() <= start.staking_histories.end() + k,
                start.staking_histories.end() + facts.len() < u64::MAX,
                validator_deposit == m0.validator(validator_id@).deposit_amount,
            decreases delegators@.len() - k,
        {
            let fact = StakingFact::DelegatorUnbonded {
                delegator_id: delegators[k].delegator_id.clone(),
                validator_id: validator_id.clone(),
                amount: delegators[k].deposit_amount,
            };
            assert(fact == facts[k as int]);
            assert(facts.skip(k as int)[0] == facts[k as int]);
            assert(facts.skip(k as int).skip(1) =~= facts.skip(k + 1));
            let ghost before = *self;
            self.record_and_apply_staking_fact(fact, block_height, timestamp);
            proof {
                let old_states = states;
                states = states.push(*self);
                let taken = facts.take(k + 1);
                assert forall|j: int| 0 <= j < taken.len() implies #[trigger] fact_recorded(
                    states[j],
                    states[j + 1],
                    taken[j],
                    block_height,
                    timestamp,
                ) by {
                    if j < k {
                        assert(taken[j] == facts.take(k as int)[j]);
                        assert(fact_recorded(old_states[j], old_states[j + 1], facts.take(k as int)[j], block_height, timestamp));
                    } else {
                        assert(taken[j] == facts[k as int]);
                    }
                }
            }
            k = k + 1;
        }
        let fact = StakingFact::ValidatorUnbonded { validator_id: validator_id.clone(), amount: validator_deposit };
        let n = delegators.len();
        assert(fact == facts[n as int]);
        assert(facts.skip(n as int)[0] == facts[n as int]);
        self.record_and_apply_staking_fact(fact, block_height, timestamp);
        proof {
            let old_states = states;
            states = states.push(*self);
            assert(facts.take(n + 1) =~= facts);
            assert forall|j: int| 0 <= j < facts.len() implies #[trigger] fact_recorded(
                states[j],
                states[j + 1],
                facts[j],
                block_height,
                timestamp,
            ) by {
                if j < n {
                    assert(facts.take(n as int)[j] == facts[j]);
                    assert(fact_recorded(old_states[j], old_states[j + 1], facts.take(n as int)[j], block_height, timestamp));
                }
            }
            assert(recorded_through(states, facts, block_height, timestamp));
        }
        Ok(())
    }
}

/// The total stake of the set `s` as it shows it: nothing until all its
/// staking histories are applied.
pub open spec fn shown_total_stake(s: ValidatorSetOfEra) -> int {
    if histories_applied(s.status()) {
        s.set().total_stake
    } else {
        0
    }
}

/// Why `a` refuses a validator with the deposit `deposit_amount` and, where
/// given, the stake `total_stake`, if it does: the deposit must be at least
/// the minimum, and while the appchain is active the stake may be at most the
/// share that a validator may hold of the stake of the latest era's set.
pub open spec fn validator_stake_refusal(a: AppchainAnchor, deposit_amount: u128, total_stake: Option<u128>) -> Option<AnchorError> {
    if deposit_amount < a.protocol_settings.minimum_validator_deposit {
        Some(AnchorError::DepositTooFew)
    } else {
        match total_stake {
            Some(t) => if a.appchain_state == AppchainState::Active && t > shown_total_stake(
                era_set(a, a.validator_set_histories.end()),
            ) * a.protocol_settings.maximum_validator_stake_percent / 100 {
                Some(AnchorError::TooMuchStake)
            } else {
                None
            },
            None => None,
        }
    }
}

impl AppchainAnchor {
    /// Refuses a validator stake as `validator_stake_refusal` says.
    pub fn assert_validator_stake_is_valid(&self, deposit_amount: u128, total_stake: Option<u128>) -> (res: Result<
        (),
        AnchorError,
    >)
        requires
            total_stake is Some && self.appchain_state == AppchainState::Active ==> {
                &&& self.validator_set_histories.records().contains_key(self.validator_set_histories.end())
                &&& shown_total_stake(era_set(*self, self.validator_set_histories.end()))
                    * self.protocol_settings.maximum_validator_stake_percent <= u128::MAX
            },
        ensures
            res == match validator_stake_refusal(*self, deposit_amount, total_stake) {
                Some(e) => Err::<(), AnchorError>(e),
                None => Ok(()),
            },
    {
        if deposit_amount < self.protocol_settings.minimum_validator_deposit {
            return Err(AnchorError::DepositTooFew);
        }
        if let Some(t) = total_stake {
            match self.appchain_state {
                AppchainState::Active => {
                    let end = self.validator_set_histories.index_range().end_index;
                    let era_total = match self.validator_set_histories.get(&end) {
                        Some(set) => set.total_stake(),
                        None => {
                            return Ok(());
                        },
                    };
                    let maximum_allowed_deposit = era_total * (self.protocol_settings.maximum_validator_stake_percent as u128)
                        / 100;
                    if t > maximum_allowed_deposit {
                        return Err(AnchorError::TooMuchStake);
                    }
                },
                _ => {},
            }
        }
        Ok(())
    }
}


/// A staking action on a validator that the anchor is unbonding, or that is
/// unbonding itself, is refused: where `validator_id` is listed among the
/// validators of the next set that unbond or that the anchor unbonds, the
/// refusals of the actions of a validator and of its delegators name it as
/// an invalid validator.
pub proof fn lemma_leaving_validator_refused(a: AppchainAnchor, validator_id: AccountId, delegator_id: AccountId)
    requires
        listed(a.next_validator_set.unbonding_ids(), validator_id@) || listed(
            a.next_validator_set.auto_unbonding_ids(),
            validator_id@,
        ),
    ensures
        validator_refusal(a, validator_id) == Some(AnchorError::InvalidValidatorId(validator_id)),
        delegator_refusal(a, delegator_id, validator_id) == Some(AnchorError::InvalidValidatorId(validator_id)),
{
    lemma_unbonding_validator_leaves(a.next_validator_set, validator_id@);
}

} // verus!
