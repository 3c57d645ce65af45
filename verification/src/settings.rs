//! The settings of an anchor: their defaults, the rules by which the owner
//! changes them, and the managers that hold them.
use crate::errors::AnchorError;
use crate::rewards::OCT_DECIMALS_VALUE;
use crate::types::{AccountId, AnchorSettings, AppchainSettings, ProtocolSettings};
use vstd::prelude::*;

verus! {

/// The value of one USD in the unit of prices.
pub const USD_DECIMALS_VALUE: u128 = 1_000_000;

/// The protocol settings of a new anchor.
pub open spec fn default_protocol_settings() -> ProtocolSettings {
    ProtocolSettings {
        minimum_validator_deposit: (5_000 * OCT_DECIMALS_VALUE) as u128,
        minimum_validator_deposit_changing_amount: (1000 * OCT_DECIMALS_VALUE) as u128,
        maximum_validator_stake_percent: 25,
        minimum_delegator_deposit: (200 * OCT_DECIMALS_VALUE) as u128,
        minimum_delegator_deposit_changing_amount: (100 * OCT_DECIMALS_VALUE) as u128,
        minimum_total_stake_price_for_booting: (100_000 * USD_DECIMALS_VALUE) as u128,
        maximum_market_value_percent_of_near_fungible_tokens: 33,
        maximum_market_value_percent_of_wrapped_appchain_token: 67,
        minimum_validator_count: 4,
        maximum_validator_count: 60,
        maximum_validators_per_delegator: 16,
        unlock_period_of_validator_deposit: 21,
        unlock_period_of_delegator_deposit: 21,
        maximum_era_count_of_unwithdrawn_reward: 84,
        maximum_era_count_of_valid_appchain_message: 7,
        validator_commission_percent: 20,
        maximum_allowed_unprofitable_era_count: 3,
    }
}

impl Default for ProtocolSettings {
    fn default() -> (res: Self)
        ensures
            res == default_protocol_settings(),
    {
        ProtocolSettings {
            minimum_validator_deposit: 5_000 * OCT_DECIMALS_VALUE,
            minimum_validator_deposit_changing_amount: 1000 * OCT_DECIMALS_VALUE,
            maximum_validator_stake_percent: 25,
            minimum_delegator_deposit: 200 * OCT_DECIMALS_VALUE,
            minimum_delegator_deposit_changing_amount: 100 * OCT_DECIMALS_VALUE,
            minimum_total_stake_price_for_booting: 100_000 * USD_DECIMALS_VALUE,
            maximum_market_value_percent_of_near_fungible_tokens: 33,
            maximum_market_value_percent_of_wrapped_appchain_token: 67,
            minimum_validator_count: 4,
            maximum_validator_count: 60,
            maximum_validators_per_delegator: 16,
            unlock_period_of_validator_deposit: 21,
            unlock_period_of_delegator_deposit: 21,
            maximum_era_count_of_unwithdrawn_reward: 84,
            maximum_era_count_of_valid_appchain_message: 7,
            validator_commission_percent: 20,
            maximum_allowed_unprofitable_era_count: 3,
        }
    }
}

impl Default for AnchorSettings {
    fn default() -> (res: Self)
        ensures
            res.token_price_maintainer_account is None,
            res.relayer_account is None,
            !res.beefy_light_client_witness_mode,
            res.min_length_of_validator_set_history == u64::MAX,
    {
        AnchorSettings {
            token_price_maintainer_account: None,
            relayer_account: None,
            beefy_light_client_witness_mode: false,
            min_length_of_validator_set_history: u64::MAX,
        }
    }
}

impl Default for AppchainSettings {
    fn default() -> (res: Self)
        ensures
            res.rpc_endpoint@ == Seq::<char>::empty(),
            res.subql_endpoint@ == Seq::<char>::empty(),
            res.era_reward == 0,
            res.bonus_for_new_validator == 0,
    {
        AppchainSettings { rpc_endpoint: String::new(), subql_endpoint: String::new(), era_reward: 0, bonus_for_new_validator: 0 }
    }
}

/// Whether the protocol settings agree with each other: each minimum deposit
/// is above the amount by which deposits change, the minimum validator count
/// is below the maximum, the percents are below 100 and the allowed count of
/// unprofitable eras is below 10.
pub open spec fn protocol_settings_consistent(p: ProtocolSettings) -> bool {
    &&& p.minimum_validator_deposit_changing_amount < p.minimum_validator_deposit
    &&& p.minimum_delegator_deposit_changing_amount < p.minimum_delegator_deposit
    &&& p.minimum_validator_count < p.maximum_validator_count
    &&& p.maximum_validator_stake_percent < 100
    &&& p.validator_commission_percent < 100
    &&& p.maximum_allowed_unprofitable_era_count < 10
}

/// A change of one protocol setting to a new value.
#[derive(Clone, Copy, Debug, PartialEq, Eq)]
pub enum ProtocolSettingsChange {
    MinimumValidatorDeposit(u128),
    MinimumValidatorDepositChangingAmount(u128),
    MaximumValidatorStakePercent(u16),
    MinimumDelegatorDeposit(u128),
    MinimumDelegatorDepositChangingAmount(u128),
    MinimumTotalStakePriceForBooting(u128),
    MaximumMarketValuePercentOfNearFungibleTokens(u16),
    MaximumMarketValuePercentOfWrappedAppchainToken(u16),
    MinimumValidatorCount(u64),
    MaximumValidatorCount(u64),
    MaximumValidatorsPerDelegator(u64),
    UnlockPeriodOfValidatorDeposit(u64),
    UnlockPeriodOfDelegatorDeposit(u64),
    MaximumEraCountOfUnwithdrawnReward(u64),
    MaximumEraCountOfValidAppchainMessage(u64),
    ValidatorCommissionPercent(u16),
    MaximumAllowedUnprofitableEraCount(u16),
}

/// `Ok` with the value where it differs from `current`, else the refusal.
pub open spec fn new_value<V>(value: V, current: V) -> Result<V, AnchorError> {
    if value == current {
        Err(AnchorError::ValueNotChanged)
    } else {
        Ok(value)
    }
}

/// The protocol settings `p` after `change`, or why the change is refused.
pub open spec fn changed_protocol_settings(p: ProtocolSettings, change: ProtocolSettingsChange) -> Result<ProtocolSettings, AnchorError> {
    match change {
        ProtocolSettingsChange::MinimumValidatorDeposit(v) => if v == p.minimum_validator_deposit {
            Err(AnchorError::ValueNotChanged)
        } else if v <= p.minimum_validator_deposit_changing_amount {
            Err(AnchorError::ValueNotGreaterThanChangingAmount)
        } else {
            Ok(ProtocolSettings { minimum_validator_deposit: v, ..p })
        },
        ProtocolSettingsChange::MinimumValidatorDepositChangingAmount(v) => if v
            == p.minimum_validator_deposit_changing_amount {
            Err(AnchorError::ValueNotChanged)
        } else if v >= p.minimum_validator_deposit {
            Err(AnchorError::ValueNotLessThanMinimumDeposit)
        } else {
            Ok(ProtocolSettings { minimum_validator_deposit_changing_amount: v, ..p })
        },
        ProtocolSettingsChange::MaximumValidatorStakePercent(v) => if v >= 100 {
            Err(AnchorError::InvalidPercentValue)
        } else if v == p.maximum_validator_stake_percent {
            Err(AnchorError::ValueNotChanged)
        } else {
            Ok(ProtocolSettings { maximum_validator_stake_percent: v, ..p })
        },
        ProtocolSettingsChange::MinimumDelegatorDeposit(v) => if v == p.minimum_delegator_deposit {
            Err(AnchorError::ValueNotChanged)
        } else if v <= p.minimum_delegator_deposit_changing_amount {
            Err(AnchorError::ValueNotGreaterThanChangingAmount)
        } else {
            Ok(ProtocolSettings { minimum_delegator_deposit: v, ..p })
        },
        ProtocolSettingsChange::MinimumDelegatorDepositChangingAmount(v) => if v
            == p.minimum_delegator_deposit_changing_amount {
            Err(AnchorError::ValueNotChanged)
        } else if v >= p.minimum_delegator_deposit {
            Err(AnchorError::ValueNotLessThanMinimumDeposit)
        } else {
            Ok(ProtocolSettings { minimum_delegator_deposit_changing_amount: v, ..p })
        },
        ProtocolSettingsChange::MinimumTotalStakePriceForBooting(v) => match new_value(
            v,
            p.minimum_total_stake_price_for_booting,
        ) {
            Ok(v) => Ok(ProtocolSettings { minimum_total_stake_price_for_booting: v, ..p }),
            Err(e) => Err(e),
        },
        ProtocolSettingsChange::MaximumMarketValuePercentOfNearFungibleTokens(v) => match new_value(
            v,
            p.maximum_market_value_percent_of_near_fungible_tokens,
        ) {
            Ok(v) => Ok(ProtocolSettings { maximum_market_value_percent_of_near_fungible_tokens: v, ..p }),
            Err(e) => Err(e),
        },
        ProtocolSettingsChange::MaximumMarketValuePercentOfWrappedAppchainToken(v) => match new_value(
            v,
            p.maximum_market_value_percent_of_wrapped_appchain_token,
        ) {
            Ok(v) => Ok(ProtocolSettings { maximum_market_value_percent_of_wrapped_appchain_token: v, ..p }),
            Err(e) => Err(e),
        },
        ProtocolSettingsChange::MinimumValidatorCount(v) => if v == p.minimum_validator_count {
            Err(AnchorError::ValueNotChanged)
        } else if v >= p.maximum_validator_count {
            Err(AnchorError::ValueNotLessThanMaximumValidatorCount)
        } else {
            Ok(ProtocolSettings { minimum_validator_count: v, ..p })
        },
        ProtocolSettingsChange::MaximumValidatorCount(v) => if v == p.maximum_validator_count {
            Err(AnchorError::ValueNotChanged)
        } else if v <= p.minimum_validator_count {
            Err(AnchorError::ValueNotGreaterThanMinimumValidatorCount)
        } else {
            Ok(ProtocolSettings { maximum_validator_count: v, ..p })
        },
        ProtocolSettingsChange::MaximumValidatorsPerDelegator(v) => match new_value(
            v,
            p.maximum_validators_per_delegator,
        ) {
            Ok(v) => Ok(ProtocolSettings { maximum_validators_per_delegator: v, ..p }),
            Err(e) => Err(e),
        },
        ProtocolSettingsChange::UnlockPeriodOfValidatorDeposit(v) => match new_value(
            v,
            p.unlock_period_of_validator_deposit,
        ) {
            Ok(v) => Ok(ProtocolSettings { unlock_period_of_validator_deposit: v, ..p }),
            Err(e) => Err(e),
        },
        ProtocolSettingsChange::UnlockPeriodOfDelegatorDeposit(v) => match new_value(
            v,
            p.unlock_period_of_delegator_deposit,
        ) {
            Ok(v) => Ok(ProtocolSettings { unlock_period_of_delegator_deposit: v, ..p }),
            Err(e) => Err(e),
        },
        ProtocolSettingsChange::MaximumEraCountOfUnwithdrawnReward(v) => match new_value(
            v,
            p.maximum_era_count_of_unwithdrawn_reward,
        ) {
            Ok(v) => Ok(ProtocolSettings { maximum_era_count_of_unwithdrawn_reward: v, ..p }),
            Err(e) => Err(e),
        },
        ProtocolSettingsChange::MaximumEraCountOfValidAppchainMessage(v) => match new_value(
            v,
            p.maximum_era_count_of_valid_appchain_message,
        ) {
            Ok(v) => Ok(ProtocolSettings { maximum_era_count_of_valid_appchain_message: v, ..p }),
            Err(e) => Err(e),
        },
        ProtocolSettingsChange::ValidatorCommissionPercent(v) => if v >= 100 {
            Err(AnchorError::InvalidPercentValue)
        } else if v == p.validator_commission_percent {
            Err(AnchorError::ValueNotChanged)
        } else {
            Ok(ProtocolSettings { validator_commission_percent: v, ..p })
        },
        ProtocolSettingsChange::MaximumAllowedUnprofitableEraCount(v) => if v >= 10 {
            Err(AnchorError::InvalidUnprofitableEraCount)
        } else if v == p.maximum_allowed_unprofitable_era_count {
            Err(AnchorError::ValueNotChanged)
        } else {
            Ok(ProtocolSettings { maximum_allowed_unprofitable_era_count: v, ..p })
        },
    }
}

/// The default protocol settings agree with each other.
pub proof fn lemma_default_protocol_settings_consistent()
    ensures
        protocol_settings_consistent(default_protocol_settings()),
{
}

/// A change of the protocol settings that is not refused keeps them agreeing
/// with each other.
pub proof fn lemma_protocol_settings_change_keeps_consistency(p: ProtocolSettings, change: ProtocolSettingsChange)
    requires
        protocol_settings_consistent(p),
        changed_protocol_settings(p, change) is Ok,
    ensures
        protocol_settings_consistent(changed_protocol_settings(p, change)->Ok_0),
{
}

/// A holder of settings with an owner, who alone may change them.
pub trait Owned: Sized {
    /// The account of the owner.
    spec fn owner_account(self) -> Seq<char>;
}

/// Whether a request of `caller` to turn `before` into `outcome` gave `res`
/// and left `after`: the owner alone is served, and a refused request
/// changes nothing.
pub open spec fn owner_gated<T>(
    owner: Seq<char>,
    caller: Seq<char>,
    before: T,
    after: T,
    res: Result<(), AnchorError>,
    outcome: Result<T, AnchorError>,
) -> bool {
    if caller != owner {
        res == Err::<(), AnchorError>(AnchorError::NotAuthorized) && after == before
    } else {
        match outcome {
            Ok(t) => res == Ok::<(), AnchorError>(()) && after == t,
            Err(e) => res == Err::<(), AnchorError>(e) && after == before,
        }
    }
}

/// The owner's changes of the protocol settings.
pub trait ProtocolSettingsManager: Owned {
    /// The protocol settings held.
    spec fn protocol_settings_held(self) -> ProtocolSettings;

    /// The holder with `settings` in place of its protocol settings.
    spec fn with_protocol_settings(self, settings: ProtocolSettings) -> Self;

    fn change_minimum_validator_deposit(&mut self, caller: &AccountId, value: u128) -> (res: Result<(), AnchorError>)
        ensures
            owner_gated(
                old(self).owner_account(),
                caller@,
                *old(self),
                *final(self),
                res,
                match changed_protocol_settings(old(self).protocol_settings_held(), ProtocolSettingsChange::MinimumValidatorDeposit(value)) {
                    Ok(p) => Ok(old(self).with_protocol_settings(p)),
                    Err(e) => Err(e),
                },
            ),
    ;

    fn change_minimum_validator_deposit_changing_amount(&mut self, caller: &AccountId, value: u128) -> (res: Result<(), AnchorError>)
        ensures
            owner_gated(
                old(self).owner_account(),
                caller@,
                *old(self),
                *final(self),
                res,
                match changed_protocol_settings(old(self).protocol_settings_held(), ProtocolSettingsChange::MinimumValidatorDepositChangingAmount(value)) {
                    Ok(p) => Ok(old(self).with_protocol_settings(p)),
                    Err(e) => Err(e),
                },
            ),
    ;

    fn change_maximum_validator_stake_percent(&mut self, caller: &AccountId, value: u16) -> (res: Result<(), AnchorError>)
        ensures
            owner_gated(
                old(self).owner_account(),
                caller@,
                *old(self),
                *final(self),
                res,
                match changed_protocol_settings(old(self).protocol_settings_held(), ProtocolSettingsChange::MaximumValidatorStakePercent(value)) {
                    Ok(p) => Ok(old(self).with_protocol_settings(p)),
                    Err(e) => Err(e),
                },
            ),
    ;

    fn change_minimum_delegator_deposit(&mut self, caller: &AccountId, value: u128) -> (res: Result<(), AnchorError>)
        ensures
            owner_gated(
                old(self).owner_account(),
                caller@,
                *old(self),
                *final(self),
                res,
                match changed_protocol_settings(old(self).protocol_settings_held(), ProtocolSettingsChange::MinimumDelegatorDeposit(value)) {
                    Ok(p) => Ok(old(self).with_protocol_settings(p)),
                    Err(e) => Err(e),
                },
            ),
    ;

    fn change_minimum_delegator_deposit_changing_amount(&mut self, caller: &AccountId, value: u128) -> (res: Result<(), AnchorError>)
        ensures
            owner_gated(
                old(self).owner_account(),
                caller@,
                *old(self),
                *final(self),
                res,
                match changed_protocol_settings(old(self).protocol_settings_held(), ProtocolSettingsChange::MinimumDelegatorDepositChangingAmount(value)) {
                    Ok(p) => Ok(old(self).with_protocol_settings(p)),
                    Err(e) => Err(e),
                },
            ),
    ;

    fn change_minimum_total_stake_price_for_booting(&mut self, caller: &AccountId, value: u128) -> (res: Result<(), AnchorError>)
        ensures
            owner_gated(
                old(self).owner_account(),
                caller@,
                *old(self),
                *final(self),
                res,
                match changed_protocol_settings(old(self).protocol_settings_held(), ProtocolSettingsChange::MinimumTotalStakePriceForBooting(value)) {
                    Ok(p) => Ok(old(self).with_protocol_settings(p)),
                    Err(e) => Err(e),
                },
            ),
    ;

    fn change_maximum_market_value_percent_of_near_fungible_tokens(&mut self, caller: &AccountId, value: u16) -> (res: Result<(), AnchorError>)
        ensures
            owner_gated(
                old(self).owner_account(),
                caller@,
                *old(self),
                *final(self),
                res,
                match changed_protocol_settings(old(self).protocol_settings_held(), ProtocolSettingsChange::MaximumMarketValuePercentOfNearFungibleTokens(value)) {
                    Ok(p) => Ok(old(self).with_protocol_settings(p)),
                    Err(e) => Err(e),
                },
            ),
    ;

    fn change_maximum_market_value_percent_of_wrapped_appchain_token(&mut self, caller: &AccountId, value: u16) -> (res: Result<(), AnchorError>)
        ensures
            owner_gated(
                old(self).owner_account(),
                caller@,
                *old(self),
                *final(self),
                res,
                match changed_protocol_settings(old(self).protocol_settings_held(), ProtocolSettingsChange::MaximumMarketValuePercentOfWrappedAppchainToken(value)) {
                    Ok(p) => Ok(old(self).with_protocol_settings(p)),
                    Err(e) => Err(e),
                },
            ),
    ;

    fn change_minimum_validator_count(&mut self, caller: &AccountId, value: u64) -> (res: Result<(), AnchorError>)
        ensures
            owner_gated(
                old(self).owner_account(),
                caller@,
                *old(self),
                *final(self),
                res,
                match changed_protocol_settings(old(self).protocol_settings_held(), ProtocolSettingsChange::MinimumValidatorCount(value)) {
                    Ok(p) => Ok(old(self).with_protocol_settings(p)),
                    Err(e) => Err(e),
                },
            ),
    ;

    fn change_maximum_validator_count(&mut self, caller: &AccountId, value: u64) -> (res: Result<(), AnchorError>)
        ensures
            owner_gated(
                old(self).owner_account(),
                caller@,
                *old(self),
                *final(self),
                res,
                match changed_protocol_settings(old(self).protocol_settings_held(), ProtocolSettingsChange::MaximumValidatorCount(value)) {
                    Ok(p) => Ok(old(self).with_protocol_settings(p)),
                    Err(e) => Err(e),
                },
            ),
    ;

    fn change_maximum_validators_per_delegator(&mut self, caller: &AccountId, value: u64) -> (res: Result<(), AnchorError>)
        ensures
            owner_gated(
                old(self).owner_account(),
                caller@,
                *old(self),
                *final(self),
                res,
                match changed_protocol_settings(old(self).protocol_settings_held(), ProtocolSettingsChange::MaximumValidatorsPerDelegator(value)) {
                    Ok(p) => Ok(old(self).with_protocol_settings(p)),
                    Err(e) => Err(e),
                },
            ),
    ;

    fn change_unlock_period_of_validator_deposit(&mut self, caller: &AccountId, value: u64) -> (res: Result<(), AnchorError>)
        ensures
            owner_gated(
                old(self).owner_account(),
                caller@,
                *old(self),
                *final(self),
                res,
                match changed_protocol_settings(old(self).protocol_settings_held(), ProtocolSettingsChange::UnlockPeriodOfValidatorDeposit(value)) {
                    Ok(p) => Ok(old(self).with_protocol_settings(p)),
                    Err(e) => Err(e),
                },
            ),
    ;

    fn change_unlock_period_of_delegator_deposit(&mut self, caller: &AccountId, value: u64) -> (res: Result<(), AnchorError>)
        ensures
            owner_gated(
                old(self).owner_account(),
                caller@,
                *old(self),
                *final(self),
                res,
                match changed_protocol_settings(old(self).protocol_settings_held(), ProtocolSettingsChange::UnlockPeriodOfDelegatorDeposit(value)) {
                    Ok(p) => Ok(old(self).with_protocol_settings(p)),
                    Err(e) => Err(e),
                },
            ),
    ;

    fn change_maximum_era_count_of_unwithdrawn_reward(&mut self, caller: &AccountId, value: u64) -> (res: Result<(), AnchorError>)
        ensures
            owner_gated(
                old(self).owner_account(),
                caller@,
                *old(self),
                *final(self),
                res,
                match changed_protocol_settings(old(self).protocol_settings_held(), ProtocolSettingsChange::MaximumEraCountOfUnwithdrawnReward(value)) {
                    Ok(p) => Ok(old(self).with_protocol_settings(p)),
                    Err(e) => Err(e),
                },
            ),
    ;

    fn change_maximum_era_count_of_valid_appchain_message(&mut self, caller: &AccountId, value: u64) -> (res: Result<(), AnchorError>)
        ensures
            owner_gated(
                old(self).owner_account(),
                caller@,
                *old(self),
                *final(self),
                res,
                match changed_protocol_settings(old(self).protocol_settings_held(), ProtocolSettingsChange::MaximumEraCountOfValidAppchainMessage(value)) {
                    Ok(p) => Ok(old(self).with_protocol_settings(p)),
                    Err(e) => Err(e),
                },
            ),
    ;

    fn change_validator_commission_percent(&mut self, caller: &AccountId, value: u16) -> (res: Result<(), AnchorError>)
        ensures
            owner_gated(
                old(self).owner_account(),
                caller@,
                *old(self),
                *final(self),
                res,
                match changed_protocol_settings(old(self).protocol_settings_held(), ProtocolSettingsChange::ValidatorCommissionPercent(value)) {
                    Ok(p) => Ok(old(self).with_protocol_settings(p)),
                    Err(e) => Err(e),
                },
            ),
    ;

    fn change_maximum_allowed_unprofitable_era_count(&mut self, caller: &AccountId, value: u16) -> (res: Result<(), AnchorError>)
        ensures
            owner_gated(
                old(self).owner_account(),
                caller@,
                *old(self),
                *final(self),
                res,
                match changed_protocol_settings(old(self).protocol_settings_held(), ProtocolSettingsChange::MaximumAllowedUnprofitableEraCount(value)) {
                    Ok(p) => Ok(old(self).with_protocol_settings(p)),
                    Err(e) => Err(e),
                },
            ),
    ;
}

/// The owner's changes of the settings of the appchain.
pub trait AppchainSettingsManager: Owned {
    /// The settings of the appchain held.
    spec fn appchain_settings_held(self) -> AppchainSettings;

    /// The holder with `settings` in place of the settings of the appchain.
    spec fn with_appchain_settings(self, settings: AppchainSettings) -> Self;

    fn set_rpc_endpoint(&mut self, caller: &AccountId, rpc_endpoint: String) -> (res: Result<(), AnchorError>)
        ensures
            owner_gated(
                old(self).owner_account(),
                caller@,
                *old(self),
                *final(self),
                res,
                Ok(old(self).with_appchain_settings(AppchainSettings { rpc_endpoint, ..old(self).appchain_settings_held() })),
            ),
    ;

    fn set_subql_endpoint(&mut self, caller: &AccountId, subql_endpoint: String) -> (res: Result<(), AnchorError>)
        ensures
            owner_gated(
                old(self).owner_account(),
                caller@,
                *old(self),
                *final(self),
                res,
                Ok(old(self).with_appchain_settings(AppchainSettings { subql_endpoint, ..old(self).appchain_settings_held() })),
            ),
    ;

    fn set_era_reward(&mut self, caller: &AccountId, era_reward: u128) -> (res: Result<(), AnchorError>)
        ensures
            owner_gated(
                old(self).owner_account(),
                caller@,
                *old(self),
                *final(self),
                res,
                Ok(old(self).with_appchain_settings(AppchainSettings { era_reward, ..old(self).appchain_settings_held() })),
            ),
    ;

    fn set_bonus_for_new_validator(&mut self, caller: &AccountId, bonus_amount: u128) -> (res: Result<(), AnchorError>)
        ensures
            owner_gated(
                old(self).owner_account(),
                caller@,
                *old(self),
                *final(self),
                res,
                Ok(old(self).with_appchain_settings(
                    AppchainSettings { bonus_for_new_validator: bonus_amount, ..old(self).appchain_settings_held() },
                )),
            ),
    ;
}

/// The owner's changes of the settings of the anchor.
pub trait AnchorSettingsManager: Owned {
    /// The settings of the anchor held.
    spec fn anchor_settings_held(self) -> AnchorSettings;

    /// The holder with `settings` in place of the settings of the anchor.
    spec fn with_anchor_settings(self, settings: AnchorSettings) -> Self;

    /// Refused where `account_id` is the owner.
    fn set_token_price_maintainer_account(&mut self, caller: &AccountId, account_id: AccountId) -> (res: Result<(), AnchorError>)
        ensures
            owner_gated(
                old(self).owner_account(),
                caller@,
                *old(self),
                *final(self),
                res,
                if account_id@ == old(self).owner_account() {
                    Err(AnchorError::AccountIsOwner)
                } else {
                    Ok(old(self).with_anchor_settings(
                        AnchorSettings { token_price_maintainer_account: Some(account_id), ..old(self).anchor_settings_held() },
                    ))
                },
            ),
    ;

    /// Refused where `account_id` is the owner.
    fn set_relayer_account(&mut self, caller: &AccountId, account_id: AccountId) -> (res: Result<(), AnchorError>)
        ensures
            owner_gated(
                old(self).owner_account(),
                caller@,
                *old(self),
                *final(self),
                res,
                if account_id@ == old(self).owner_account() {
                    Err(AnchorError::AccountIsOwner)
                } else {
                    Ok(old(self).with_anchor_settings(
                        AnchorSettings { relayer_account: Some(account_id), ..old(self).anchor_settings_held() },
                    ))
                },
            ),
    ;

    /// Refused where the witness mode is on.
    fn turn_on_beefy_light_client_witness_mode(&mut self, caller: &AccountId) -> (res: Result<(), AnchorError>)
        ensures
            owner_gated(
                old(self).owner_account(),
                caller@,
                *old(self),
                *final(self),
                res,
                if old(self).anchor_settings_held().beefy_light_client_witness_mode {
                    Err(AnchorError::WitnessModeAlreadyOn)
                } else {
                    Ok(old(self).with_anchor_settings(
                        AnchorSettings { beefy_light_client_witness_mode: true, ..old(self).anchor_settings_held() },
                    ))
                },
            ),
    ;

    /// Refused where the witness mode is off.
    fn turn_off_beefy_light_client_witness_mode(&mut self, caller: &AccountId) -> (res: Result<(), AnchorError>)
        ensures
            owner_gated(
                old(self).owner_account(),
                caller@,
                *old(self),
                *final(self),
                res,
                if !old(self).anchor_settings_held().beefy_light_client_witness_mode {
                    Err(AnchorError::WitnessModeAlreadyOff)
                } else {
                    Ok(old(self).with_anchor_settings(
                        AnchorSettings { beefy_light_client_witness_mode: false, ..old(self).anchor_settings_held() },
                    ))
                },
            ),
    ;

    /// Sets the number of eras of validator sets that the removal of the
    /// oldest set must leave. Refused where the value is the one set.
    fn set_min_length_of_validator_set_history(&mut self, caller: &AccountId, min_length: u64) -> (res: Result<(), AnchorError>)
        ensures
            owner_gated(
                old(self).owner_account(),
                caller@,
                *old(self),
                *final(self),
                res,
                if old(self).anchor_settings_held().min_length_of_validator_set_history == min_length {
                    Err(AnchorError::ValueNotChanged)
                } else {
                    Ok(old(self).with_anchor_settings(
                        AnchorSettings { min_length_of_validator_set_history: min_length, ..old(self).anchor_settings_held() },
                    ))
                },
            ),
    ;
}

/// Applies `change` to `settings`, or says why it is refused.
pub fn apply_protocol_settings_change(settings: &ProtocolSettings, change: ProtocolSettingsChange) -> (res: Result<ProtocolSettings, AnchorError>)
    ensures
        res == changed_protocol_settings(*settings, change),
{
    let p = *settings;
    match change {
        ProtocolSettingsChange::MinimumValidatorDeposit(v) => if v == p.minimum_validator_deposit {
            Err(AnchorError::ValueNotChanged)
        } else if v <= p.minimum_validator_deposit_changing_amount {
            Err(AnchorError::ValueNotGreaterThanChangingAmount)
        } else {
            Ok(ProtocolSettings { minimum_validator_deposit: v, ..p })
        },
        ProtocolSettingsChange::MinimumValidatorDepositChangingAmount(v) => if v
            == p.minimum_validator_deposit_changing_amount {
            Err(AnchorError::ValueNotChanged)
        } else if v >= p.minimum_validator_deposit {
            Err(AnchorError::ValueNotLessThanMinimumDeposit)
        } else {
            Ok(ProtocolSettings { minimum_validator_deposit_changing_amount: v, ..p })
        },
        ProtocolSettingsChange::MaximumValidatorStakePercent(v) => if v >= 100 {
            Err(AnchorError::InvalidPercentValue)
        } else if v == p.maximum_validator_stake_percent {
            Err(AnchorError::ValueNotChanged)
        } else {
            Ok(ProtocolSettings { maximum_validator_stake_percent: v, ..p })
        },
        ProtocolSettingsChange::MinimumDelegatorDeposit(v) => if v == p.minimum_delegator_deposit {
            Err(AnchorError::ValueNotChanged)
        } else if v <= p.minimum_delegator_deposit_changing_amount {
            Err(AnchorError::ValueNotGreaterThanChangingAmount)
        } else {
            Ok(ProtocolSettings { minimum_delegator_deposit: v, ..p })
        },
        ProtocolSettingsChange::MinimumDelegatorDepositChangingAmount(v) => if v
            == p.minimum_delegator_deposit_changing_amount {
            Err(AnchorError::ValueNotChanged)
        } else if v >= p.minimum_delegator_deposit {
            Err(AnchorError::ValueNotLessThanMinimumDeposit)
        } else {
            Ok(ProtocolSettings { minimum_delegator_deposit_changing_amount: v, ..p })
        },
        ProtocolSettingsChange::MinimumTotalStakePriceForBooting(v) => if v == p.minimum_total_stake_price_for_booting {
            Err(AnchorError::ValueNotChanged)
        } else {
            Ok(ProtocolSettings { minimum_total_stake_price_for_booting: v, ..p })
        },
        ProtocolSettingsChange::MaximumMarketValuePercentOfNearFungibleTokens(v) => if v
            == p.maximum_market_value_percent_of_near_fungible_tokens {
            Err(AnchorError::ValueNotChanged)
        } else {
            Ok(ProtocolSettings { maximum_market_value_percent_of_near_fungible_tokens: v, ..p })
        },
        ProtocolSettingsChange::MaximumMarketValuePercentOfWrappedAppchainToken(v) => if v
            == p.maximum_market_value_percent_of_wrapped_appchain_token {
            Err(AnchorError::ValueNotChanged)
        } else {
            Ok(ProtocolSettings { maximum_market_value_percent_of_wrapped_appchain_token: v, ..p })
        },
        ProtocolSettingsChange::MinimumValidatorCount(v) => if v == p.minimum_validator_count {
            Err(AnchorError::ValueNotChanged)
        } else if v >= p.maximum_validator_count {
            Err(AnchorError::ValueNotLessThanMaximumValidatorCount)
        } else {
            Ok(ProtocolSettings { minimum_validator_count: v, ..p })
        },
        ProtocolSettingsChange::MaximumValidatorCount(v) => if v == p.maximum_validator_count {
            Err(AnchorError::ValueNotChanged)
        } else if v <= p.minimum_validator_count {
            Err(AnchorError::ValueNotGreaterThanMinimumValidatorCount)
        } else {
            Ok(ProtocolSettings { maximum_validator_count: v, ..p })
        },
        ProtocolSettingsChange::MaximumValidatorsPerDelegator(v) => if v == p.maximum_validators_per_delegator {
            Err(AnchorError::ValueNotChanged)
        } else {
            Ok(ProtocolSettings { maximum_validators_per_delegator: v, ..p })
        },
        ProtocolSettingsChange::UnlockPeriodOfValidatorDeposit(v) => if v == p.unlock_period_of_validator_deposit {
            Err(AnchorError::ValueNotChanged)
        } else {
            Ok(ProtocolSettings { unlock_period_of_validator_deposit: v, ..p })
        },
        ProtocolSettingsChange::UnlockPeriodOfDelegatorDeposit(v) => if v == p.unlock_period_of_delegator_deposit {
            Err(AnchorError::ValueNotChanged)
        } else {
            Ok(ProtocolSettings { unlock_period_of_delegator_deposit: v, ..p })
        },
        ProtocolSettingsChange::MaximumEraCountOfUnwithdrawnReward(v) => if v
            == p.maximum_era_count_of_unwithdrawn_reward {
            Err(AnchorError::ValueNotChanged)
        } else {
            Ok(ProtocolSettings { maximum_era_count_of_unwithdrawn_reward: v, ..p })
        },
        ProtocolSettingsChange::MaximumEraCountOfValidAppchainMessage(v) => if v
            == p.maximum_era_count_of_valid_appchain_message {
            Err(AnchorError::ValueNotChanged)
        } else {
            Ok(ProtocolSettings { maximum_era_count_of_valid_appchain_message: v, ..p })
        },
        ProtocolSettingsChange::ValidatorCommissionPercent(v) => if v >= 100 {
            Err(AnchorError::InvalidPercentValue)
        } else if v == p.validator_commission_percent {
            Err(AnchorError::ValueNotChanged)
        } else {
            Ok(ProtocolSettings { validator_commission_percent: v, ..p })
        },
        ProtocolSettingsChange::MaximumAllowedUnprofitableEraCount(v) => if v >= 10 {
            Err(AnchorError::InvalidUnprofitableEraCount)
        } else if v == p.maximum_allowed_unprofitable_era_count {
            Err(AnchorError::ValueNotChanged)
        } else {
            Ok(ProtocolSettings { maximum_allowed_unprofitable_era_count: v, ..p })
        },
    }
}

} // verus!
