use appchain_anchor::anchor::AppchainAnchor;
use appchain_anchor::errors::AnchorError;
use appchain_anchor::rewards::OCT_DECIMALS_VALUE;
use appchain_anchor::settings::{
    apply_protocol_settings_change, AnchorSettingsManager, AppchainSettingsManager, ProtocolSettingsChange,
    ProtocolSettingsManager, USD_DECIMALS_VALUE,
};
use appchain_anchor::types::{AppchainState, AppchainTemplateType, ProtocolSettings};

fn owner() -> String {
    "octopus.near".to_string()
}

fn new_anchor() -> AppchainAnchor {
    AppchainAnchor::new(
        "myappchain".to_string(),
        AppchainTemplateType::Barnacle,
        "registry.near".to_string(),
        "oct.near".to_string(),
        owner(),
    )
}

#[test]
fn default_protocol_settings_values() {
    let p = ProtocolSettings::default();
    assert_eq!(p.minimum_validator_deposit, 5_000 * OCT_DECIMALS_VALUE);
    assert_eq!(p.minimum_validator_deposit_changing_amount, 1_000 * OCT_DECIMALS_VALUE);
    assert_eq!(p.maximum_validator_stake_percent, 25);
    assert_eq!(p.minimum_delegator_deposit, 200 * OCT_DECIMALS_VALUE);
    assert_eq!(p.minimum_delegator_deposit_changing_amount, 100 * OCT_DECIMALS_VALUE);
    assert_eq!(p.minimum_total_stake_price_for_booting, 100_000 * USD_DECIMALS_VALUE);
    assert_eq!(p.maximum_market_value_percent_of_near_fungible_tokens, 33);
    assert_eq!(p.maximum_market_value_percent_of_wrapped_appchain_token, 67);
    assert_eq!(p.minimum_validator_count, 4);
    assert_eq!(p.maximum_validator_count, 60);
    assert_eq!(p.maximum_validators_per_delegator, 16);
    assert_eq!(p.unlock_period_of_validator_deposit, 21);
    assert_eq!(p.unlock_period_of_delegator_deposit, 21);
    assert_eq!(p.maximum_era_count_of_unwithdrawn_reward, 84);
    assert_eq!(p.maximum_era_count_of_valid_appchain_message, 7);
    assert_eq!(p.validator_commission_percent, 20);
    assert_eq!(p.maximum_allowed_unprofitable_era_count, 3);
}

#[test]
fn default_protocol_settings_are_consistent() {
    let p = ProtocolSettings::default();
    assert!(p.minimum_validator_deposit_changing_amount < p.minimum_validator_deposit);
    assert!(p.minimum_delegator_deposit_changing_amount < p.minimum_delegator_deposit);
    assert!(p.minimum_validator_count < p.maximum_validator_count);
    assert!(p.maximum_validator_stake_percent < 100);
    assert!(p.validator_commission_percent < 100);
    assert!(p.maximum_allowed_unprofitable_era_count < 10);
}

#[test]
fn new_anchor_is_staging_with_defaults() {
    let a = new_anchor();
    assert_eq!(a.appchain_state, AppchainState::Staging);
    assert_eq!(a.owner, owner());
    assert_eq!(a.appchain_id, "myappchain".to_string());
    assert_eq!(a.oct_token.contract_account, "oct.near".to_string());
    assert_eq!(a.oct_token.price_in_usd, 0);
    assert_eq!(a.protocol_settings, ProtocolSettings::default());
    assert_eq!(a.appchain_settings.era_reward, 0);
    assert!(a.anchor_settings.relayer_account.is_none());
    assert!(!a.asset_transfer_is_paused);
    assert!(!a.rewards_withdrawal_is_paused);
    let status = a.get_anchor_status();
    assert_eq!(status.total_stake_in_next_era, 0);
    assert_eq!(status.validator_count_in_next_era, 0);
    assert_eq!(status.delegator_count_in_next_era, 0);
    assert_eq!(status.index_range_of_staking_history.start_index, 0);
    assert_eq!(status.index_range_of_staking_history.end_index, 0);
}

#[test]
fn reset_contract_state_keeps_identity() {
    let mut a = new_anchor();
    a.oct_token.price_in_usd = 7;
    a.appchain_settings.era_reward = 99;
    a.wrapped_appchain_token.price_in_usd = 5;
    a.wrapped_appchain_token.premined_balance = 1_000;
    a.native_near_token.locked_balance = 3;
    let b = AppchainAnchor::reset_contract_state(a);
    assert_eq!(b.wrapped_appchain_token.price_in_usd, 5);
    assert_eq!(b.wrapped_appchain_token.premined_balance, 1_000);
    assert_eq!(b.native_near_token.locked_balance, 3);
    assert_eq!(b.appchain_state, AppchainState::Booting);
    assert_eq!(b.owner, owner());
    assert_eq!(b.oct_token.price_in_usd, 7);
    assert_eq!(b.oct_token.contract_account, "oct.near".to_string());
    assert_eq!(b.appchain_settings.era_reward, 0);
}

#[test]
fn assert_owner_refuses_others() {
    let a = new_anchor();
    assert_eq!(a.assert_owner(&owner()), Ok(()));
    assert_eq!(a.assert_owner(&"bob.near".to_string()), Err(AnchorError::NotAuthorized));
}

#[test]
fn change_minimum_validator_deposit_rules() {
    let mut a = new_anchor();
    let bob = "bob.near".to_string();
    assert_eq!(a.change_minimum_validator_deposit(&bob, 1), Err(AnchorError::NotAuthorized));
    let current = a.protocol_settings.minimum_validator_deposit;
    assert_eq!(a.change_minimum_validator_deposit(&owner(), current), Err(AnchorError::ValueNotChanged));
    assert_eq!(
        a.change_minimum_validator_deposit(&owner(), 1_000 * OCT_DECIMALS_VALUE),
        Err(AnchorError::ValueNotGreaterThanChangingAmount)
    );
    assert_eq!(a.change_minimum_validator_deposit(&owner(), 3_000 * OCT_DECIMALS_VALUE), Ok(()));
    assert_eq!(a.protocol_settings.minimum_validator_deposit, 3_000 * OCT_DECIMALS_VALUE);
}

#[test]
fn change_changing_amounts_rules() {
    let mut a = new_anchor();
    assert_eq!(
        a.change_minimum_validator_deposit_changing_amount(&owner(), 5_000 * OCT_DECIMALS_VALUE),
        Err(AnchorError::ValueNotLessThanMinimumDeposit)
    );
    assert_eq!(a.change_minimum_validator_deposit_changing_amount(&owner(), 10), Ok(()));
    assert_eq!(a.protocol_settings.minimum_validator_deposit_changing_amount, 10);
    assert_eq!(
        a.change_minimum_delegator_deposit_changing_amount(&owner(), 200 * OCT_DECIMALS_VALUE),
        Err(AnchorError::ValueNotLessThanMinimumDeposit)
    );
    assert_eq!(a.change_minimum_delegator_deposit(&owner(), 100 * OCT_DECIMALS_VALUE), Err(AnchorError::ValueNotGreaterThanChangingAmount));
    assert_eq!(a.change_minimum_delegator_deposit(&owner(), 150 * OCT_DECIMALS_VALUE), Ok(()));
}

#[test]
fn change_percent_settings_rules() {
    let mut a = new_anchor();
    assert_eq!(a.change_maximum_validator_stake_percent(&owner(), 100), Err(AnchorError::InvalidPercentValue));
    assert_eq!(a.change_maximum_validator_stake_percent(&owner(), 25), Err(AnchorError::ValueNotChanged));
    assert_eq!(a.change_maximum_validator_stake_percent(&owner(), 30), Ok(()));
    assert_eq!(a.protocol_settings.maximum_validator_stake_percent, 30);
    assert_eq!(a.change_validator_commission_percent(&owner(), 150), Err(AnchorError::InvalidPercentValue));
    assert_eq!(a.change_validator_commission_percent(&owner(), 10), Ok(()));
    assert_eq!(a.protocol_settings.validator_commission_percent, 10);
    assert_eq!(a.change_maximum_allowed_unprofitable_era_count(&owner(), 10), Err(AnchorError::InvalidUnprofitableEraCount));
    assert_eq!(a.change_maximum_allowed_unprofitable_era_count(&owner(), 5), Ok(()));
}

#[test]
fn change_validator_counts_rules() {
    let mut a = new_anchor();
    assert_eq!(a.change_minimum_validator_count(&owner(), 60), Err(AnchorError::ValueNotLessThanMaximumValidatorCount));
    assert_eq!(a.change_maximum_validator_count(&owner(), 4), Err(AnchorError::ValueNotGreaterThanMinimumValidatorCount));
    assert_eq!(a.change_minimum_validator_count(&owner(), 8), Ok(()));
    assert_eq!(a.change_maximum_validator_count(&owner(), 9), Ok(()));
    assert_eq!(a.protocol_settings.minimum_validator_count, 8);
    assert_eq!(a.protocol_settings.maximum_validator_count, 9);
}

#[test]
fn change_plain_settings() {
    let mut a = new_anchor();
    assert_eq!(a.change_unlock_period_of_validator_deposit(&owner(), 21), Err(AnchorError::ValueNotChanged));
    assert_eq!(a.change_unlock_period_of_validator_deposit(&owner(), 7), Ok(()));
    assert_eq!(a.change_unlock_period_of_delegator_deposit(&owner(), 3), Ok(()));
    assert_eq!(a.change_maximum_era_count_of_unwithdrawn_reward(&owner(), 12), Ok(()));
    assert_eq!(a.change_maximum_era_count_of_valid_appchain_message(&owner(), 2), Ok(()));
    assert_eq!(a.change_maximum_validators_per_delegator(&owner(), 4), Ok(()));
    assert_eq!(a.change_minimum_total_stake_price_for_booting(&owner(), 1), Ok(()));
    assert_eq!(a.change_maximum_market_value_percent_of_near_fungible_tokens(&owner(), 40), Ok(()));
    assert_eq!(a.change_maximum_market_value_percent_of_wrapped_appchain_token(&owner(), 50), Ok(()));
    let p = &a.protocol_settings;
    assert_eq!(p.unlock_period_of_validator_deposit, 7);
    assert_eq!(p.unlock_period_of_delegator_deposit, 3);
    assert_eq!(p.maximum_era_count_of_unwithdrawn_reward, 12);
    assert_eq!(p.maximum_era_count_of_valid_appchain_message, 2);
    assert_eq!(p.maximum_validators_per_delegator, 4);
    assert_eq!(p.minimum_total_stake_price_for_booting, 1);
    assert_eq!(p.maximum_market_value_percent_of_near_fungible_tokens, 40);
    assert_eq!(p.maximum_market_value_percent_of_wrapped_appchain_token, 50);
}

#[test]
fn refused_change_leaves_settings() {
    let mut a = new_anchor();
    let before = a.protocol_settings.clone();
    assert!(a.change_maximum_validator_stake_percent(&"eve.near".to_string(), 30).is_err());
    assert!(a.change_maximum_validator_stake_percent(&owner(), 200).is_err());
    assert_eq!(a.protocol_settings, before);
}

#[test]
fn apply_change_keeps_consistency() {
    let p = ProtocolSettings::default();
    let q = apply_protocol_settings_change(&p, ProtocolSettingsChange::MinimumValidatorCount(59)).unwrap();
    assert!(q.minimum_validator_count < q.maximum_validator_count);
    assert_eq!(
        apply_protocol_settings_change(&q, ProtocolSettingsChange::MaximumValidatorCount(59)),
        Err(AnchorError::ValueNotGreaterThanMinimumValidatorCount)
    );
}

#[test]
fn appchain_settings_setters() {
    let mut a = new_anchor();
    assert_eq!(a.set_rpc_endpoint(&"x.near".to_string(), "wss://rpc".to_string()), Err(AnchorError::NotAuthorized));
    assert_eq!(a.set_rpc_endpoint(&owner(), "wss://rpc".to_string()), Ok(()));
    assert_eq!(a.set_subql_endpoint(&owner(), "https://subql".to_string()), Ok(()));
    assert_eq!(a.set_era_reward(&owner(), 1000), Ok(()));
    assert_eq!(a.set_bonus_for_new_validator(&owner(), 5), Ok(()));
    assert_eq!(a.appchain_settings.rpc_endpoint, "wss://rpc".to_string());
    assert_eq!(a.appchain_settings.subql_endpoint, "https://subql".to_string());
    assert_eq!(a.appchain_settings.era_reward, 1000);
    assert_eq!(a.appchain_settings.bonus_for_new_validator, 5);
}

#[test]
fn anchor_settings_setters() {
    let mut a = new_anchor();
    assert_eq!(a.set_relayer_account(&owner(), owner()), Err(AnchorError::AccountIsOwner));
    assert_eq!(a.set_relayer_account(&owner(), "relayer.near".to_string()), Ok(()));
    assert_eq!(a.anchor_settings.relayer_account, Some("relayer.near".to_string()));
    assert_eq!(a.set_token_price_maintainer_account(&owner(), "price.near".to_string()), Ok(()));
    assert_eq!(a.anchor_settings.token_price_maintainer_account, Some("price.near".to_string()));
    assert_eq!(a.turn_off_beefy_light_client_witness_mode(&owner()), Err(AnchorError::WitnessModeAlreadyOff));
    assert_eq!(a.turn_on_beefy_light_client_witness_mode(&owner()), Ok(()));
    assert_eq!(a.turn_on_beefy_light_client_witness_mode(&owner()), Err(AnchorError::WitnessModeAlreadyOn));
    assert_eq!(a.turn_off_beefy_light_client_witness_mode(&owner()), Ok(()));
}
