use appchain_anchor::anchor::AppchainAnchor;
use appchain_anchor::errors::AnchorError;
use appchain_anchor::rewards::OCT_DECIMALS_VALUE;
use appchain_anchor::types::{
    AppchainNotification, AppchainState, AppchainTemplateType, MultiTxsOperationProcessingResult, StakingFact,
};
use appchain_anchor::unbonded_stakes::UnbondedStakeReference;
use appchain_anchor::fungible_tokens::{FungibleTokenMetadata, NearFungibleToken, NearFungibleTokens};
use appchain_anchor::types::BridgingState;
use appchain_anchor::withdrawals::{NANO_SECONDS_MULTIPLE, SECONDS_OF_A_DAY};

const OCT: u128 = OCT_DECIMALS_VALUE;

fn owner() -> String {
    "octopus.near".to_string()
}

fn hex_id(c: char, n: u8) -> String {
    let mut s = "0x".to_string();
    for _ in 0..63 {
        s.push(c);
    }
    s.push(char::from(b'0' + n));
    s
}

fn anchor() -> AppchainAnchor {
    let mut a = AppchainAnchor::new(
        "myappchain".to_string(),
        AppchainTemplateType::Barnacle,
        "registry.near".to_string(),
        "oct.near".to_string(),
        owner(),
    );
    for n in 0..4u8 {
        a.register_validator(format!("v{}.near", n), Some(hex_id('e', n)), Vec::new(), 10_000 * OCT, true, 1, 1).unwrap();
    }
    a
}

#[test]
fn pausing_and_resuming() {
    let mut a = anchor();
    let eve = "eve.near".to_string();
    assert_eq!(a.pause_asset_transfer(&eve), Err(AnchorError::NotAuthorized));
    assert_eq!(a.resume_asset_transfer(&owner()), Err(AnchorError::AssetTransferAlreadyResumed));
    assert_eq!(a.pause_asset_transfer(&owner()), Ok(()));
    assert!(a.asset_transfer_is_paused);
    assert_eq!(a.pause_asset_transfer(&owner()), Err(AnchorError::AssetTransferAlreadyPaused));
    assert_eq!(a.resume_asset_transfer(&owner()), Ok(()));
    assert!(!a.asset_transfer_is_paused);
    assert_eq!(a.resume_rewards_withdrawal(&owner()), Err(AnchorError::RewardsWithdrawalAlreadyResumed));
    assert_eq!(a.pause_rewards_withdrawal(&owner()), Ok(()));
    assert!(a.rewards_withdrawal_is_paused);
    assert_eq!(a.pause_rewards_withdrawal(&owner()), Err(AnchorError::RewardsWithdrawalAlreadyPaused));
    assert_eq!(a.resume_rewards_withdrawal(&eve), Err(AnchorError::NotAuthorized));
    assert_eq!(a.resume_rewards_withdrawal(&owner()), Ok(()));
}

#[test]
fn owner_and_price_maintainer() {
    let mut a = anchor();
    assert_eq!(a.set_owner(&"eve.near".to_string(), "eve.near".to_string()), Err(AnchorError::NotAuthorized));
    assert_eq!(a.set_owner(&owner(), owner()), Err(AnchorError::ValueNotChanged));
    assert_eq!(a.set_price_of_oct_token(&"p.near".to_string(), 5), Err(AnchorError::NotAuthorized));
    a.anchor_settings.token_price_maintainer_account = Some("p.near".to_string());
    assert_eq!(a.set_price_of_oct_token(&"q.near".to_string(), 5), Err(AnchorError::NotAuthorized));
    assert_eq!(a.set_price_of_oct_token(&"p.near".to_string(), 5), Ok(()));
    assert_eq!(a.oct_token.price_in_usd, 5);
    assert_eq!(a.assert_relayer(&"r.near".to_string()), Err(AnchorError::NotAuthorized));
    a.anchor_settings.relayer_account = Some("r.near".to_string());
    assert_eq!(a.assert_relayer(&"r.near".to_string()), Ok(()));
    assert_eq!(a.set_owner(&owner(), "new.near".to_string()), Ok(()));
    assert_eq!(a.owner, "new.near".to_string());
    assert_eq!(a.set_latest_applied_appchain_message_nonce(&owner(), 3), Err(AnchorError::NotAuthorized));
    assert_eq!(a.set_latest_applied_appchain_message_nonce(&"new.near".to_string(), 3), Ok(()));
    assert_eq!(a.permissionless_actions_status.latest_applied_appchain_message_nonce, 3);
}

#[test]
fn validator_changes_its_id_and_profile() {
    let mut a = anchor();
    let v0 = "v0.near".to_string();
    let mut upper = String::new();
    for _ in 0..64 {
        upper.push('F');
    }
    assert_eq!(a.set_validator_id_in_appchain(&v0, &upper, 5, 50), Ok(()));
    let mut lower = "0x".to_string();
    for _ in 0..64 {
        lower.push('f');
    }
    assert_eq!(a.validator_profiles.get(&v0).unwrap().validator_id_in_appchain, lower);
    assert!(a.validator_profiles.get_by_id_in_appchain(&hex_id('e', 0)).is_none());
    let last = a.staking_histories.index_range().end_index;
    assert_eq!(
        a.staking_histories.get(&last).unwrap().staking_fact,
        StakingFact::ValidatorIdInAppchainChanged { validator_id: v0.clone(), validator_id_in_appchain: upper.clone() }
    );
    assert_eq!(
        a.set_validator_id_in_appchain(&v0, &"0x12".to_string(), 5, 50),
        Err(AnchorError::InvalidValidatorIdInAppchain("0x12".to_string()))
    );
    assert_eq!(
        a.set_validator_id_in_appchain(&"x.near".to_string(), &upper, 5, 50),
        Err(AnchorError::InvalidValidatorId("x.near".to_string()))
    );
    assert_eq!(
        a.change_account_id_in_appchain_of_validator(&"eve.near".to_string(), &v0, &upper, 5, 50),
        Err(AnchorError::NotAuthorized)
    );
    assert_eq!(a.change_account_id_in_appchain_of_validator(&owner(), &v0, &hex_id('a', 1), 6, 60), Ok(()));
    assert_eq!(a.validator_profiles.get(&v0).unwrap().validator_id_in_appchain, hex_id('a', 1));
    let profile = vec![("website".to_string(), "https://v0".to_string())];
    assert_eq!(a.set_validator_profile(&v0, profile.clone()), Ok(()));
    assert_eq!(a.validator_profiles.get(&v0).unwrap().profile, profile);
    assert_eq!(a.validator_profiles.get(&v0).unwrap().validator_id_in_appchain, hex_id('a', 1));
    assert_eq!(
        a.set_validator_profile(&"x.near".to_string(), Vec::new()),
        Err(AnchorError::InvalidValidatorId("x.near".to_string()))
    );
}

#[test]
fn unlocking_stake_unbonded_by_the_anchor() {
    let mut a = anchor();
    let v1 = "v1.near".to_string();
    let first = a.record_staking_fact(StakingFact::StakeDecreased { validator_id: v1.clone(), amount: 1 }, 2, 2);
    let auto = a.record_staking_fact(StakingFact::ValidatorAutoUnbonded { validator_id: v1.clone(), amount: 77 }, 2, 2);
    a.unbonded_stakes.add(&v1, UnbondedStakeReference { era_number: 0, staking_history_index: first });
    a.unbonded_stakes.add(&v1, UnbondedStakeReference { era_number: 0, staking_history_index: auto });
    assert_eq!(
        a.unlock_auto_unbonded_stake_of(&"eve.near".to_string(), None, v1.clone(), auto),
        Err(AnchorError::NotAuthorized)
    );
    assert_eq!(
        a.unlock_auto_unbonded_stake_of(&owner(), None, v1.clone(), first),
        Err(AnchorError::StakingHistoryNotFound)
    );
    assert_eq!(
        a.unlock_auto_unbonded_stake_of(&owner(), None, "v2.near".to_string(), auto),
        Err(AnchorError::StakingHistoryNotFound)
    );
    assert_eq!(
        a.unlock_auto_unbonded_stake_of(&owner(), Some(v1.clone()), "v2.near".to_string(), auto),
        Err(AnchorError::InvalidStakingHistory)
    );
    a.asset_transfer_is_paused = true;
    assert_eq!(a.unlock_auto_unbonded_stake_of(&owner(), None, v1.clone(), auto), Err(AnchorError::AssetTransferPaused));
    a.asset_transfer_is_paused = false;
    assert_eq!(a.unlock_auto_unbonded_stake_of(&owner(), None, v1.clone(), auto), Ok((v1.clone(), 77)));
    assert_eq!(
        a.unbonded_stakes.get_stakes_of(&v1),
        vec![UnbondedStakeReference { era_number: 0, staking_history_index: first }]
    );
}

#[test]
fn unbonded_stakes_are_listed_with_unlock_time() {
    let mut a = anchor();
    a.internal_start_switching_era(0, 1, 1, 1_000);
    while a.try_complete_switching_era(1, 1_000) != MultiTxsOperationProcessingResult::Finished {}
    a.appchain_state = AppchainState::Active;
    a.oct_token.price_in_usd = 1;
    a.protocol_settings.minimum_total_stake_price_for_booting = 1;
    a.decrease_stake("v2.near".to_string(), 5_000 * OCT, 2, 2).unwrap();
    a.internal_start_switching_era(1, 2, 3, 3_000);
    while a.try_complete_switching_era(3, 3_000) != MultiTxsOperationProcessingResult::Finished {}
    let stakes = a.get_unbonded_stakes_of(&"v2.near".to_string());
    assert_eq!(stakes.len(), 1);
    assert_eq!(stakes[0].era_number, 1);
    assert_eq!(stakes[0].account_id, "v2.near".to_string());
    assert_eq!(stakes[0].amount, 5_000 * OCT);
    assert_eq!(stakes[0].unlock_time, 3_000 + 21 * SECONDS_OF_A_DAY * NANO_SECONDS_MULTIPLE);
    assert!(a.get_unbonded_stakes_of(&"v1.near".to_string()).is_empty());
}

#[test]
fn validator_stake_limits() {
    let mut a = anchor();
    assert_eq!(a.assert_validator_stake_is_valid(4_999 * OCT, None), Err(AnchorError::DepositTooFew));
    assert_eq!(a.assert_validator_stake_is_valid(5_000 * OCT, Some(u128::MAX)), Ok(()));
    a.internal_start_switching_era(0, 1, 1, 1_000);
    while a.try_complete_switching_era(1, 1_000) != MultiTxsOperationProcessingResult::Finished {}
    a.appchain_state = AppchainState::Active;
    // 25% of the 40_000 OCT of era 0
    assert_eq!(a.assert_validator_stake_is_valid(5_000 * OCT, Some(10_000 * OCT)), Ok(()));
    assert_eq!(a.assert_validator_stake_is_valid(5_000 * OCT, Some(10_000 * OCT + 1)), Err(AnchorError::TooMuchStake));
}

#[test]
fn notifications_are_appended_with_their_index() {
    let mut a = anchor();
    let n = AppchainNotification::WrappedAppchainTokenBurnt {
        sender_id_in_near: "s.near".to_string(),
        receiver_id_in_appchain: "0xaa".to_string(),
        amount: 3,
    };
    let h0 = a.internal_append_appchain_notification(n.clone(), 10, 100);
    assert_eq!(h0.index, 0);
    assert_eq!(h0.appchain_notification, n);
    let h1 = a.internal_append_appchain_notification(n.clone(), 11, 110);
    assert_eq!(h1.index, 1);
    assert_eq!(h1.block_height, 11);
    assert_eq!(a.appchain_notification_histories.get(&1), Some(&h1));
    assert_eq!(a.get_anchor_status().index_range_of_appchain_notification_history.end_index, 1);
}

#[test]
fn near_fungible_tokens_registry() {
    let mut a = anchor();
    let usdt = "USDT".to_string();
    let eve = "eve.near".to_string();
    assert_eq!(
        a.register_near_fungible_token(&eve, usdt.clone(), "Tether".to_string(), 6, "usdt.near".to_string(), 1),
        Err(AnchorError::NotAuthorized)
    );
    assert_eq!(
        a.register_near_fungible_token(&owner(), usdt.clone(), "Tether".to_string(), 6, "usdt.near".to_string(), 1),
        Ok(())
    );
    assert_eq!(
        a.register_near_fungible_token(&owner(), usdt.clone(), "Again".to_string(), 6, "other.near".to_string(), 1),
        Err(AnchorError::TokenAlreadyRegistered(usdt.clone()))
    );
    assert_eq!(
        a.register_near_fungible_token(&owner(), "DAI".to_string(), "Dai".to_string(), 18, "usdt.near".to_string(), 1),
        Err(AnchorError::TokenContractAlreadyRegistered("usdt.near".to_string()))
    );
    let t = a.near_fungible_tokens.get(&usdt).unwrap();
    assert_eq!(t.metadata.spec, "ft-1.0.0".to_string());
    assert_eq!(t.metadata.decimals, 6);
    assert_eq!(t.locked_balance, 0);
    assert_eq!(t.bridging_state, BridgingState::Closed);
    assert_eq!(a.open_bridging_of_near_fungible_token(&owner(), usdt.clone()), Ok(()));
    assert_eq!(a.near_fungible_tokens.get(&usdt).unwrap().bridging_state, BridgingState::Active);
    assert_eq!(
        a.close_bridging_of_near_fungible_token(&owner(), "XYZ".to_string()),
        Err(AnchorError::TokenNotRegistered("XYZ".to_string()))
    );
    assert_eq!(a.close_bridging_of_near_fungible_token(&owner(), usdt.clone()), Ok(()));
    assert_eq!(a.near_fungible_tokens.get(&usdt).unwrap().bridging_state, BridgingState::Closed);
    a.anchor_settings.token_price_maintainer_account = Some("p.near".to_string());
    assert_eq!(a.set_price_of_near_fungible_token(&eve, usdt.clone(), 2), Err(AnchorError::NotAuthorized));
    assert_eq!(a.set_price_of_near_fungible_token(&"p.near".to_string(), usdt.clone(), 2), Ok(()));
    assert_eq!(
        a.change_near_fungible_token_metadata(&owner(), usdt.clone(), "Tether USD".to_string(), 8, "usdt2.near".to_string()),
        Ok(())
    );
    let t = a.near_fungible_tokens.get(&usdt).unwrap();
    assert_eq!(t.metadata.name, "Tether USD".to_string());
    assert_eq!(t.metadata.decimals, 8);
    assert_eq!(t.contract_account, "usdt2.near".to_string());
    assert_eq!(t.price_in_usd, 2);
    assert!(a.near_fungible_tokens.get_by_contract_account(&"usdt2.near".to_string()).is_some());
    assert!(a.near_fungible_tokens.get_by_contract_account(&"usdt.near".to_string()).is_none());
    assert_eq!(a.near_fungible_tokens.to_vec().len(), 1);
}

#[test]
fn market_values_of_tokens() {
    let token = |symbol: &str, decimals: u8, price: u128, locked: u128| NearFungibleToken {
        metadata: FungibleTokenMetadata {
            spec: "ft-1.0.0".to_string(),
            name: symbol.to_string(),
            symbol: symbol.to_string(),
            icon: None,
            reference: None,
            reference_hash: None,
            decimals,
        },
        contract_account: format!("{}.near", symbol),
        price_in_usd: price,
        locked_balance: locked,
        bridging_state: BridgingState::Active,
    };
    let mut ts = NearFungibleTokens::new();
    assert_eq!(ts.total_market_value(), 0);
    ts.insert(token("A", 2, 3, 1_050));
    ts.insert(token("B", 0, 5, 7));
    // 1_050 / 100 * 3 + 7 * 5
    assert_eq!(ts.total_market_value(), 30 + 35);
    assert_eq!(ts.get_market_value_of(&"A".to_string(), 299), 6);
    assert_eq!(ts.get_market_value_of(&"C".to_string(), 299), 0);
    ts.insert(token("A", 2, 4, 0));
    assert_eq!(ts.total_market_value(), 35);
    assert!(ts.contains(&"B".to_string()));
    ts.clear();
    assert!(!ts.contains(&"B".to_string()));
}
