use appchain_anchor::anchor::AppchainAnchor;
use appchain_anchor::errors::AnchorError;
use appchain_anchor::settings::AnchorSettingsManager;
use appchain_anchor::rewards::OCT_DECIMALS_VALUE;
use appchain_anchor::types::{
    AppchainMessageProcessingResult, AppchainState, AppchainTemplateType, MultiTxsOperationProcessingResult,
    ValidatorSetProcessingStatus,
};
use appchain_anchor::withdrawals::{NANO_SECONDS_MULTIPLE, SECONDS_OF_A_DAY};

const OCT: u128 = OCT_DECIMALS_VALUE;

fn id_in_appchain(n: u8) -> String {
    let mut s = "0x".to_string();
    for _ in 0..63 {
        s.push('b');
    }
    s.push(char::from(b'0' + n));
    s
}

fn name(n: u8) -> String {
    format!("v{}.near", n)
}

/// Four validators of 10_000 OCT, and `dan.near` delegating 500 OCT to the first.
fn staged_anchor() -> AppchainAnchor {
    let mut a = AppchainAnchor::new(
        "myappchain".to_string(),
        AppchainTemplateType::Barnacle,
        "registry.near".to_string(),
        "oct.near".to_string(),
        "octopus.near".to_string(),
    );
    for n in 0..4u8 {
        a.register_validator(name(n), Some(id_in_appchain(n)), Vec::new(), 10_000 * OCT, true, 1, 10).unwrap();
    }
    a.register_delegator("dan.near".to_string(), name(0), 500 * OCT, 2, 20).unwrap();
    a
}

fn switch_to(a: &mut AppchainAnchor, era: u64, nonce: u32, timestamp: u64) {
    let res = a.internal_start_switching_era(era, nonce, 100, timestamp);
    assert_eq!(res, AppchainMessageProcessingResult::Processed { nonce, message: None });
    let mut steps = 0;
    loop {
        match a.try_complete_switching_era(100, timestamp) {
            MultiTxsOperationProcessingResult::Finished => break,
            MultiTxsOperationProcessingResult::NeedMoreGas => {},
            MultiTxsOperationProcessingResult::Error(e) => panic!("{}", e),
        }
        steps += 1;
        assert!(steps < 1000);
    }
    assert!(a.permissionless_actions_status.switching_era_number.is_none());
}

fn distribute(a: &mut AppchainAnchor, era: u64, nonce: u32, unprofitable: Vec<String>) {
    let res = a.internal_start_distributing_reward_of_era(nonce, era, unprofitable);
    assert_eq!(res, AppchainMessageProcessingResult::Processed { nonce, message: None });
    let mut steps = 0;
    while a.try_complete_distributing_reward() != MultiTxsOperationProcessingResult::Finished {
        steps += 1;
        assert!(steps < 1000);
    }
    assert!(a.permissionless_actions_status.distributing_reward_era_number.is_none());
}

#[test]
fn switching_to_first_era_replays_staking_histories() {
    let mut a = staged_anchor();
    switch_to(&mut a, 0, 1, 1_000);
    let set = a.validator_set_histories.get(&0).unwrap();
    assert_eq!(set.era_number(), 0);
    assert_eq!(set.validator_count(), 4);
    assert_eq!(set.total_stake(), 40_500 * OCT);
    assert_eq!(set.start_timestamp(), 1_000);
    assert_eq!(set.staking_history_index(), 4);
    assert_eq!(set.processing_status(), ValidatorSetProcessingStatus::ReadyForDistributingReward);
    assert_eq!(set.get_validator(&name(0)).unwrap().total_stake, 10_500 * OCT);
    assert_eq!(set.get_delegator(&"dan.near".to_string(), &name(0)).unwrap().deposit_amount, 500 * OCT);
    assert_eq!(set.delegator_count(), 1);
    assert_eq!(
        a.appchain_messages.get_processing_result(&0),
        Some(&AppchainMessageProcessingResult::Processed {
            nonce: 0,
            message: Some("Validator set '0' is generated and is ready for distributing reward.".to_string()),
        })
    );
}

#[test]
fn switching_while_switching_is_refused() {
    let mut a = staged_anchor();
    assert_eq!(
        a.internal_start_switching_era(0, 1, 100, 1_000),
        AppchainMessageProcessingResult::Processed { nonce: 1, message: None }
    );
    assert_eq!(
        a.internal_start_switching_era(1, 2, 100, 1_000),
        AppchainMessageProcessingResult::Error { nonce: 2, message: "Contract is still switching to era 0.".to_string() }
    );
}

#[test]
fn distributing_reward_of_first_era() {
    let mut a = staged_anchor();
    a.appchain_settings.era_reward = 81_000;
    switch_to(&mut a, 0, 1, 1_000);
    distribute(&mut a, 0, 2, Vec::new());
    let set = a.validator_set_histories.get(&0).unwrap();
    assert_eq!(set.processing_status(), ValidatorSetProcessingStatus::Completed);
    assert_eq!(set.valid_total_stake(), 40_500 * OCT);
    // 81_000 * 10_500 / 40_500 = 21_000; commission 4_200; 16_800 shared by 10_000 and 500
    assert_eq!(set.get_validator_rewards_of(&name(0)), Some(20_200));
    assert_eq!(set.get_delegator_rewards_of(&"dan.near".to_string(), &name(0)), Some(800));
    // 81_000 * 10_000 / 40_500 = 20_000, all of it to the validator
    assert_eq!(set.get_validator_rewards_of(&name(1)), Some(20_000));
    assert_eq!(a.unwithdrawn_validator_rewards.get(&(0, name(0))), Some(20_200));
    assert_eq!(a.unwithdrawn_delegator_rewards.get(&(0, "dan.near".to_string(), name(0))), Some(800));
}

#[test]
fn unprofitable_validators_earn_nothing() {
    let mut a = staged_anchor();
    a.appchain_settings.era_reward = 60_000;
    switch_to(&mut a, 0, 1, 1_000);
    distribute(&mut a, 0, 2, vec![id_in_appchain(3)]);
    let set = a.validator_set_histories.get(&0).unwrap();
    assert_eq!(set.unprofitable_validator_ids(), vec![name(3)]);
    assert_eq!(set.valid_total_stake(), 30_500 * OCT);
    assert_eq!(set.get_validator_rewards_of(&name(3)), None);
    // 60_000 * 10_000 / 30_500 = 19_672
    assert_eq!(set.get_validator_rewards_of(&name(1)), Some(19_672));
}

#[test]
fn distribution_refusals() {
    let mut a = staged_anchor();
    assert_eq!(
        a.internal_start_distributing_reward_of_era(5, 0, Vec::new()),
        AppchainMessageProcessingResult::Error { nonce: 5, message: "Validator set is not existed.".to_string() }
    );
    a.internal_start_switching_era(0, 1, 100, 1_000);
    assert_eq!(
        a.internal_start_distributing_reward_of_era(6, 0, Vec::new()),
        AppchainMessageProcessingResult::Error {
            nonce: 6,
            message: "Validator set is not ready for distributing reward.".to_string(),
        }
    );
    while a.try_complete_switching_era(100, 1_000) != MultiTxsOperationProcessingResult::Finished {}
    assert_eq!(
        a.internal_start_distributing_reward_of_era(7, 0, vec!["0x01".to_string()]),
        AppchainMessageProcessingResult::Error {
            nonce: 7,
            message: "Invalid validator id in appchain: '0x01'".to_string(),
        }
    );
    a.internal_start_distributing_reward_of_era(8, 0, Vec::new());
    assert_eq!(
        a.internal_start_distributing_reward_of_era(9, 0, Vec::new()),
        AppchainMessageProcessingResult::Error {
            nonce: 9,
            message: "Contract is still distributing reward for era 0.".to_string(),
        }
    );
}

#[test]
fn withdrawing_rewards_over_eras() {
    let mut a = staged_anchor();
    a.appchain_settings.era_reward = 81_000;
    switch_to(&mut a, 0, 1, 1_000);
    distribute(&mut a, 0, 2, Vec::new());
    // the rewards of the latest era can be withdrawn, once
    assert_eq!(a.withdraw_delegator_rewards(&"dan.near".to_string(), &name(0)), Ok(800));
    assert_eq!(a.withdraw_validator_rewards(&name(0)), Ok(20_200));
    assert_eq!(a.withdraw_validator_rewards(&name(0)), Ok(0));
    switch_to(&mut a, 1, 3, 2_000);
    assert_eq!(a.withdraw_delegator_rewards(&"dan.near".to_string(), &name(0)), Ok(0));
    a.rewards_withdrawal_is_paused = true;
    assert_eq!(a.withdraw_validator_rewards(&name(1)), Err(AnchorError::RewardsWithdrawalPaused));
    a.asset_transfer_is_paused = true;
    assert_eq!(a.withdraw_validator_rewards(&name(1)), Err(AnchorError::AssetTransferPaused));
    a.asset_transfer_is_paused = false;
    a.rewards_withdrawal_is_paused = false;
    assert_eq!(a.withdraw_validator_rewards(&name(1)), Ok(20_000));
}

#[test]
fn old_rewards_can_no_longer_be_withdrawn() {
    let mut a = staged_anchor();
    a.appchain_settings.era_reward = 81_000;
    a.protocol_settings.maximum_era_count_of_unwithdrawn_reward = 1;
    switch_to(&mut a, 0, 1, 1_000);
    distribute(&mut a, 0, 2, Vec::new());
    switch_to(&mut a, 1, 3, 2_000);
    switch_to(&mut a, 2, 4, 3_000);
    // only era 2 is in reach now
    assert_eq!(a.withdraw_validator_rewards(&name(1)), Ok(0));
}

#[test]
fn next_era_copies_last_era_and_applies_new_histories() {
    let mut a = staged_anchor();
    switch_to(&mut a, 0, 1, 1_000);
    a.appchain_state = AppchainState::Active;
    a.increase_stake(name(1), 1_000 * OCT, 3, 30).unwrap();
    switch_to(&mut a, 1, 2, 2_000);
    let set = a.validator_set_histories.get(&1).unwrap();
    assert_eq!(set.validator_count(), 4);
    assert_eq!(set.total_stake(), 41_500 * OCT);
    assert_eq!(set.get_validator(&name(1)).unwrap().deposit_amount, 11_000 * OCT);
    assert_eq!(set.get_validator(&name(0)).unwrap().total_stake, 10_500 * OCT);
    assert!(set.contains_delegator(&"dan.near".to_string(), &name(0)));
    assert_eq!(set.staking_history_index(), 5);
    // the set of the last era is untouched
    let last = a.validator_set_histories.get(&0).unwrap();
    assert_eq!(last.total_stake(), 40_500 * OCT);
}

#[test]
fn unbonded_delegation_is_withdrawn_after_unlock() {
    let mut a = staged_anchor();
    switch_to(&mut a, 0, 1, 1_000);
    a.appchain_state = AppchainState::Active;
    a.oct_token.price_in_usd = 1;
    a.protocol_settings.minimum_total_stake_price_for_booting = 1;
    a.unbond_delegation("dan.near".to_string(), name(0), 3, 30).unwrap();
    assert!(!a.unbonded_stakes.contains_account(&"dan.near".to_string()));
    switch_to(&mut a, 1, 2, 2_000);
    assert!(a.unbonded_stakes.contains_account(&"dan.near".to_string()));
    let unlock = 2_000 + 21 * SECONDS_OF_A_DAY * NANO_SECONDS_MULTIPLE;
    assert_eq!(a.withdraw_stake(&"dan.near".to_string(), unlock), Ok(0));
    assert!(a.unbonded_stakes.contains_account(&"dan.near".to_string()));
    assert_eq!(a.withdraw_stake(&"dan.near".to_string(), unlock + 1), Ok(500 * OCT));
    assert!(!a.unbonded_stakes.contains_account(&"dan.near".to_string()));
    assert_eq!(a.withdraw_stake(&"dan.near".to_string(), unlock + 1), Ok(0));
    a.asset_transfer_is_paused = true;
    assert_eq!(a.withdraw_stake(&"dan.near".to_string(), unlock + 1), Err(AnchorError::AssetTransferPaused));
}

#[test]
fn era_number_checks() {
    let mut a = staged_anchor();
    switch_to(&mut a, 0, 1, 1_000);
    a.protocol_settings.maximum_era_count_of_valid_appchain_message = 2;
    for era in 1..6u64 {
        switch_to(&mut a, era, era as u32 + 1, 1_000 + era);
    }
    // eras 0..=5 exist; messages of 2 eras back are valid
    assert_eq!(a.assert_era_number_is_valid(3), Ok(()));
    assert_eq!(a.assert_era_number_is_valid(2), Err(AnchorError::MessageTooOld));
    assert!(a.era_number_is_too_old(3, 2));
    assert!(!a.era_number_is_too_old(4, 2));
}

#[test]
fn clearing_validator_set_histories() {
    let mut a = staged_anchor();
    a.appchain_settings.era_reward = 81_000;
    let owner = "octopus.near".to_string();
    switch_to(&mut a, 0, 1, 1_000);
    distribute(&mut a, 0, 2, Vec::new());
    switch_to(&mut a, 1, 3, 2_000);
    switch_to(&mut a, 2, 4, 3_000);
    assert_eq!(a.clear_validator_set_histories(&"eve.near".to_string()), Err(AnchorError::NotAuthorized));
    assert_eq!(a.remove_oldest_validator_set(&"eve.near".to_string()), Err(AnchorError::NotAuthorized));
    // until the owner sets the length to keep, nothing is removed
    assert_eq!(a.remove_oldest_validator_set(&owner), Err(AnchorError::ValidatorSetHistoryTooShort));
    assert_eq!(a.set_min_length_of_validator_set_history(&"eve.near".to_string(), 3), Err(AnchorError::NotAuthorized));
    assert_eq!(a.set_min_length_of_validator_set_history(&owner, 3), Ok(()));
    assert_eq!(a.set_min_length_of_validator_set_history(&owner, 3), Err(AnchorError::ValueNotChanged));
    // three eras are kept: none is removed where three must stay
    assert_eq!(a.remove_oldest_validator_set(&owner), Err(AnchorError::ValidatorSetHistoryTooShort));
    assert_eq!(a.set_min_length_of_validator_set_history(&owner, 2), Ok(()));
    assert!(a.reward_distribution_records.contains_record(2, 0, &String::new(), &name(0)));
    assert_eq!(a.unwithdrawn_validator_rewards.get(&(0, name(0))), Some(20_200));
    assert_eq!(
        a.remove_oldest_validator_set(&owner),
        Ok((0, MultiTxsOperationProcessingResult::Finished))
    );
    assert!(a.validator_set_histories.get(&0).is_none());
    assert!(!a.reward_distribution_records.contains_record(2, 0, &String::new(), &name(0)));
    assert_eq!(a.unwithdrawn_validator_rewards.get(&(0, name(0))), None);
    assert_eq!(a.unwithdrawn_delegator_rewards.get(&(0, "dan.near".to_string(), name(0))), None);
    assert_eq!(a.remove_oldest_validator_set(&owner), Err(AnchorError::ValidatorSetHistoryTooShort));
    // an index without a set is passed over
    a.validator_set_histories.take(&1);
    assert_eq!(a.clear_validator_set_histories(&owner), Ok((1, MultiTxsOperationProcessingResult::NeedMoreGas)));
    assert_eq!(a.clear_validator_set_histories(&owner), Ok((2, MultiTxsOperationProcessingResult::Finished)));
    assert!(a.validator_set_histories.get(&2).is_none());
    // nothing is left
    assert_eq!(a.clear_validator_set_histories(&owner), Ok((3, MultiTxsOperationProcessingResult::Finished)));
}

#[test]
fn decreases_keep_two_thirds_of_the_last_era_stake() {
    let mut a = staged_anchor();
    switch_to(&mut a, 0, 1, 1_000);
    a.appchain_state = AppchainState::Active;
    a.oct_token.price_in_usd = 1;
    a.protocol_settings.minimum_total_stake_price_for_booting = 1;
    // era 0 holds 40_500 OCT: at least 27_000 OCT must stay
    assert_eq!(a.decrease_stake(name(1), 5_000 * OCT, 2, 20), Ok(()));
    assert_eq!(a.decrease_stake(name(2), 5_000 * OCT, 2, 20), Ok(()));
    assert_eq!(a.decrease_stake(name(3), 5_000 * OCT, 2, 20), Err(AnchorError::NotEnoughStake));
    assert_eq!(a.decrease_delegation("dan.near".to_string(), name(0), 100 * OCT, 2, 20), Ok(()));
    assert_eq!(a.next_validator_set.total_stake(), 30_400 * OCT);
}

#[test]
fn clearing_reward_distribution_records_of_an_era() {
    let mut a = staged_anchor();
    a.appchain_settings.era_reward = 81_000;
    switch_to(&mut a, 0, 1, 1_000);
    distribute(&mut a, 0, 2, Vec::new());
    assert!(a.reward_distribution_records.contains_record(2, 0, &String::new(), &name(0)));
    assert_eq!(a.get_recorded_era_numbers_of_reward_distribution_records(), vec![0u64]);
    let here = "anchor.myappchain.testnet".to_string();
    let owner = "octopus.near".to_string();
    assert_eq!(a.clear_reward_distribution_records(&"anchor.near".to_string(), &owner, 0), Err(AnchorError::NotTestnet));
    assert_eq!(a.clear_reward_distribution_records(&here, &owner, 0), Ok(()));
    assert!(!a.reward_distribution_records.contains_record(2, 0, &String::new(), &name(0)));
    assert!(!a.reward_distribution_records.contains_record(2, 0, &"dan.near".to_string(), &name(0)));
    let set = a.validator_set_histories.get(&0).unwrap();
    assert_eq!(set.get_validator_rewards_of(&name(0)), None);
    assert_eq!(set.processing_status(), ValidatorSetProcessingStatus::Completed);
    assert_eq!(a.get_recorded_era_numbers_of_reward_distribution_records(), Vec::<u64>::new());
    // the era of no validator set is left as it is
    assert_eq!(a.clear_reward_distribution_records(&here, &owner, 9), Ok(()));
}

#[test]
fn records_of_an_era_no_longer_noted_are_not_cleared() {
    let mut a = staged_anchor();
    a.appchain_settings.era_reward = 81_000;
    switch_to(&mut a, 0, 1, 1_000);
    distribute(&mut a, 0, 2, Vec::new());
    let here = "anchor.myappchain.testnet".to_string();
    let owner = "octopus.near".to_string();
    assert_eq!(
        a.clear_era_number_set_of_reward_distribution_records(&here, &"eve.near".to_string()),
        Err(AnchorError::NotAuthorized)
    );
    assert_eq!(a.clear_era_number_set_of_reward_distribution_records(&here, &owner), Ok(()));
    assert_eq!(a.get_recorded_era_numbers_of_reward_distribution_records(), Vec::<u64>::new());
    assert!(a.reward_distribution_records.contains_record(2, 0, &String::new(), &name(0)));
    assert_eq!(a.clear_reward_distribution_records(&here, &owner, 0), Ok(()));
    assert!(a.reward_distribution_records.contains_record(2, 0, &String::new(), &name(0)));
    assert!(a.reward_distribution_records.contains_record(2, 0, &"dan.near".to_string(), &name(0)));
}

#[test]
fn changing_an_id_in_appchain_in_a_validator_set() {
    let mut a = staged_anchor();
    switch_to(&mut a, 0, 1, 1_000);
    let owner = "octopus.near".to_string();
    let here = "anchor.myappchain.testnet".to_string();
    let mut new_id = "0X".to_string();
    for _ in 0..64 {
        new_id.push('C');
    }
    assert_eq!(
        a.change_validator_id_in_appchain_in_validator_set(&"anchor.near".to_string(), &owner, 0, name(1), new_id.clone()),
        Err(AnchorError::NotTestnet)
    );
    assert_eq!(
        a.change_validator_id_in_appchain_in_validator_set(&here, &owner, 5, name(1), new_id.clone()),
        Err(AnchorError::InvalidEraNumber)
    );
    assert_eq!(
        a.change_validator_id_in_appchain_in_validator_set(&here, &owner, 0, "nobody.near".to_string(), new_id.clone()),
        Err(AnchorError::InvalidValidatorId("nobody.near".to_string()))
    );
    assert_eq!(
        a.change_validator_id_in_appchain_in_validator_set(&here, &owner, 0, name(1), "0x12".to_string()),
        Err(AnchorError::InvalidValidatorIdInAppchain("0x12".to_string()))
    );
    assert_eq!(a.change_validator_id_in_appchain_in_validator_set(&here, &owner, 0, name(1), new_id), Ok(()));
    let set = a.validator_set_histories.get(&0).unwrap();
    let mut expected = "0x".to_string();
    for _ in 0..64 {
        expected.push('c');
    }
    assert_eq!(set.get_validator(&name(1)).unwrap().validator_id_in_appchain, expected);
    assert_eq!(set.get_validator(&name(2)).unwrap().validator_id_in_appchain, id_in_appchain(2));
}

#[test]
fn a_distribution_pass_credits_no_more_than_the_era_reward() {
    let mut a = staged_anchor();
    a.appchain_settings.era_reward = 81_000;
    switch_to(&mut a, 0, 1, 1_000);
    distribute(&mut a, 0, 2, vec![id_in_appchain(3)]);
    let mut credited: u128 = 0;
    for n in 0..4u8 {
        credited += a.unwithdrawn_validator_rewards.get(&(0, name(n))).unwrap_or(0);
    }
    credited += a.unwithdrawn_delegator_rewards.get(&(0, "dan.near".to_string(), name(0))).unwrap_or(0);
    assert_eq!(a.unwithdrawn_validator_rewards.get(&(0, name(3))), None);
    assert!(credited <= 81_000);
    assert!(credited > 80_000);
}
