use appchain_anchor::anchor::AppchainAnchor;
use appchain_anchor::errors::AnchorError;
use appchain_anchor::rewards::OCT_DECIMALS_VALUE;
use appchain_anchor::types::{
    AppchainNotification, AppchainTemplateType, MultiTxsOperationProcessingResult, StakingFact,
    ValidatorSetProcessingStatus,
};

const OCT: u128 = OCT_DECIMALS_VALUE;

fn hex_id(n: u8) -> String {
    let mut s = "0x".to_string();
    for _ in 0..63 {
        s.push('7');
    }
    s.push(char::from(b'0' + n));
    s
}

fn anchor() -> AppchainAnchor {
    let mut a = AppchainAnchor::new(
        "myappchain".to_string(),
        AppchainTemplateType::Barnacle,
        "registry.near".to_string(),
        "oct.near".to_string(),
        "octopus.near".to_string(),
    );
    for n in 0..4u8 {
        a.register_validator(format!("v{}.near", n), Some(hex_id(n)), Vec::new(), 10_000 * OCT, true, 1, 1).unwrap();
    }
    a.register_delegator("dan.near".to_string(), "v0.near".to_string(), 300 * OCT, 2, 2).unwrap();
    a.register_delegator("eve.near".to_string(), "v0.near".to_string(), 400 * OCT, 2, 2).unwrap();
    a
}

fn switch_era_zero(a: &mut AppchainAnchor) {
    a.internal_start_switching_era(0, 1, 1, 1_000);
    while a.try_complete_switching_era(1, 1_000) != MultiTxsOperationProcessingResult::Finished {}
}

#[test]
fn deposits_of_next_and_past_eras() {
    let mut a = anchor();
    let v0 = "v0.near".to_string();
    let dan = "dan.near".to_string();
    assert_eq!(a.get_validator_deposit_of(&v0, None), 10_000 * OCT);
    assert_eq!(a.get_validator_deposit_of(&"x.near".to_string(), None), 0);
    assert_eq!(a.get_delegator_deposit_of(&dan, &v0, None), 300 * OCT);
    assert_eq!(a.get_validator_deposit_of(&v0, Some(0)), 0);
    a.internal_start_switching_era(0, 1, 1, 1_000);
    // the set of era 0 shows nothing until its histories are applied
    assert_eq!(a.get_validator_deposit_of(&v0, Some(0)), 0);
    while a.try_complete_switching_era(1, 1_000) != MultiTxsOperationProcessingResult::Finished {}
    assert_eq!(a.get_validator_deposit_of(&v0, Some(0)), 10_000 * OCT);
    assert_eq!(a.get_delegator_deposit_of(&dan, &v0, Some(0)), 300 * OCT);
    assert_eq!(a.get_delegator_deposit_of(&dan, &"v1.near".to_string(), Some(0)), 0);
}

#[test]
fn delegators_of_a_validator() {
    let mut a = anchor();
    let v0 = "v0.near".to_string();
    let next = a.get_delegators_of_validator_in_era(None, &v0);
    assert_eq!(next.len(), 2);
    assert_eq!(next[0].delegator_id, "dan.near".to_string());
    assert_eq!(next[1].delegation_amount, 400 * OCT);
    assert_eq!(next[1].validator_id, v0);
    assert!(a.get_delegators_of_validator_in_era(Some(0), &v0).is_empty());
    switch_era_zero(&mut a);
    assert_eq!(a.get_delegators_of_validator_in_era(Some(0), &v0).len(), 2);
    assert!(a.get_delegators_of_validator_in_era(Some(0), &"v1.near".to_string()).is_empty());
}

#[test]
fn info_and_status_of_an_era() {
    let mut a = anchor();
    assert!(a.get_validator_set_info_of(0).is_none());
    assert!(a.get_processing_status_of(0).is_none());
    switch_era_zero(&mut a);
    let info = a.get_validator_set_info_of(0).unwrap();
    assert_eq!(info.era_number, 0);
    assert_eq!(info.total_stake, 40_700 * OCT);
    assert_eq!(info.start_timestamp, 1_000);
    assert_eq!(info.validator_list.len(), 4);
    assert_eq!(a.get_processing_status_of(0), Some(ValidatorSetProcessingStatus::ReadyForDistributingReward));
}

#[test]
fn histories_by_index() {
    let mut a = anchor();
    let last = a.get_staking_history(None).unwrap();
    assert_eq!(last.index, 5);
    assert_eq!(
        last.staking_fact,
        StakingFact::DelegatorRegistered {
            delegator_id: "eve.near".to_string(),
            validator_id: "v0.near".to_string(),
            amount: 400 * OCT,
        }
    );
    assert_eq!(a.get_staking_history(Some(0)).unwrap().index, 0);
    assert!(a.get_staking_history(Some(6)).is_none());
    assert!(a.get_appchain_notification_history(None).is_none());
    let n = AppchainNotification::WrappedAppchainTokenBurnt {
        sender_id_in_near: "s.near".to_string(),
        receiver_id_in_appchain: "0xaa".to_string(),
        amount: 1,
    };
    a.internal_append_appchain_notification(n.clone(), 3, 30);
    let h = a.get_appchain_notification_history(None).unwrap();
    assert_eq!(h.appchain_notification, n);
    assert_eq!(h.timestamp, 30);
}

#[test]
fn reward_histories_of_validators_and_delegators() {
    let mut a = anchor();
    a.appchain_settings.era_reward = 81_400;
    switch_era_zero(&mut a);
    let res = a.internal_start_distributing_reward_of_era(2, 0, Vec::new());
    assert!(matches!(res, appchain_anchor::types::AppchainMessageProcessingResult::Processed { .. }));
    while a.try_complete_distributing_reward() != MultiTxsOperationProcessingResult::Finished {}
    let v0 = "v0.near".to_string();
    let dan = "dan.near".to_string();
    // 81_400 * 10_700 / 40_700 = 21_400; commission 4_280; 17_120 shared by 10_000, 300 and 400
    let rewards = a.get_validator_rewards_of(0, 3, &v0);
    assert_eq!(rewards.len(), 1);
    assert_eq!(rewards[0].era_number, 0);
    assert_eq!(rewards[0].total_reward, 4_280 + 16_000);
    assert_eq!(rewards[0].unwithdrawn_reward, 4_280 + 16_000);
    let delegator = a.get_delegator_rewards_of(0, 0, &dan, &v0);
    assert_eq!(delegator.len(), 1);
    assert_eq!(delegator[0].total_reward, 480);
    a.withdraw_validator_rewards(&v0).unwrap();
    let rewards = a.get_validator_rewards_of(0, 0, &v0);
    assert_eq!(rewards[0].total_reward, 20_280);
    assert_eq!(rewards[0].unwithdrawn_reward, 0);
    assert!(a.get_validator_rewards_of(1, 5, &v0).is_empty());
}

#[test]
fn profile_by_id_in_appchain() {
    let a = anchor();
    let p = a.get_validator_profile_by_id_in_appchain(&hex_id(2)).unwrap().unwrap();
    assert_eq!(p.validator_id, "v2.near".to_string());
    let mut unknown = "0x".to_string();
    for _ in 0..64 {
        unknown.push('9');
    }
    assert!(a.get_validator_profile_by_id_in_appchain(&unknown).unwrap().is_none());
    assert_eq!(
        a.get_validator_profile_by_id_in_appchain(&"0x1".to_string()),
        Err(AnchorError::InvalidValidatorIdInAppchain("0x1".to_string()))
    );
}
