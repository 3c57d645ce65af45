use appchain_anchor::anchor::AppchainAnchor;
use appchain_anchor::errors::AnchorError;
use appchain_anchor::rewards::OCT_DECIMALS_VALUE;
use appchain_anchor::types::{AppchainState, AppchainTemplateType, MultiTxsOperationProcessingResult, ValidatorSetProcessingStatus};

const OCT: u128 = OCT_DECIMALS_VALUE;

fn owner() -> String {
    "octopus.near".to_string()
}

fn anchor_with_validators(count: u8) -> AppchainAnchor {
    let mut a = AppchainAnchor::new(
        "myappchain".to_string(),
        AppchainTemplateType::Barnacle,
        "registry.near".to_string(),
        "oct.near".to_string(),
        owner(),
    );
    for n in 0..count {
        let mut id = "0x".to_string();
        for _ in 0..63 {
            id.push('c');
        }
        id.push(char::from(b'0' + n));
        a.register_validator(format!("v{}.near", n), Some(id), Vec::new(), 10_000 * OCT, true, 1, 10).unwrap();
    }
    a
}

#[test]
fn go_booting_starts_era_zero() {
    let mut a = anchor_with_validators(4);
    a.oct_token.price_in_usd = 3_000_000;
    assert_eq!(a.go_booting(&owner(), 50, 500), Ok(()));
    assert_eq!(a.appchain_state, AppchainState::Booting);
    assert_eq!(a.permissionless_actions_status.switching_era_number, Some(0));
    let set = a.validator_set_histories.get(&0).unwrap();
    assert_eq!(set.start_timestamp(), 500);
    assert_eq!(
        set.processing_status(),
        ValidatorSetProcessingStatus::CopyingFromLastEra { copying_validator_index: 0, copying_delegator_index: 0 }
    );
    let mut steps = 0;
    while a.try_complete_switching_era(50, 500) != MultiTxsOperationProcessingResult::Finished {
        steps += 1;
        assert!(steps < 100);
    }
    let set = a.validator_set_histories.get(&0).unwrap();
    assert_eq!(set.validator_count(), 4);
    assert_eq!(set.total_stake(), 40_000 * OCT);
    assert_eq!(set.processing_status(), ValidatorSetProcessingStatus::ReadyForDistributingReward);
}

#[test]
fn go_booting_refusals() {
    let mut a = anchor_with_validators(3);
    a.oct_token.price_in_usd = 3_000_000;
    assert_eq!(a.go_booting(&"eve.near".to_string(), 1, 1), Err(AnchorError::NotAuthorized));
    assert_eq!(a.go_booting(&owner(), 1, 1), Err(AnchorError::TooFewValidators));
    let mut a = anchor_with_validators(4);
    a.oct_token.price_in_usd = 2_000_000;
    // 40_000 OCT at 2 USD: below the 100_000 USD needed
    assert_eq!(a.go_booting(&owner(), 1, 1), Err(AnchorError::NotEnoughStake));
    a.appchain_state = AppchainState::Active;
    assert_eq!(a.go_booting(&owner(), 1, 1), Err(AnchorError::InvalidAppchainState));
    assert!(a.validator_set_histories.get(&0).is_none());
}

#[test]
fn owner_removes_old_histories() {
    let mut a = anchor_with_validators(4);
    assert_eq!(a.remove_staking_history_before(&"eve.near".to_string(), 2), Err(AnchorError::NotAuthorized));
    assert!(a.staking_histories.get(&0).is_some());
    assert_eq!(a.remove_staking_history_before(&owner(), 2), Ok(()));
    assert!(a.staking_histories.get(&1).is_none());
    assert!(a.staking_histories.get(&2).is_some());
    assert_eq!(a.staking_histories.index_range().start_index, 2);
    // removing before an index that is already gone changes nothing
    assert_eq!(a.remove_staking_history_before(&owner(), 1), Ok(()));
    assert_eq!(a.staking_histories.index_range().start_index, 2);
    a.oct_token.price_in_usd = 3_000_000;
    a.go_booting(&owner(), 1, 1).unwrap();
    assert_eq!(a.remove_validator_set_before(&owner(), 1), Ok(()));
    assert!(a.validator_set_histories.get(&0).is_none());
    assert_eq!(a.remove_appchain_notification_history_before(&"eve.near".to_string(), 1), Err(AnchorError::NotAuthorized));
    assert_eq!(a.remove_appchain_notification_history_before(&owner(), 1), Ok(()));
}
