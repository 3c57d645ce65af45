use appchain_anchor::anchor::AppchainAnchor;
use appchain_anchor::errors::AnchorError;
use appchain_anchor::rewards::OCT_DECIMALS_VALUE;
use appchain_anchor::types::{AppchainTemplateType, MultiTxsOperationProcessingResult};

const OCT: u128 = OCT_DECIMALS_VALUE;

fn owner() -> String {
    "octopus.near".to_string()
}

fn id_in_appchain(n: u8) -> String {
    let mut id = "0x".to_string();
    for _ in 0..63 {
        id.push('f');
    }
    id.push(char::from(b'0' + n));
    id
}

/// Validators v0 and v1, then d delegating to v0, then v0 staking more:
/// staking histories 0 to 3.
fn anchor() -> AppchainAnchor {
    let mut a = AppchainAnchor::new(
        "myappchain".to_string(),
        AppchainTemplateType::Barnacle,
        "registry.near".to_string(),
        "oct.near".to_string(),
        owner(),
    );
    a.register_validator("v0.near".to_string(), Some(id_in_appchain(0)), Vec::new(), 10_000 * OCT, true, 1, 10).unwrap();
    a.register_validator("v1.near".to_string(), Some(id_in_appchain(1)), Vec::new(), 10_000 * OCT, true, 1, 10).unwrap();
    a.register_delegator("d.near".to_string(), "v0.near".to_string(), 500 * OCT, 2, 20).unwrap();
    a.increase_stake("v0.near".to_string(), 100 * OCT, 3, 30).unwrap();
    a
}

#[test]
fn staking_actions_are_recorded_for_their_accounts() {
    let a = anchor();
    assert_eq!(a.user_staking_histories.get_staking_history_indexes_of(&"v0.near".to_string()), vec![0, 3]);
    assert_eq!(a.user_staking_histories.get_staking_history_indexes_of(&"v1.near".to_string()), vec![1]);
    assert_eq!(a.user_staking_histories.get_staking_history_indexes_of(&"d.near".to_string()), vec![2]);
    assert_eq!(a.user_staking_histories.get_staking_history_indexes_of(&"x.near".to_string()), Vec::<u64>::new());
    assert_eq!(a.user_staking_histories.len(), 3);
}

#[test]
fn refused_actions_are_not_recorded() {
    let mut a = anchor();
    assert_eq!(
        a.increase_stake("x.near".to_string(), OCT, 4, 40),
        Err(AnchorError::InvalidValidatorId("x.near".to_string()))
    );
    assert_eq!(a.user_staking_histories.len(), 3);
    assert_eq!(a.user_staking_histories.get_staking_history_indexes_of(&"x.near".to_string()), Vec::<u64>::new());
}

#[test]
fn regenerating_user_staking_histories() {
    let mut a = anchor();
    assert_eq!(a.regenerate_user_staking_histories(&"eve.near".to_string(), 10), Err(AnchorError::NotAuthorized));
    a.user_staking_histories.clear();
    assert_eq!(
        a.regenerate_user_staking_histories(&owner(), 2),
        Ok(MultiTxsOperationProcessingResult::NeedMoreGas)
    );
    assert_eq!(a.user_staking_histories.get_staking_history_indexes_of(&"v0.near".to_string()), vec![0]);
    assert_eq!(a.user_staking_histories.get_staking_history_indexes_of(&"d.near".to_string()), Vec::<u64>::new());
    a.user_staking_histories.clear();
    assert_eq!(a.regenerate_user_staking_histories(&owner(), 4), Ok(MultiTxsOperationProcessingResult::Finished));
    assert_eq!(a.user_staking_histories.get_staking_history_indexes_of(&"v0.near".to_string()), vec![0, 3]);
    assert_eq!(a.user_staking_histories.get_staking_history_indexes_of(&"d.near".to_string()), vec![2]);
}
