use appchain_anchor::account_id_in_appchain::AccountIdInAppchain;
use appchain_anchor::anchor::AppchainAnchor;
use appchain_anchor::errors::AnchorError;
use appchain_anchor::rewards::OCT_DECIMALS_VALUE;
use appchain_anchor::types::{AppchainState, AppchainTemplateType, StakingFact};
use appchain_anchor::unbonded_stakes::UnbondedStakeReference;

const OCT: u128 = OCT_DECIMALS_VALUE;

fn owner() -> String {
    "octopus.near".to_string()
}

fn new_anchor() -> AppchainAnchor {
    AppchainAnchor::new(
        "myappchain".to_string(),
        AppchainTemplateType::Barnacle,
        "registry.near".to_string(),
        "oct.near".to_string(),
        owner(),
    )
}

fn id_in_appchain(n: u8) -> String {
    let mut s = "0x".to_string();
    for _ in 0..63 {
        s.push('a');
    }
    s.push(char::from(b'0' + n));
    s
}

fn register(a: &mut AppchainAnchor, name: &str, n: u8, deposit: u128) -> Result<(), AnchorError> {
    a.register_validator(name.to_string(), Some(id_in_appchain(n)), Vec::new(), deposit, true, 10, 100)
}

#[test]
fn id_in_appchain_is_prefixed_and_lowercased() {
    let mut upper = String::new();
    for _ in 0..64 {
        upper.push('A');
    }
    let id = AccountIdInAppchain::new(Some(upper.clone()), &AppchainTemplateType::Barnacle);
    let mut expected = "0x".to_string();
    for _ in 0..64 {
        expected.push('a');
    }
    assert_eq!(id.to_string(), expected);
    assert_eq!(id.origin_to_string(), upper);
    assert!(id.is_valid());
    assert_eq!(id.assert_valid(), Ok(()));
}

#[test]
fn id_in_appchain_length_depends_on_template() {
    let mut forty = "0x".to_string();
    for _ in 0..40 {
        forty.push('1');
    }
    let evm = AccountIdInAppchain::new(Some(forty.clone()), &AppchainTemplateType::BarnacleEvm);
    assert!(evm.is_valid());
    let barnacle = AccountIdInAppchain::new(Some(forty.clone()), &AppchainTemplateType::Barnacle);
    assert!(!barnacle.is_valid());
    assert_eq!(barnacle.assert_valid(), Err(AnchorError::InvalidValidatorIdInAppchain(forty)));
}

#[test]
fn id_in_appchain_rejects_non_hex_and_none() {
    let mut bad = "0x".to_string();
    for _ in 0..64 {
        bad.push('z');
    }
    assert!(!AccountIdInAppchain::new(Some(bad), &AppchainTemplateType::Barnacle).is_valid());
    let none = AccountIdInAppchain::new(None, &AppchainTemplateType::Barnacle);
    assert!(!none.is_valid());
    assert_eq!(none.to_string(), String::new());
    assert_eq!(none.assert_valid(), Err(AnchorError::InvalidValidatorIdInAppchain(String::new())));
}

#[test]
fn register_validator_records_history_and_profile() {
    let mut a = new_anchor();
    assert_eq!(register(&mut a, "alice.near", 1, 5_000 * OCT), Ok(()));
    assert_eq!(a.next_validator_set.total_stake(), 5_000 * OCT);
    assert_eq!(a.next_validator_set.validator_count(), 1);
    let v = a.next_validator_set.get_validator(&"alice.near".to_string()).unwrap();
    assert_eq!(v.deposit_amount, 5_000 * OCT);
    assert_eq!(v.total_stake, 5_000 * OCT);
    assert_eq!(v.validator_id_in_appchain, id_in_appchain(1));
    assert!(v.can_be_delegated_to);
    let h = a.staking_histories.get(&0).unwrap();
    assert_eq!(h.index, 0);
    assert_eq!(h.block_height, 10);
    assert_eq!(h.timestamp, 100);
    assert_eq!(
        h.staking_fact,
        StakingFact::ValidatorRegistered {
            validator_id: "alice.near".to_string(),
            validator_id_in_appchain: id_in_appchain(1),
            amount: 5_000 * OCT,
            can_be_delegated_to: true,
        }
    );
    let p = a.validator_profiles.get(&"alice.near".to_string()).unwrap();
    assert_eq!(p.validator_id_in_appchain, id_in_appchain(1));
    assert!(a.validator_profiles.get_by_id_in_appchain(&id_in_appchain(1)).is_some());
}

#[test]
fn register_validator_refusals() {
    let mut a = new_anchor();
    assert_eq!(register(&mut a, "alice.near", 1, 4_999 * OCT), Err(AnchorError::DepositTooFew));
    assert_eq!(register(&mut a, "alice.near", 1, 5_000 * OCT), Ok(()));
    assert_eq!(
        register(&mut a, "alice.near", 2, 5_000 * OCT),
        Err(AnchorError::AccountAlreadyRegistered("alice.near".to_string()))
    );
    assert_eq!(
        register(&mut a, "bob.near", 1, 5_000 * OCT),
        Err(AnchorError::IdInAppchainAlreadyRegistered(id_in_appchain(1)))
    );
    assert_eq!(
        a.register_validator("bob.near".to_string(), Some("0x12".to_string()), Vec::new(), 5_000 * OCT, true, 1, 1),
        Err(AnchorError::InvalidValidatorIdInAppchain("0x12".to_string()))
    );
    a.protocol_settings.maximum_validator_count = 1;
    assert_eq!(register(&mut a, "bob.near", 2, 5_000 * OCT), Err(AnchorError::TooManyValidators));
    a.appchain_state = AppchainState::Booting;
    assert_eq!(register(&mut a, "carol.near", 3, 5_000 * OCT), Err(AnchorError::InvalidAppchainState));
    assert_eq!(a.next_validator_set.validator_count(), 1);
    assert_eq!(a.staking_histories.index_range().end_index, 0);
}

#[test]
fn register_validator_with_unbonded_stakes_is_refused() {
    let mut a = new_anchor();
    a.unbonded_stakes.add(&"bob.near".to_string(), UnbondedStakeReference { era_number: 1, staking_history_index: 0 });
    assert_eq!(
        register(&mut a, "bob.near", 2, 5_000 * OCT),
        Err(AnchorError::UnbondedStakesNotWithdrawn("bob.near".to_string()))
    );
}

#[test]
fn increase_stake_adds_to_deposit_and_total() {
    let mut a = new_anchor();
    register(&mut a, "alice.near", 1, 5_000 * OCT).unwrap();
    assert_eq!(a.increase_stake("alice.near".to_string(), 100, 11, 101), Ok(()));
    let v = a.next_validator_set.get_validator(&"alice.near".to_string()).unwrap();
    assert_eq!(v.deposit_amount, 5_000 * OCT + 100);
    assert_eq!(a.next_validator_set.total_stake(), 5_000 * OCT + 100);
    assert_eq!(a.staking_histories.index_range().end_index, 1);
    assert_eq!(
        a.increase_stake("nobody.near".to_string(), 100, 11, 101),
        Err(AnchorError::InvalidValidatorId("nobody.near".to_string()))
    );
    a.appchain_state = AppchainState::Frozen;
    assert_eq!(a.increase_stake("alice.near".to_string(), 100, 11, 101), Err(AnchorError::InvalidAppchainState));
}

#[test]
fn delegation_flag_controls_new_delegators() {
    let mut a = new_anchor();
    register(&mut a, "alice.near", 1, 5_000 * OCT).unwrap();
    assert_eq!(a.register_delegator("dan.near".to_string(), "alice.near".to_string(), 200 * OCT, 2, 2), Ok(()));
    assert_eq!(a.disable_delegation("alice.near".to_string(), 3, 3), Ok(()));
    assert!(!a.next_validator_set.get_validator(&"alice.near".to_string()).unwrap().can_be_delegated_to);
    assert_eq!(
        a.register_delegator("erin.near".to_string(), "alice.near".to_string(), 200 * OCT, 4, 4),
        Err(AnchorError::DelegationNotAccepted("alice.near".to_string()))
    );
    // the delegator registered before stays
    assert!(a.next_validator_set.contains_delegator(&"dan.near".to_string(), &"alice.near".to_string()));
    assert_eq!(a.enable_delegation("alice.near".to_string(), 5, 5), Ok(()));
    assert_eq!(a.register_delegator("erin.near".to_string(), "alice.near".to_string(), 200 * OCT, 6, 6), Ok(()));
}

#[test]
fn register_delegator_rules() {
    let mut a = new_anchor();
    register(&mut a, "alice.near", 1, 5_000 * OCT).unwrap();
    register(&mut a, "bob.near", 2, 5_000 * OCT).unwrap();
    let alice = "alice.near".to_string();
    let bob = "bob.near".to_string();
    let dan = "dan.near".to_string();
    assert_eq!(a.register_delegator(dan.clone(), alice.clone(), 199 * OCT, 1, 1), Err(AnchorError::DepositTooFew));
    assert_eq!(
        a.register_delegator(dan.clone(), "x.near".to_string(), 200 * OCT, 1, 1),
        Err(AnchorError::InvalidValidatorId("x.near".to_string()))
    );
    assert_eq!(a.register_delegator(dan.clone(), alice.clone(), 200 * OCT, 1, 1), Ok(()));
    assert_eq!(
        a.register_delegator(dan.clone(), alice.clone(), 200 * OCT, 1, 1),
        Err(AnchorError::DelegatorAlreadyRegistered(dan.clone(), alice.clone()))
    );
    a.protocol_settings.maximum_validators_per_delegator = 1;
    assert_eq!(a.register_delegator(dan.clone(), bob.clone(), 200 * OCT, 1, 1), Err(AnchorError::TooManyValidatorsDelegated));
    assert_eq!(a.next_validator_set.total_stake(), 10_200 * OCT);
    let v = a.next_validator_set.get_validator(&alice).unwrap();
    assert_eq!(v.total_stake, 5_200 * OCT);
    assert_eq!(v.deposit_amount, 5_000 * OCT);
    assert_eq!(a.next_validator_set.get_delegator_count_of(&alice), 1);
    assert_eq!(a.next_validator_set.get_validator_ids_of(&dan), vec![alice.clone()]);
    assert_eq!(a.increase_delegation(dan.clone(), alice.clone(), 5, 2, 2), Ok(()));
    assert_eq!(a.next_validator_set.get_delegator(&dan, &alice).unwrap().deposit_amount, 200 * OCT + 5);
    assert_eq!(
        a.increase_delegation(dan.clone(), bob.clone(), 5, 2, 2),
        Err(AnchorError::InvalidDelegatorId(dan.clone(), bob.clone()))
    );
}

fn active_anchor_with_validators(count: u8) -> AppchainAnchor {
    let mut a = new_anchor();
    for i in 0..count {
        let name = format!("v{}.near", i);
        register(&mut a, &name, i, 10_000 * OCT).unwrap();
    }
    a.appchain_state = AppchainState::Active;
    a.oct_token.price_in_usd = 1;
    a.protocol_settings.minimum_total_stake_price_for_booting = 1;
    a
}

#[test]
fn decrease_stake_rules() {
    let mut a = new_anchor();
    register(&mut a, "v0.near", 0, 10_000 * OCT).unwrap();
    assert_eq!(a.decrease_stake("v0.near".to_string(), 1, 1, 1), Err(AnchorError::InvalidAppchainState));
    let mut a = active_anchor_with_validators(2);
    let v0 = "v0.near".to_string();
    assert_eq!(a.decrease_stake(v0.clone(), 5_001 * OCT, 1, 1), Err(AnchorError::DecreaseTooMuch));
    assert_eq!(a.decrease_stake(v0.clone(), 5_000 * OCT, 1, 1), Ok(()));
    assert_eq!(a.next_validator_set.get_validator(&v0).unwrap().deposit_amount, 5_000 * OCT);
    assert_eq!(a.next_validator_set.total_stake(), 15_000 * OCT);
    a.oct_token.price_in_usd = 0;
    assert_eq!(a.decrease_stake("v1.near".to_string(), 1, 1, 1), Err(AnchorError::NotEnoughStake));
}

#[test]
fn decrease_and_unbond_delegation() {
    let mut a = active_anchor_with_validators(2);
    let v0 = "v0.near".to_string();
    let dan = "dan.near".to_string();
    a.register_delegator(dan.clone(), v0.clone(), 300 * OCT, 1, 1).unwrap();
    assert_eq!(a.decrease_delegation(dan.clone(), v0.clone(), 101 * OCT, 2, 2), Err(AnchorError::DecreaseTooMuch));
    assert_eq!(a.decrease_delegation(dan.clone(), v0.clone(), 100 * OCT, 2, 2), Ok(()));
    assert_eq!(a.next_validator_set.get_delegator(&dan, &v0).unwrap().deposit_amount, 200 * OCT);
    assert_eq!(a.unbond_delegation(dan.clone(), v0.clone(), 3, 3), Ok(()));
    assert!(!a.next_validator_set.contains_delegator(&dan, &v0));
    assert_eq!(a.next_validator_set.total_stake(), 20_000 * OCT);
    let last = a.staking_histories.index_range().end_index;
    assert_eq!(
        a.staking_histories.get(&last).unwrap().staking_fact,
        StakingFact::DelegatorUnbonded { delegator_id: dan.clone(), validator_id: v0.clone(), amount: 200 * OCT }
    );
    assert_eq!(
        a.unbond_delegation(dan.clone(), v0.clone(), 3, 3),
        Err(AnchorError::InvalidDelegatorId(dan.clone(), v0.clone()))
    );
}

#[test]
fn unbond_stake_removes_validator_and_delegators() {
    let mut a = active_anchor_with_validators(5);
    let v0 = "v0.near".to_string();
    a.register_delegator("dan.near".to_string(), v0.clone(), 200 * OCT, 1, 1).unwrap();
    a.register_delegator("erin.near".to_string(), v0.clone(), 300 * OCT, 1, 1).unwrap();
    let first = a.staking_histories.index_range().end_index + 1;
    assert_eq!(a.unbond_stake(v0.clone(), 7, 70), Ok(()));
    assert!(!a.next_validator_set.contains_validator(&v0));
    assert!(!a.next_validator_set.contains_delegator(&"dan.near".to_string(), &v0));
    assert!(!a.next_validator_set.contains_delegator(&"erin.near".to_string(), &v0));
    assert_eq!(a.next_validator_set.validator_count(), 4);
    assert_eq!(a.next_validator_set.total_stake(), 40_000 * OCT);
    assert_eq!(
        a.staking_histories.get(&first).unwrap().staking_fact,
        StakingFact::DelegatorUnbonded { delegator_id: "dan.near".to_string(), validator_id: v0.clone(), amount: 200 * OCT }
    );
    assert_eq!(
        a.staking_histories.get(&(first + 1)).unwrap().staking_fact,
        StakingFact::DelegatorUnbonded { delegator_id: "erin.near".to_string(), validator_id: v0.clone(), amount: 300 * OCT }
    );
    assert_eq!(
        a.staking_histories.get(&(first + 2)).unwrap().staking_fact,
        StakingFact::ValidatorUnbonded { validator_id: v0.clone(), amount: 10_000 * OCT }
    );
    // four validators left: the minimum
    assert_eq!(a.unbond_stake("v1.near".to_string(), 8, 80), Err(AnchorError::TooFewValidators));
}

#[test]
fn unbond_stake_refusals() {
    let mut a = active_anchor_with_validators(5);
    assert_eq!(
        a.unbond_stake("nobody.near".to_string(), 1, 1),
        Err(AnchorError::InvalidValidatorId("nobody.near".to_string()))
    );
    a.oct_token.price_in_usd = 0;
    assert_eq!(a.unbond_stake("v1.near".to_string(), 1, 1), Err(AnchorError::NotEnoughStake));
    a.appchain_state = AppchainState::Staging;
    assert_eq!(a.unbond_stake("v1.near".to_string(), 1, 1), Err(AnchorError::InvalidAppchainState));
}

#[test]
fn assert_helpers() {
    let mut a = active_anchor_with_validators(1);
    assert_eq!(a.assert_staking_open(), Ok(()));
    assert_eq!(a.assert_validator_id(&"v0.near".to_string()), Ok(()));
    assert_eq!(
        a.assert_delegator_id(&"dan.near".to_string(), &"v0.near".to_string()),
        Err(AnchorError::InvalidDelegatorId("dan.near".to_string(), "v0.near".to_string()))
    );
    assert_eq!(a.assert_total_stake_price(10_000 * OCT), Err(AnchorError::NotEnoughStake));
    assert_eq!(a.assert_total_stake_price(1), Ok(()));
    a.appchain_state = AppchainState::Dead;
    assert_eq!(a.assert_staking_open(), Err(AnchorError::InvalidAppchainState));
}
