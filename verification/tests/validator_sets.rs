use appchain_anchor::next_validator_set::{contains_id, copy_ids, NextValidatorSet};
use appchain_anchor::types::{StakingFact, ValidatorSetProcessingStatus};
use appchain_anchor::validator_set::{Validator, ValidatorSet};
use appchain_anchor::validator_set_of_era::ValidatorSetOfEra;

fn s(x: &str) -> String {
    x.to_string()
}

fn registered(id: &str, amount: u128) -> StakingFact {
    StakingFact::ValidatorRegistered {
        validator_id: s(id),
        validator_id_in_appchain: format!("0x{}", id.len()),
        amount,
        can_be_delegated_to: true,
    }
}

fn delegated(d: &str, v: &str, amount: u128) -> StakingFact {
    StakingFact::DelegatorRegistered { delegator_id: s(d), validator_id: s(v), amount }
}

/// The total stake is the sum of the validators' stakes, and each validator's
/// stake is its deposit plus the deposits of its delegators.
fn assert_balanced(set: &ValidatorSet) {
    let mut sum = 0u128;
    for id in set.get_validator_ids() {
        let v = set.get_validator(&id).unwrap();
        let mut stake = v.deposit_amount;
        for d in set.get_delegator_ids_of(&id) {
            stake += set.get_delegator(&d, &id).unwrap().deposit_amount;
        }
        assert_eq!(v.total_stake, stake);
        sum += v.total_stake;
    }
    assert_eq!(set.total_stake(), sum);
}

fn sample_set() -> ValidatorSet {
    let mut set = ValidatorSet::new(3);
    let facts = vec![
        registered("a", 100),
        registered("b", 200),
        delegated("x", "a", 10),
        delegated("y", "a", 20),
        delegated("x", "b", 30),
        StakingFact::StakeIncreased { validator_id: s("b"), amount: 5 },
        StakingFact::DelegationIncreased { delegator_id: s("y"), validator_id: s("a"), amount: 4 },
        StakingFact::DelegationDecreased { delegator_id: s("x"), validator_id: s("b"), amount: 10 },
    ];
    for f in facts.iter() {
        set.apply_staking_fact(f, 1, 2);
        assert_balanced(&set);
    }
    set
}

#[test]
fn applying_facts_keeps_stake_balanced() {
    let set = sample_set();
    assert_eq!(set.era_number(), 3);
    assert_eq!(set.validator_count(), 2);
    assert_eq!(set.delegator_count(), 3);
    assert_eq!(set.total_stake(), 100 + 200 + 10 + 24 + 20 + 5);
    assert_eq!(set.get_validator(&s("a")).unwrap().total_stake, 134);
    assert_eq!(set.get_validator(&s("b")).unwrap().total_stake, 225);
    assert_eq!(set.get_validator(&s("b")).unwrap().deposit_amount, 205);
    assert_eq!(set.get_validator_ids_of(&s("x")), vec![s("a"), s("b")]);
    assert_eq!(set.get_validator_count_of(&s("x")), 2);
    assert_eq!(set.get_delegator_count_of(&s("a")), 2);
    assert_eq!(set.get_delegator_ids_of(&s("a")), vec![s("x"), s("y")]);
    assert_eq!(set.get_validator_by_index(&1).unwrap().validator_id, s("b"));
    assert_eq!(set.get_delegator_by_index(&1, &s("a")).unwrap().delegator_id, s("y"));
    assert!(set.get_validator_by_index(&2).is_none());
}

#[test]
fn unbonding_removes_and_keeps_balance() {
    let mut set = sample_set();
    set.apply_staking_fact(&StakingFact::DelegatorUnbonded { delegator_id: s("x"), validator_id: s("a"), amount: 10 }, 1, 2);
    assert_balanced(&set);
    assert!(!set.contains_delegator(&s("x"), &s("a")));
    assert_eq!(set.get_validator_ids_of(&s("x")), vec![s("b")]);
    set.apply_staking_fact(&StakingFact::DelegatorUnbonded { delegator_id: s("x"), validator_id: s("b"), amount: 20 }, 1, 2);
    set.apply_staking_fact(&StakingFact::ValidatorUnbonded { validator_id: s("b"), amount: 205 }, 1, 2);
    assert_balanced(&set);
    assert!(!set.contains_validator(&s("b")));
    assert_eq!(set.validator_count(), 1);
    assert_eq!(set.total_stake(), 124);
    set.apply_staking_fact(&StakingFact::StakeDecreased { validator_id: s("a"), amount: 50 }, 1, 2);
    assert_balanced(&set);
    assert_eq!(set.get_validator(&s("a")).unwrap().deposit_amount, 50);
}

#[test]
fn delegation_flag_and_id_change() {
    let mut set = sample_set();
    set.apply_staking_fact(&StakingFact::ValidatorDelegationDisabled { validator_id: s("a") }, 1, 2);
    assert!(!set.get_validator(&s("a")).unwrap().can_be_delegated_to);
    set.apply_staking_fact(&StakingFact::ValidatorDelegationEnabled { validator_id: s("a") }, 1, 2);
    assert!(set.get_validator(&s("a")).unwrap().can_be_delegated_to);
    set.apply_staking_fact(
        &StakingFact::ValidatorIdInAppchainChanged { validator_id: s("a"), validator_id_in_appchain: s("0xnew") },
        1,
        2,
    );
    assert_eq!(set.get_validator(&s("a")).unwrap().validator_id_in_appchain, s("0xnew"));
    assert_balanced(&set);
}

#[test]
fn registration_records_block() {
    let mut set = ValidatorSet::new(0);
    set.apply_staking_fact(&registered("a", 100), 42, 4200);
    let v: &Validator = set.get_validator(&s("a")).unwrap();
    assert_eq!(v.registered_block_height, 42);
    assert_eq!(v.registered_timestamp, 4200);
    set.clear();
    assert_eq!(set.validator_count(), 0);
    assert_eq!(set.total_stake(), 0);
}

#[test]
fn next_validator_set_hides_unbonding_validators() {
    let mut next = NextValidatorSet::new(1);
    next.apply_staking_fact(&registered("a", 100), 1, 1);
    next.apply_staking_fact(&registered("b", 200), 1, 1);
    next.apply_staking_fact(&delegated("x", "a", 10), 1, 1);
    assert!(next.contains_validator(&s("a")));
    next.add_unbonding_validator(&s("a"));
    next.add_unbonding_validator(&s("a"));
    assert_eq!(next.get_unbonding_validator_ids(), vec![s("a")]);
    assert!(!next.contains_validator(&s("a")));
    assert!(!next.contains_delegator(&s("x"), &s("a")));
    next.add_auto_unbonding_validator(&s("b"));
    assert_eq!(next.get_auto_unbonding_validator_ids(), vec![s("b")]);
    let list = next.get_validator_list();
    assert_eq!(list.len(), 2);
    assert!(list[0].is_unbonding);
    assert_eq!(list[0].delegators_count, 1);
    assert_eq!(list[1].total_stake, 200);
    next.clear_unbonding_validator_ids();
    next.clear_auto_unbonding_validator_ids();
    assert!(next.contains_validator(&s("a")));
    assert_eq!(next.validator_count(), 2);
    assert_eq!(next.total_stake(), 310);
    assert_eq!(next.era_number(), 1);
}

#[test]
fn id_lists() {
    let ids = vec![s("a"), s("b")];
    assert!(contains_id(&ids, &s("b")));
    assert!(!contains_id(&ids, &s("c")));
    assert_eq!(copy_ids(&ids), ids);
}

#[test]
fn validator_set_of_era_lists_validators_once_ready() {
    let mut set = ValidatorSetOfEra::new(2, 9, 100, 1000);
    assert_eq!(set.era_number(), 2);
    assert_eq!(set.staking_history_index(), 9);
    assert_eq!(set.start_timestamp(), 1000);
    assert_eq!(
        set.processing_status(),
        ValidatorSetProcessingStatus::CopyingFromLastEra { copying_validator_index: 0, copying_delegator_index: 0 }
    );
    set.apply_staking_fact(&registered("a", 100), 1, 1);
    set.apply_staking_fact(&delegated("x", "a", 10), 1, 1);
    assert_eq!(set.get_validator_list().len(), 0);
    set.set_processing_status(ValidatorSetProcessingStatus::ReadyForDistributingReward);
    let list = set.get_validator_list();
    assert_eq!(list.len(), 1);
    assert_eq!(list[0].total_stake, 110);
    assert_eq!(list[0].delegators_count, 1);
    let info = set.to_validator_set_info();
    assert_eq!(info.era_number, 2);
    assert_eq!(info.total_stake, 110);
    assert_eq!(info.validator_list.len(), 1);
    set.set_validator_reward(&s("a"), 5);
    set.set_delegator_reward(&s("x"), &s("a"), 6);
    assert_eq!(set.get_validator_rewards_of(&s("a")), Some(5));
    assert_eq!(set.get_delegator_rewards_of(&s("x"), &s("a")), Some(6));
    set.clear_reward_distribution_records();
    assert_eq!(set.get_validator_rewards_of(&s("a")), None);
    assert_eq!(set.get_delegator_rewards_of(&s("x"), &s("a")), None);
    set.set_unprofitable_validator_ids(vec![s("a")]);
    set.calculate_valid_total_stake();
    assert_eq!(set.valid_total_stake(), 0);
    // the rewards of an unprofitable validator are kept by the clearing
    set.set_validator_reward(&s("a"), 7);
    set.clear_reward_distribution_records();
    assert_eq!(set.get_validator_rewards_of(&s("a")), Some(7));
    assert_eq!(set.unprofitable_validator_ids(), Vec::<String>::new());
    set.clear();
    assert_eq!(set.validator_count(), 0);
}

#[test]
fn delegations_are_listed_from_both_ends() {
    let mut set = sample_set();
    set.apply_staking_fact(&StakingFact::DelegatorUnbonded { delegator_id: s("y"), validator_id: s("a"), amount: 24 }, 3, 4);
    for v in ["a", "b", "c"] {
        for d in ["x", "y", "z"] {
            let by_validator = set.get_delegator_ids_of(&s(v)).contains(&s(d));
            let by_delegator = set.get_validator_ids_of(&s(d)).contains(&s(v));
            assert_eq!(by_validator, by_delegator);
            assert_eq!(by_validator, set.get_delegator(&s(d), &s(v)).is_some());
        }
    }
    assert_eq!(set.get_validator_ids_of(&s("x")), vec![s("a"), s("b")]);
    assert_eq!(set.get_validator_ids_of(&s("y")), Vec::<String>::new());
}

#[test]
fn a_delegation_registered_increased_and_unbonded_leaves_the_set_as_it_was() {
    let before = sample_set();
    let mut set = sample_set();
    set.apply_staking_fact(&delegated("z", "b", 7), 5, 6);
    set.apply_staking_fact(&StakingFact::DelegationIncreased { delegator_id: s("z"), validator_id: s("b"), amount: 3 }, 5, 6);
    assert_eq!(set.get_validator(&s("b")).unwrap().total_stake, before.get_validator(&s("b")).unwrap().total_stake + 10);
    set.apply_staking_fact(&StakingFact::DelegatorUnbonded { delegator_id: s("z"), validator_id: s("b"), amount: 10 }, 5, 6);
    assert_eq!(set.total_stake(), before.total_stake());
    assert_eq!(set.get_validator_ids(), before.get_validator_ids());
    for v in ["a", "b"] {
        assert_eq!(set.get_validator(&s(v)), before.get_validator(&s(v)));
        assert_eq!(set.get_delegator_ids_of(&s(v)), before.get_delegator_ids_of(&s(v)));
        for d in set.get_delegator_ids_of(&s(v)) {
            assert_eq!(set.get_delegator(&d, &s(v)), before.get_delegator(&d, &s(v)));
        }
    }
    assert_eq!(set.get_validator_ids_of(&s("z")), Vec::<String>::new());
}

fn assert_same_set(set: &ValidatorSet, before: &ValidatorSet) {
    assert_eq!(set.total_stake(), before.total_stake());
    assert_eq!(set.get_validator_ids(), before.get_validator_ids());
    for v in before.get_validator_ids() {
        assert_eq!(set.get_validator(&v), before.get_validator(&v));
        assert_eq!(set.get_delegator_ids_of(&v), before.get_delegator_ids_of(&v));
        for d in before.get_delegator_ids_of(&v) {
            assert_eq!(set.get_delegator(&d, &v), before.get_delegator(&d, &v));
        }
    }
}

#[test]
fn a_stake_increased_and_decreased_by_the_same_amount_leaves_the_set_as_it_was() {
    let before = sample_set();
    let mut set = sample_set();
    set.apply_staking_fact(&StakingFact::StakeIncreased { validator_id: s("a"), amount: 9 }, 7, 8);
    set.apply_staking_fact(&StakingFact::StakeDecreased { validator_id: s("a"), amount: 9 }, 7, 8);
    assert_same_set(&set, &before);
}

#[test]
fn a_validator_registered_and_unbonded_leaves_the_set_as_it_was() {
    let before = sample_set();
    let mut set = sample_set();
    set.apply_staking_fact(&registered("c", 50), 7, 8);
    assert!(set.get_validator(&s("c")).is_some());
    set.apply_staking_fact(&StakingFact::ValidatorUnbonded { validator_id: s("c"), amount: 0 }, 7, 8);
    assert!(set.get_validator(&s("c")).is_none());
    assert_same_set(&set, &before);
}

#[test]
fn a_delegation_increased_twice_and_unbonded_leaves_the_set_as_it_was() {
    let before = sample_set();
    let mut set = sample_set();
    set.apply_staking_fact(&delegated("z", "a", 7), 5, 6);
    for amount in [3u128, 4] {
        set.apply_staking_fact(&StakingFact::DelegationIncreased { delegator_id: s("z"), validator_id: s("a"), amount }, 5, 6);
    }
    assert_eq!(set.get_delegator(&s("z"), &s("a")).unwrap().deposit_amount, 14);
    set.apply_staking_fact(&StakingFact::DelegatorUnbonded { delegator_id: s("z"), validator_id: s("a"), amount: 0 }, 5, 6);
    assert_same_set(&set, &before);
}
