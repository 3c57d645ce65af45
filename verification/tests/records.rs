use appchain_anchor::lookup_array::LookupArray;
use appchain_anchor::profiles::{ValidatorProfile, ValidatorProfiles};
use appchain_anchor::rewards::{commission_reward, share_reward, total_reward_of_validator, OCT_DECIMALS_VALUE};
use appchain_anchor::text::{decimal_string, status_string};
use appchain_anchor::histories::AppchainMessageProcessingResults;
use appchain_anchor::types::{
    AppchainMessageProcessingResult, MultiTxsOperationProcessingResult, StakingFact, StakingHistory,
    ValidatorSetProcessingStatus,
};
use appchain_anchor::unbonded_stakes::{UnbondedStakeReference, UnbondedStakes};

fn history(n: u128) -> StakingHistory {
    StakingHistory {
        staking_fact: StakingFact::StakeIncreased { validator_id: "v.near".to_string(), amount: n },
        block_height: 1,
        timestamp: 2,
        index: 999,
    }
}

fn filled(count: u128) -> LookupArray<StakingHistory> {
    let mut arr = LookupArray::new();
    for n in 0..count {
        arr.append(history(n));
    }
    arr
}

#[test]
fn lookup_array_append_sets_index() {
    let mut arr: LookupArray<StakingHistory> = LookupArray::new();
    assert_eq!(arr.index_range().start_index, 0);
    assert_eq!(arr.index_range().end_index, 0);
    assert!(arr.get(&0).is_none());
    assert_eq!(arr.append(history(5)), 0);
    assert_eq!(arr.append(history(6)), 1);
    assert_eq!(arr.get(&0).unwrap().index, 0);
    assert_eq!(arr.get(&1).unwrap().index, 1);
    assert_eq!(arr.index_range().end_index, 1);
    assert!(arr.contains(&1));
    assert!(!arr.contains(&2));
}

#[test]
fn lookup_array_remove_before_and_reset_to() {
    let mut arr = filled(6);
    arr.remove_before(&2);
    assert_eq!(arr.index_range().start_index, 2);
    assert_eq!(arr.index_range().end_index, 5);
    assert!(arr.get(&1).is_none());
    assert!(arr.get(&2).is_some());
    arr.reset_to(&3);
    assert_eq!(arr.index_range().end_index, 3);
    assert!(arr.get(&4).is_none());
    assert!(arr.get(&3).is_some());
}

#[test]
fn lookup_array_take_and_remove_at() {
    let mut arr = filled(3);
    let taken = arr.take(&1).unwrap();
    assert_eq!(taken.index, 1);
    assert!(arr.take(&1).is_none());
    arr.remove_at(&0);
    assert!(arr.get(&0).is_none());
    assert_eq!(arr.index_range().end_index, 2);
}

#[test]
fn lookup_array_clear_in_steps() {
    let mut arr = filled(5);
    assert_eq!(arr.clear(2), MultiTxsOperationProcessingResult::NeedMoreGas);
    assert_eq!(arr.index_range().start_index, 2);
    assert!(arr.get(&1).is_none());
    assert!(arr.get(&2).is_some());
    assert_eq!(arr.clear(2), MultiTxsOperationProcessingResult::NeedMoreGas);
    assert_eq!(arr.clear(2), MultiTxsOperationProcessingResult::Finished);
    assert_eq!(arr.index_range().start_index, 0);
    assert_eq!(arr.index_range().end_index, 0);
    assert!(arr.get(&4).is_none());
}

#[test]
fn lookup_array_clear_range_empties() {
    let mut arr = filled(4);
    arr.clear_range();
    for i in 0..4u64 {
        assert!(arr.get(&i).is_none());
    }
    assert_eq!(arr.index_range().end_index, 0);
}

#[test]
fn lookup_array_slices() {
    let arr = filled(60);
    let all = arr.get_slice_of(&0, None);
    assert_eq!(all.len(), 50);
    assert_eq!(all[0].index, 0);
    assert_eq!(all[49].index, 49);
    let some = arr.get_slice_of(&55, Some(10));
    assert_eq!(some.len(), 5);
    assert_eq!(some[0].index, 55);
    let few = arr.get_slice_of(&3, Some(2));
    assert_eq!(few.len(), 2);
    assert_eq!(few[1].index, 4);
    let capped = arr.get_slice_of(&0, Some(80));
    assert_eq!(capped.len(), 50);
}

#[test]
fn lookup_array_insert_extends_end() {
    let mut arr = filled(1);
    arr.insert(&7, history(7));
    assert_eq!(arr.index_range().end_index, 7);
    assert!(arr.get(&7).is_some());
    assert!(arr.get(&3).is_none());
}

#[test]
fn unbonded_stakes_per_account() {
    let mut s = UnbondedStakes::new();
    let alice = "alice.near".to_string();
    let bob = "bob.near".to_string();
    assert!(!s.contains_account(&alice));
    let r1 = UnbondedStakeReference { era_number: 1, staking_history_index: 4 };
    let r2 = UnbondedStakeReference { era_number: 2, staking_history_index: 9 };
    s.add(&alice, r1);
    s.add(&bob, r2);
    s.add(&alice, r2);
    assert!(s.contains_account(&alice));
    assert_eq!(s.get_stakes_of(&alice), vec![r1, r2]);
    assert_eq!(s.get_stakes_of(&bob), vec![r2]);
    s.replace_stakes_of(&alice, vec![r2]);
    assert_eq!(s.get_stakes_of(&alice), vec![r2]);
    s.replace_stakes_of(&alice, Vec::new());
    assert!(!s.contains_account(&alice));
    assert_eq!(s.get_stakes_of(&bob), vec![r2]);
}

#[test]
fn validator_profiles_by_both_ids() {
    let mut p = ValidatorProfiles::new();
    assert!(p.get(&"v.near".to_string()).is_none());
    p.insert(ValidatorProfile {
        validator_id: "v.near".to_string(),
        validator_id_in_appchain: "0xab".to_string(),
        profile: vec![("name".to_string(), "V".to_string())],
    });
    assert_eq!(p.get(&"v.near".to_string()).unwrap().validator_id_in_appchain, "0xab".to_string());
    assert_eq!(p.get_by_id_in_appchain(&"0xab".to_string()).unwrap().validator_id, "v.near".to_string());
    p.insert(ValidatorProfile {
        validator_id: "v.near".to_string(),
        validator_id_in_appchain: "0xcd".to_string(),
        profile: Vec::new(),
    });
    assert!(p.get_by_id_in_appchain(&"0xab".to_string()).is_none());
    assert_eq!(p.get(&"v.near".to_string()).unwrap().validator_id_in_appchain, "0xcd".to_string());
}

#[test]
fn decimal_text() {
    assert_eq!(decimal_string(0), "0".to_string());
    assert_eq!(decimal_string(7), "7".to_string());
    assert_eq!(decimal_string(1024), "1024".to_string());
    assert_eq!(decimal_string(u128::MAX), u128::MAX.to_string());
}

#[test]
fn status_text_of_each_variant() {
    assert_eq!(
        status_string(&ValidatorSetProcessingStatus::CopyingFromLastEra { copying_validator_index: 1, copying_delegator_index: 2 }),
        "CopyingFromLastEra { copying_validator_index: U64(1), copying_delegator_index: U64(2) }".to_string()
    );
    assert_eq!(
        status_string(&ValidatorSetProcessingStatus::ApplyingStakingHistory { applying_index: 30 }),
        "ApplyingStakingHistory { applying_index: U64(30) }".to_string()
    );
    assert_eq!(status_string(&ValidatorSetProcessingStatus::ReadyForDistributingReward), "ReadyForDistributingReward".to_string());
    assert_eq!(status_string(&ValidatorSetProcessingStatus::Completed), "Completed".to_string());
    assert_eq!(
        status_string(&ValidatorSetProcessingStatus::DistributingReward {
            appchain_message_nonce: 5,
            distributing_validator_index: 0,
            distributing_delegator_index: 3,
        }),
        "DistributingReward { appchain_message_nonce: 5, distributing_validator_index: U64(0), distributing_delegator_index: U64(3) }"
            .to_string()
    );
    assert_eq!(
        status_string(&ValidatorSetProcessingStatus::CheckingForAutoUnbondingValidator { unprofitable_validator_index: 4 }),
        "CheckingForAutoUnbondingValidator { unprofitable_validator_index: U64(4) }".to_string()
    );
}

#[test]
fn reward_formulas() {
    let oct = OCT_DECIMALS_VALUE;
    // 1000 reward, validator holds 30 of 120 OCT of valid stake: 1000 * 30 / 120
    assert_eq!(total_reward_of_validator(1000, 30 * oct, 120 * oct), 250);
    // fractions of an OCT do not count
    assert_eq!(total_reward_of_validator(1000, 30 * oct + oct / 2, 120 * oct), 250);
    assert_eq!(commission_reward(250, 20), 50);
    assert_eq!(commission_reward(99, 20), 19);
    assert_eq!(share_reward(200, 10 * oct, 30 * oct), 66);
    assert_eq!(share_reward(200, 20 * oct, 30 * oct), 133);
}

#[test]
fn processing_results_are_read_in_order_of_first_record() {
    let mut r = AppchainMessageProcessingResults::new();
    r.insert_processing_result(7, AppchainMessageProcessingResult::Processed { nonce: 7, message: None });
    r.insert_processing_result(3, AppchainMessageProcessingResult::Error { nonce: 3, message: "e".to_string() });
    r.insert_processing_result(7, AppchainMessageProcessingResult::Error { nonce: 7, message: "x".to_string() });
    assert_eq!(
        r.get_processing_result(7),
        Some(&AppchainMessageProcessingResult::Error { nonce: 7, message: "x".to_string() })
    );
    assert_eq!(r.index_range().start_index, 0);
    assert_eq!(r.index_range().end_index, 1);
    assert_eq!(
        r.get_processing_results(&0, None),
        vec![
            &AppchainMessageProcessingResult::Error { nonce: 7, message: "x".to_string() },
            &AppchainMessageProcessingResult::Error { nonce: 3, message: "e".to_string() },
        ]
    );
    assert_eq!(
        r.get_processing_results(&1, Some(5)),
        vec![&AppchainMessageProcessingResult::Error { nonce: 3, message: "e".to_string() }]
    );
}

#[test]
fn slices_reach_the_largest_index() {
    let mut l: LookupArray<u32> = LookupArray::new();
    l.append(1);
    l.append(2);
    // a start far past the end reads nothing, without overflow
    assert!(l.get_slice_of(&(u64::MAX - 10), None).is_empty());
    assert!(l.get_slice_of(&u64::MAX, Some(3)).is_empty());
    assert_eq!(l.get_slice_of(&0, Some(1)), vec![&1]);
}

#[test]
fn appends_number_records_from_zero() {
    let mut arr: LookupArray<StakingHistory> = LookupArray::new();
    for n in 0..6u64 {
        assert_eq!(arr.append(history(n as u128)), n);
        assert_eq!(arr.get(&n).unwrap().index, n);
    }
}

#[test]
fn the_shares_of_an_era_reward_add_up_to_no_more_than_it() {
    let stakes = [100 * OCT_DECIMALS_VALUE, 200 * OCT_DECIMALS_VALUE, 300 * OCT_DECIMALS_VALUE + 5];
    let valid: u128 = stakes.iter().sum();
    let shares: Vec<u128> = stakes.iter().map(|s| total_reward_of_validator(1000, *s, valid)).collect();
    assert_eq!(shares, vec![166, 333, 500]);
    assert!(shares.iter().sum::<u128>() <= 1000);
}

#[test]
fn clearing_processing_results_in_steps() {
    let mut r = AppchainMessageProcessingResults::new();
    for nonce in [7u32, 3, 9] {
        r.insert_processing_result(nonce, AppchainMessageProcessingResult::Processed { nonce, message: None });
    }
    assert_eq!(r.clear(1), MultiTxsOperationProcessingResult::NeedMoreGas);
    assert!(r.get_processing_result(7).is_none());
    assert!(r.get_processing_result(3).is_some());
    assert_eq!(r.index_range().start_index, 1);
    assert_eq!(r.clear(5), MultiTxsOperationProcessingResult::Finished);
    assert!(r.get_processing_result(3).is_none());
    // the result of the nonce at the last index is kept
    assert!(r.get_processing_result(9).is_some());
    assert_eq!((r.index_range().start_index, r.index_range().end_index), (0, 0));
    assert_eq!(r.get_processing_results(&0, None), Vec::<&AppchainMessageProcessingResult>::new());
}
