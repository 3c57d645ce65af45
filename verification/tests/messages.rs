use appchain_anchor::anchor::AppchainAnchor;
use appchain_anchor::balance_map::BalanceMap;
use appchain_anchor::messages::{
    AppchainEvent, AppchainMessage, AppchainMessages, BurnAssetPayload, EraPayoutPayload, LockNftPayload, LockPayload,
    MessagePayload, PayloadType, PlanNewEraPayload, RawMessage, TokenMetadata,
};
use appchain_anchor::rewards::{add_amount, RewardDistributionRecords};
use appchain_anchor::types::{AppchainMessageProcessingResult, AppchainTemplateType};

fn new_anchor() -> AppchainAnchor {
    AppchainAnchor::new(
        "myappchain".to_string(),
        AppchainTemplateType::BarnacleEvm,
        "registry.near".to_string(),
        "oct.near".to_string(),
        "octopus.near".to_string(),
    )
}

fn raw(nonce: u64, payload_type: PayloadType) -> RawMessage {
    RawMessage { nonce, payload_type, payload: vec![1, 2, 3] }
}

fn empty_metadata() -> TokenMetadata {
    TokenMetadata {
        title: Some("t".to_string()),
        description: None,
        media: None,
        media_hash: None,
        copies: Some(1),
        issued_at: None,
        expires_at: None,
        starts_at: None,
        updated_at: None,
        extra: None,
        reference: None,
        reference_hash: None,
    }
}

fn message(nonce: u32) -> AppchainMessage {
    AppchainMessage { appchain_event: AppchainEvent::EraSwitchPlaned { era_number: nonce }, nonce }
}

#[test]
fn raw_message_nonce_truncates() {
    assert_eq!(raw(5, PayloadType::Lock).nonce(), 5);
    assert_eq!(raw((1u64 << 32) + 7, PayloadType::Lock).nonce(), 7);
}

#[test]
fn appchain_messages_track_nonce_range() {
    let mut m = AppchainMessages::new();
    assert_eq!(m.min_nonce(), 0);
    assert_eq!(m.max_nonce(), 0);
    m.insert_message(message(5));
    assert_eq!(m.min_nonce(), 5);
    assert_eq!(m.max_nonce(), 5);
    m.insert_message(message(3));
    m.insert_message(message(9));
    assert_eq!(m.min_nonce(), 3);
    assert_eq!(m.max_nonce(), 9);
    // a staged nonce is kept as it is
    m.insert_message(AppchainMessage { appchain_event: AppchainEvent::EraSwitchPlaned { era_number: 77 }, nonce: 5 });
    assert_eq!(m.get_message(&5), Some(&message(5)));
    let got = m.get_messages(&3, Some(4));
    assert_eq!(got.len(), 2);
    assert_eq!(got[0].nonce, 3);
    assert_eq!(got[1].nonce, 5);
    assert_eq!(m.get_messages(&0, None).len(), 3);
}

#[test]
fn processing_results_are_recorded_once() {
    let mut m = AppchainMessages::new();
    m.insert_processing_result(2, AppchainMessageProcessingResult::Processed { nonce: 2, message: None });
    m.insert_processing_result(2, AppchainMessageProcessingResult::Error { nonce: 2, message: "x".to_string() });
    assert_eq!(m.get_processing_result(&2), Some(&AppchainMessageProcessingResult::Processed { nonce: 2, message: None }));
    assert!(m.get_processing_result(&3).is_none());
    m.insert_processing_result(4, AppchainMessageProcessingResult::Processed { nonce: 4, message: None });
    assert_eq!(m.get_processing_results(&0, Some(10)).len(), 2);
}

#[test]
fn removing_messages_before_a_nonce() {
    let mut m = AppchainMessages::new();
    for n in 1..6u32 {
        m.insert_message(message(n));
        m.insert_processing_result(n, AppchainMessageProcessingResult::Processed { nonce: n, message: None });
    }
    m.remove_messages_before(&4);
    assert_eq!(m.min_nonce(), 4);
    assert_eq!(m.max_nonce(), 5);
    assert!(m.get_message(&3).is_none());
    assert!(m.get_processing_result(&1).is_none());
    assert!(m.get_message(&4).is_some());
}

#[test]
fn staging_each_kind_of_payload() {
    let mut a = new_anchor();
    a.internal_stage_raw_message(
        &raw(1, PayloadType::BurnAsset),
        Ok(MessagePayload::BurnAsset(BurnAssetPayload {
            token_id: "usdt.near".to_string(),
            sender: "0xaa".to_string(),
            receiver_id: "r.near".to_string(),
            amount: 10,
        })),
    );
    a.internal_stage_raw_message(
        &raw(2, PayloadType::Lock),
        Ok(MessagePayload::Lock(LockPayload { sender: "0xbb".to_string(), receiver_id: "r.near".to_string(), amount: 11 })),
    );
    a.internal_stage_raw_message(
        &raw(3, PayloadType::PlanNewEra),
        Ok(MessagePayload::PlanNewEra(PlanNewEraPayload { new_era: 4 })),
    );
    a.internal_stage_raw_message(
        &raw(4, PayloadType::LockNft),
        Ok(MessagePayload::LockNft(LockNftPayload {
            sender: "0xcc".to_string(),
            receiver_id: "r.near".to_string(),
            class: 12,
            instance: 340,
            metadata: empty_metadata(),
        })),
    );
    let m = &a.appchain_messages;
    assert_eq!(
        m.get_message(&1).unwrap().appchain_event,
        AppchainEvent::NearFungibleTokenBurnt {
            contract_account: "usdt.near".to_string(),
            owner_id_in_appchain: "0xaa".to_string(),
            receiver_id_in_near: "r.near".to_string(),
            amount: 10,
        }
    );
    assert_eq!(
        m.get_message(&2).unwrap().appchain_event,
        AppchainEvent::NativeTokenLocked {
            owner_id_in_appchain: "0xbb".to_string(),
            receiver_id_in_near: "r.near".to_string(),
            amount: 11,
        }
    );
    assert_eq!(m.get_message(&3).unwrap().appchain_event, AppchainEvent::EraSwitchPlaned { era_number: 4 });
    assert_eq!(
        m.get_message(&4).unwrap().appchain_event,
        AppchainEvent::NonFungibleTokenLocked {
            owner_id_in_appchain: "0xcc".to_string(),
            receiver_id_in_near: "r.near".to_string(),
            class_id: "12".to_string(),
            instance_id: "340".to_string(),
            token_metadata: empty_metadata(),
        }
    );
    assert_eq!(m.min_nonce(), 1);
    assert_eq!(m.max_nonce(), 4);
}

#[test]
fn undecodable_payloads_become_errors() {
    let mut a = new_anchor();
    a.internal_stage_raw_message(&raw(7, PayloadType::BurnAsset), Err("bad".to_string()));
    a.internal_stage_raw_message(&raw(8, PayloadType::Lock), Err("worse".to_string()));
    assert_eq!(
        a.appchain_messages.get_processing_result(&7),
        Some(&AppchainMessageProcessingResult::Error {
            nonce: 7,
            message: "Failed to deserialize raw message paylod: bad".to_string(),
        })
    );
    assert_eq!(
        a.appchain_messages.get_processing_result(&8),
        Some(&AppchainMessageProcessingResult::Error {
            nonce: 8,
            message: "Failed to deserialize raw message payload: worse".to_string(),
        })
    );
    assert!(a.appchain_messages.get_message(&7).is_none());
}

#[test]
fn era_payout_of_staged_era_is_staged() {
    let mut a = new_anchor();
    a.internal_stage_raw_message(
        &raw(1, PayloadType::EraPayout),
        Ok(MessagePayload::EraPayout(EraPayoutPayload {
            end_era: 0,
            excluded_validators: vec!["0x01".to_string()],
            offenders: Vec::new(),
        })),
    );
    assert_eq!(
        a.appchain_messages.get_message(&1).unwrap().appchain_event,
        AppchainEvent::EraRewardConcluded {
            era_number: 0,
            unprofitable_validator_ids: vec!["0x01".to_string()],
            offenders: Vec::new(),
        }
    );
}

#[test]
fn staging_a_batch_skips_applied_nonces() {
    let mut a = new_anchor();
    a.permissionless_actions_status.latest_applied_appchain_message_nonce = 2;
    let batch = vec![
        (raw(1, PayloadType::PlanNewEra), Ok(MessagePayload::PlanNewEra(PlanNewEraPayload { new_era: 1 }))),
        (raw(2, PayloadType::PlanNewEra), Ok(MessagePayload::PlanNewEra(PlanNewEraPayload { new_era: 2 }))),
        (raw(3, PayloadType::PlanNewEra), Ok(MessagePayload::PlanNewEra(PlanNewEraPayload { new_era: 3 }))),
        (raw(4, PayloadType::Lock), Err("nope".to_string())),
    ];
    a.internal_stage_appchain_messages(batch);
    assert!(a.appchain_messages.get_message(&1).is_none());
    assert!(a.appchain_messages.get_message(&2).is_none());
    assert!(a.appchain_messages.get_message(&3).is_some());
    assert!(a.appchain_messages.get_processing_result(&4).is_some());
    assert_eq!(a.permissionless_actions_status.max_nonce_of_staged_appchain_messages, 3);
}

#[test]
fn balance_maps_add_up() {
    let mut m: BalanceMap<(u64, String)> = BalanceMap::new();
    let k = (3u64, "v.near".to_string());
    assert_eq!(m.get(&k), None);
    add_amount(&mut m, &k, 5);
    add_amount(&mut m, &k, 7);
    assert_eq!(m.get(&k), Some(12));
    m.insert(&(4, "v.near".to_string()), 1);
    assert_eq!(m.remove(&k), Some(12));
    assert_eq!(m.get(&k), None);
    assert_eq!(m.get(&(4, "v.near".to_string())), Some(1));
}

#[test]
fn reward_distribution_records() {
    let mut r = RewardDistributionRecords::new();
    let d = "d.near".to_string();
    let v = "v.near".to_string();
    assert!(!r.contains_record(1, 0, &d, &v));
    r.insert(1, 0, &d, &v);
    assert!(r.contains_record(1, 0, &d, &v));
    assert!(!r.contains_record(2, 0, &d, &v));
    assert!(!r.contains_record(1, 1, &d, &v));
    r.insert(3, 5, &d, &v);
    r.insert(1, 0, &String::new(), &v);
    r.insert(4, 0, &d, &v);
    assert_eq!(r.get_recorded_era_numbers(), vec![0u64, 5]);
    r.clear_era_number_set();
    assert_eq!(r.get_recorded_era_numbers(), Vec::<u64>::new());
    assert!(r.contains_record(3, 5, &d, &v));
}

#[test]
fn clearing_staged_messages_in_steps() {
    let mut ms = AppchainMessages::new();
    for nonce in 3..6u32 {
        ms.insert_message(AppchainMessage { appchain_event: AppchainEvent::EraSwitchPlaned { era_number: nonce }, nonce });
        ms.insert_processing_result(nonce, AppchainMessageProcessingResult::Processed { nonce, message: None });
    }
    assert_eq!((ms.min_nonce(), ms.max_nonce()), (3, 5));
    assert_eq!(ms.clear(2), appchain_anchor::types::MultiTxsOperationProcessingResult::NeedMoreGas);
    assert!(ms.get_message(&3).is_none() && ms.get_message(&4).is_none());
    assert!(ms.get_message(&5).is_some() && ms.get_processing_result(&5).is_some());
    assert_eq!((ms.min_nonce(), ms.max_nonce()), (5, 5));
    assert_eq!(ms.clear(2), appchain_anchor::types::MultiTxsOperationProcessingResult::Finished);
    assert!(ms.get_message(&5).is_none() && ms.get_processing_result(&5).is_none());
    assert_eq!((ms.min_nonce(), ms.max_nonce()), (0, 0));
}

#[test]
fn only_the_owner_of_a_testnet_anchor_clears_messages() {
    let mut a = new_anchor();
    let here = "anchor.myappchain.testnet".to_string();
    let owner = "octopus.near".to_string();
    assert_eq!(
        a.clear_appchain_messages(&"anchor.near".to_string(), &owner, 10),
        Err(appchain_anchor::errors::AnchorError::NotTestnet)
    );
    assert_eq!(
        a.clear_appchain_messages(&here, &"eve.near".to_string(), 10),
        Err(appchain_anchor::errors::AnchorError::NotAuthorized)
    );
    assert_eq!(
        a.clear_appchain_messages(&here, &owner, 10),
        Ok(appchain_anchor::types::MultiTxsOperationProcessingResult::Finished)
    );
}
