use appchain_anchor::anchor::AppchainAnchor;
use appchain_anchor::decoding::{decode_payload, decode_raw_messages};
use appchain_anchor::errors::AnchorError;
use appchain_anchor::messages::{
    AppchainEvent, BurnAssetPayload, EraPayoutPayload, MessagePayload, Offender, PayloadType, PlanNewEraPayload,
    RawMessage,
};
use appchain_anchor::types::{AppchainMessageProcessingResult, AppchainTemplateType};
use borsh::BorshSerialize;
use parity_scale_codec::Encode;

fn borsh<T: BorshSerialize>(t: &T) -> Vec<u8> {
    t.try_to_vec().unwrap()
}

fn anchor() -> AppchainAnchor {
    AppchainAnchor::new(
        "myappchain".to_string(),
        AppchainTemplateType::Barnacle,
        "registry.near".to_string(),
        "oct.near".to_string(),
        "octopus.near".to_string(),
    )
}

#[test]
fn raw_messages_decode_from_scale() {
    let burn = borsh(&("usdt.near".to_string(), "0xaa".to_string(), "r.near".to_string(), 10u128));
    let era = borsh(&4u32);
    let encoded = vec![(1u64, 1u8, burn.clone()), (2u64, 2u8, era.clone())].encode();
    let raws = decode_raw_messages(&encoded).unwrap();
    assert_eq!(
        raws,
        vec![
            RawMessage { nonce: 1, payload_type: PayloadType::BurnAsset, payload: burn },
            RawMessage { nonce: 2, payload_type: PayloadType::PlanNewEra, payload: era },
        ]
    );
    // a kind byte that stands for no kind
    let bad = vec![(1u64, 5u8, Vec::<u8>::new())].encode();
    assert_eq!(decode_raw_messages(&bad), Err(AnchorError::InvalidAppchainMessages));
    // bytes that do not decode as a list
    assert_eq!(decode_raw_messages(&[8u8]), Err(AnchorError::InvalidAppchainMessages));
    assert_eq!(decode_raw_messages(&Vec::<(u64, u8, Vec<u8>)>::new().encode()), Ok(Vec::new()));
}

#[test]
fn payloads_decode_from_borsh() {
    let raw = |payload_type: PayloadType, payload: Vec<u8>| RawMessage { nonce: 1, payload_type, payload };
    let burn = borsh(&("usdt.near".to_string(), "0xaa".to_string(), "r.near".to_string(), 10u128));
    assert_eq!(
        decode_payload(&raw(PayloadType::BurnAsset, burn)),
        Ok(MessagePayload::BurnAsset(BurnAssetPayload {
            token_id: "usdt.near".to_string(),
            sender: "0xaa".to_string(),
            receiver_id: "r.near".to_string(),
            amount: 10,
        }))
    );
    assert_eq!(
        decode_payload(&raw(PayloadType::PlanNewEra, borsh(&7u32))),
        Ok(MessagePayload::PlanNewEra(PlanNewEraPayload { new_era: 7 }))
    );
    let payout = borsh(&(
        3u32,
        vec!["0x01".to_string()],
        vec![("im-online".to_string(), "0x02".to_string(), 2u32)],
    ));
    assert_eq!(
        decode_payload(&raw(PayloadType::EraPayout, payout)),
        Ok(MessagePayload::EraPayout(EraPayoutPayload {
            end_era: 3,
            excluded_validators: vec!["0x01".to_string()],
            offenders: vec![Offender { kind: "im-online".to_string(), who: "0x02".to_string(), offences: 2 }],
        }))
    );
    assert_eq!(
        decode_payload(&raw(PayloadType::Lock, vec![1, 2])),
        Err("The payload does not decode.".to_string())
    );
}

#[test]
fn encoded_messages_are_staged() {
    let mut a = anchor();
    let burn = borsh(&("usdt.near".to_string(), "0xaa".to_string(), "r.near".to_string(), 10u128));
    let encoded = vec![(1u64, 1u8, burn), (2u64, 0u8, vec![9u8])].encode();
    assert_eq!(a.stage_encoded_messages(&encoded), Ok(()));
    assert_eq!(
        a.appchain_messages.get_message(&1).unwrap().appchain_event,
        AppchainEvent::NearFungibleTokenBurnt {
            contract_account: "usdt.near".to_string(),
            owner_id_in_appchain: "0xaa".to_string(),
            receiver_id_in_near: "r.near".to_string(),
            amount: 10,
        }
    );
    assert_eq!(
        a.appchain_messages.get_processing_result(&2),
        Some(&AppchainMessageProcessingResult::Error {
            nonce: 2,
            message: "Failed to deserialize raw message payload: The payload does not decode.".to_string(),
        })
    );
    assert_eq!(a.permissionless_actions_status.max_nonce_of_staged_appchain_messages, 1);
    let mut b = anchor();
    assert_eq!(b.stage_encoded_messages(&[3u8]), Err(AnchorError::InvalidAppchainMessages));
    assert!(b.appchain_messages.get_message(&1).is_none());
}
