use appchain_anchor::anchor::AppchainAnchor;
use appchain_anchor::errors::AnchorError;
use appchain_anchor::nfts::{InternalWrappedAppchainNFT, NftContractMetadata};
use appchain_anchor::rewards::OCT_DECIMALS_VALUE;
use appchain_anchor::types::{
    AppchainNotification, AppchainTemplateType, MultiTxsOperationProcessingResult, StakingFact, StakingHistory,
};
use appchain_anchor::unbonded_stakes::UnbondedStakeReference;

const OCT: u128 = OCT_DECIMALS_VALUE;

fn owner() -> String {
    "octopus.testnet".to_string()
}

fn here() -> String {
    "anchor.myappchain.testnet".to_string()
}

fn id_in_appchain(n: u8) -> String {
    let mut id = "0x".to_string();
    for _ in 0..63 {
        id.push('e');
    }
    id.push(char::from(b'0' + n));
    id
}

fn anchor() -> AppchainAnchor {
    let mut a = AppchainAnchor::new(
        "myappchain".to_string(),
        AppchainTemplateType::Barnacle,
        "registry.testnet".to_string(),
        "oct.testnet".to_string(),
        owner(),
    );
    for n in 0..3u8 {
        a.register_validator(format!("v{}.testnet", n), Some(id_in_appchain(n)), Vec::new(), 10_000 * OCT, true, 1, 10)
            .unwrap();
    }
    a
}

#[test]
fn only_testnet_anchors_are_cleaned_up() {
    let a = anchor();
    assert_eq!(a.assert_testnet(&here()), Ok(()));
    assert_eq!(a.assert_testnet(&".testnet".to_string()), Ok(()));
    assert_eq!(a.assert_testnet(&"anchor.myappchain.near".to_string()), Err(AnchorError::NotTestnet));
    assert_eq!(a.assert_testnet(&"testnet".to_string()), Err(AnchorError::NotTestnet));
    assert_eq!(a.assert_testnet(&"anchor.testnet.near".to_string()), Err(AnchorError::NotTestnet));
    let mut a = anchor();
    assert_eq!(
        a.clear_staking_histories(&"anchor.near".to_string(), &owner(), 10),
        Err(AnchorError::NotTestnet)
    );
    assert_eq!(a.clear_staking_histories(&here(), &"eve.testnet".to_string(), 10), Err(AnchorError::NotAuthorized));
    assert!(a.staking_histories.get(&0).is_some());
}

#[test]
fn clearing_staking_histories_in_steps() {
    let mut a = anchor();
    assert_eq!(a.clear_staking_histories(&here(), &owner(), 2), Ok(MultiTxsOperationProcessingResult::NeedMoreGas));
    assert!(a.staking_histories.get(&1).is_none());
    assert!(a.staking_histories.get(&2).is_some());
    assert_eq!(a.staking_histories.index_range().start_index, 2);
    assert_eq!(a.clear_staking_histories(&here(), &owner(), 2), Ok(MultiTxsOperationProcessingResult::Finished));
    assert!(a.staking_histories.get(&2).is_none());
    assert_eq!(a.staking_histories.index_range().end_index, 0);
}

#[test]
fn clearing_notifications_and_challenges() {
    let mut a = anchor();
    a.resolve_wrapped_appchain_token_minting(10, true);
    a.resolve_wrapped_appchain_token_burning("alice.testnet".to_string(), "0xabc".to_string(), 5, true, 1, 1).unwrap();
    assert_eq!(
        a.clear_appchain_notification_histories(&here(), &owner(), 5),
        Ok(MultiTxsOperationProcessingResult::Finished)
    );
    assert!(a.appchain_notification_histories.get(&0).is_none());
    assert_eq!(a.clear_appchain_challenges(&here(), &owner(), 5), Ok(MultiTxsOperationProcessingResult::Finished));
}

#[test]
fn clearing_the_next_validator_set() {
    let mut a = anchor();
    assert_eq!(a.clear_unbonding_flag_of_next_validator_set(&here(), &owner()), Ok(()));
    assert_eq!(a.next_validator_set.validator_count(), 3);
    assert_eq!(a.clear_next_validator_set(&here(), &owner()), Ok(MultiTxsOperationProcessingResult::Finished));
    assert_eq!(a.next_validator_set.validator_count(), 0);
    assert_eq!(a.next_validator_set.total_stake(), 0);
}

#[test]
fn clearing_registrations_and_profiles() {
    let mut a = anchor();
    a.register_near_fungible_token(&owner(), "USDT".to_string(), "Tether".to_string(), 6, "usdt.testnet".to_string(), 1)
        .unwrap();
    assert_eq!(a.clear_external_assets_registration(&here(), &"eve.testnet".to_string()), Err(AnchorError::NotAuthorized));
    assert!(a.near_fungible_tokens.contains(&"USDT".to_string()));
    assert_eq!(a.clear_external_assets_registration(&here(), &owner()), Ok(()));
    assert!(!a.near_fungible_tokens.contains(&"USDT".to_string()));
    assert!(a.validator_profiles.get(&"v0.testnet".to_string()).is_some());
    assert_eq!(a.clear_validator_profiles(&here(), &owner()), Ok(MultiTxsOperationProcessingResult::Finished));
    assert!(a.validator_profiles.get(&"v0.testnet".to_string()).is_none());
    assert_eq!(a.clear_user_staking_histories(&here(), &owner()), Ok(MultiTxsOperationProcessingResult::Finished));
    assert_eq!(a.user_staking_histories.len(), 0);
}

#[test]
fn removing_one_validator_set_history() {
    let mut a = anchor();
    a.internal_start_switching_era(0, 1, 100, 1_000);
    assert!(a.validator_set_histories.get(&0).is_some());
    assert_eq!(
        a.remove_validator_set_history_of(&"anchor.near".to_string(), &owner(), 0),
        Err(AnchorError::NotTestnet)
    );
    assert_eq!(
        a.remove_validator_set_history_of(&here(), &owner(), 0),
        Ok(MultiTxsOperationProcessingResult::Finished)
    );
    assert!(a.validator_set_histories.get(&0).is_none());
}

#[test]
fn agent_messages_are_notified() {
    let mut a = anchor();
    let h = a.deliver_appchain_agent_message("alice.testnet".to_string(), "hello".to_string(), 4, 40);
    assert_eq!(h.index, 0);
    assert_eq!(h.block_height, 4);
    assert_eq!(
        a.appchain_notification_histories.get(&0).unwrap().appchain_notification,
        AppchainNotification::AppchainAgentMessageSigned {
            sender_id_in_near: "alice.testnet".to_string(),
            message: "hello".to_string(),
        }
    );
    let h = a.deliver_appchain_agent_message("bob.testnet".to_string(), "again".to_string(), 5, 50);
    assert_eq!(h.index, 1);
}

#[test]
fn clearing_unbonded_stakes_of_unbonding_accounts() {
    let mut a = anchor();
    let r = UnbondedStakeReference { era_number: 0, staking_history_index: 3 };
    a.unbonded_stakes.add(&"v1.testnet".to_string(), r);
    a.unbonded_stakes.add(&"d.testnet".to_string(), r);
    a.unbonded_stakes.add(&"other.testnet".to_string(), r);
    a.staking_histories.append(StakingHistory {
        staking_fact: StakingFact::ValidatorUnbonded { validator_id: "v1.testnet".to_string(), amount: 1 },
        block_height: 5,
        timestamp: 50,
        index: 0,
    });
    a.staking_histories.append(StakingHistory {
        staking_fact: StakingFact::DelegatorUnbonded {
            delegator_id: "d.testnet".to_string(),
            validator_id: "v0.testnet".to_string(),
            amount: 1,
        },
        block_height: 5,
        timestamp: 50,
        index: 0,
    });
    assert_eq!(a.clear_unbonded_stakes(&"anchor.near".to_string(), &owner()), Err(AnchorError::NotTestnet));
    assert!(a.unbonded_stakes.contains_account(&"v1.testnet".to_string()));
    assert_eq!(a.clear_unbonded_stakes(&here(), &owner()), Ok(()));
    assert!(!a.unbonded_stakes.contains_account(&"v1.testnet".to_string()));
    assert!(!a.unbonded_stakes.contains_account(&"d.testnet".to_string()));
    assert_eq!(a.unbonded_stakes.get_stakes_of(&"other.testnet".to_string()), vec![r]);
}

#[test]
fn clearing_registrations_removes_wrapped_nft_classes() {
    let mut a = anchor();
    let metadata = NftContractMetadata {
        spec: "nft-1.0.0".to_string(),
        name: "Art".to_string(),
        symbol: "ART".to_string(),
        icon: None,
        base_uri: None,
        reference: None,
        reference_hash: None,
    };
    a.wrapped_appchain_nfts.insert("art".to_string(), InternalWrappedAppchainNFT::new("art".to_string(), metadata, &here()));
    assert_eq!(a.wrapped_appchain_nfts.to_vec().len(), 1);
    assert_eq!(a.clear_external_assets_registration(&here(), &"eve.testnet".to_string()), Err(AnchorError::NotAuthorized));
    assert_eq!(a.wrapped_appchain_nfts.to_vec().len(), 1);
    assert_eq!(a.clear_external_assets_registration(&here(), &owner()), Ok(()));
    assert!(a.wrapped_appchain_nfts.to_vec().is_empty());
}
