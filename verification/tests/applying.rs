use appchain_anchor::anchor::AppchainAnchor;
use appchain_anchor::applying::{AssetTransfer, MessageApplication};
use appchain_anchor::deposits::FTDepositMessage;
use appchain_anchor::errors::AnchorError;
use appchain_anchor::messages::{AppchainEvent, AppchainMessage};
use appchain_anchor::rewards::OCT_DECIMALS_VALUE;
use appchain_anchor::types::{AnchorEvent, AppchainMessageProcessingResult, AppchainTemplateType, MultiTxsOperationProcessingResult};

fn anchor() -> AppchainAnchor {
    let mut a = AppchainAnchor::new(
        "myappchain".to_string(),
        AppchainTemplateType::BarnacleEvm,
        "registry.near".to_string(),
        "oct.near".to_string(),
        "octopus.near".to_string(),
    );
    for n in 0..4u8 {
        let mut id = "0x".to_string();
        for _ in 0..39 {
            id.push('d');
        }
        id.push(char::from(b'0' + n));
        a.register_validator(format!("v{}.near", n), Some(id), Vec::new(), 10_000 * OCT_DECIMALS_VALUE, true, 1, 1)
            .unwrap();
    }
    a
}

fn message(nonce: u32, appchain_event: AppchainEvent) -> AppchainMessage {
    AppchainMessage { appchain_event, nonce }
}

#[test]
fn burnt_tokens_become_an_unlock() {
    let mut a = anchor();
    let owner = "octopus.near".to_string();
    a.register_near_fungible_token(&owner, "USDT".to_string(), "Tether".to_string(), 6, "usdt.near".to_string(), 1).unwrap();
    a.open_bridging_of_near_fungible_token(&owner, "USDT".to_string()).unwrap();
    let bridge = FTDepositMessage::BridgeToAppchain { receiver_id_in_appchain: "0xaa".to_string() };
    a.ft_on_transfer(&"usdt.near".to_string(), "s.near".to_string(), 5, bridge, 1, 1).unwrap();
    let burnt = |contract: &str, amount: u128| AppchainEvent::NearFungibleTokenBurnt {
        contract_account: contract.to_string(),
        owner_id_in_appchain: "0xaa".to_string(),
        receiver_id_in_near: "r.near".to_string(),
        amount,
    };
    assert_eq!(
        a.internal_apply_appchain_message(message(2, burnt("dai.near", 5)), 1, 1),
        Err(AnchorError::TokenContractNotRegistered("dai.near".to_string()))
    );
    assert_eq!(
        a.internal_apply_appchain_message(message(2, burnt("usdt.near", 6)), 1, 1),
        Err(AnchorError::NotEnoughLockedBalance)
    );
    assert_eq!(
        a.internal_apply_appchain_message(message(3, burnt("usdt.near", 5)), 1, 1),
        Ok(MessageApplication::Transfer {
            nonce: 3,
            transfer: AssetTransfer::UnlockNearFungibleToken {
                contract_account: "usdt.near".to_string(),
                owner_id_in_appchain: "0xaa".to_string(),
                receiver_id_in_near: "r.near".to_string(),
                amount: 5,
            },
        })
    );
    assert_eq!(a.near_fungible_tokens.get(&"USDT".to_string()).unwrap().locked_balance, 0);
    a.asset_transfer_is_paused = true;
    assert_eq!(
        a.internal_apply_appchain_message(message(4, burnt("usdt.near", 5)), 1, 1),
        Ok(MessageApplication::Applied(AppchainMessageProcessingResult::Error {
            nonce: 4,
            message: "Asset transfer is now paused.".to_string(),
        }))
    );
}

#[test]
fn locked_native_tokens_need_a_valid_owner() {
    let mut a = anchor();
    let mut owner = String::new();
    for _ in 0..40 {
        owner.push('E');
    }
    let event = AppchainEvent::NativeTokenLocked {
        owner_id_in_appchain: owner.clone(),
        receiver_id_in_near: "r.near".to_string(),
        amount: 9,
    };
    let mut formatted = "0x".to_string();
    for _ in 0..40 {
        formatted.push('e');
    }
    assert_eq!(
        a.internal_apply_appchain_message(message(5, event), 1, 1),
        Ok(MessageApplication::Transfer {
            nonce: 5,
            transfer: AssetTransfer::MintWrappedAppchainToken {
                owner_id_in_appchain: formatted,
                receiver_id_in_near: "r.near".to_string(),
                amount: 9,
            },
        })
    );
    let bad = AppchainEvent::NativeTokenLocked {
        owner_id_in_appchain: "0x1234".to_string(),
        receiver_id_in_near: "r.near".to_string(),
        amount: 9,
    };
    assert_eq!(
        a.internal_apply_appchain_message(message(6, bad), 1, 1),
        Err(AnchorError::InvalidValidatorIdInAppchain("0x1234".to_string()))
    );
}

#[test]
fn era_messages_start_switching_and_distribution() {
    let mut a = anchor();
    a.appchain_settings.era_reward = 100;
    let r = a.internal_apply_appchain_message(message(1, AppchainEvent::EraSwitchPlaned { era_number: 0 }), 7, 70);
    assert_eq!(r, Ok(MessageApplication::Applied(AppchainMessageProcessingResult::Processed { nonce: 1, message: None })));
    assert_eq!(a.permissionless_actions_status.switching_era_number, Some(0));
    let r = a.internal_apply_appchain_message(message(2, AppchainEvent::EraSwitchPlaned { era_number: 1 }), 7, 70);
    assert_eq!(
        r,
        Ok(MessageApplication::Applied(AppchainMessageProcessingResult::Error {
            nonce: 2,
            message: "Contract is still switching to era 0.".to_string(),
        }))
    );
    while a.try_complete_switching_era(7, 70) != MultiTxsOperationProcessingResult::Finished {}
    let payout = AppchainEvent::EraRewardConcluded {
        era_number: 0,
        unprofitable_validator_ids: Vec::new(),
        offenders: Vec::new(),
    };
    let r = a.internal_apply_appchain_message(message(3, payout), 8, 80);
    assert_eq!(
        r,
        Ok(MessageApplication::Transfer { nonce: 3, transfer: AssetTransfer::MintEraReward { amount: 100 } })
    );
    assert_eq!(a.permissionless_actions_status.distributing_reward_era_number, Some(0));
    // a second message of the era while its reward is being distributed mints nothing
    let again = AppchainEvent::EraRewardConcluded {
        era_number: 0,
        unprofitable_validator_ids: Vec::new(),
        offenders: Vec::new(),
    };
    assert_eq!(
        a.internal_apply_appchain_message(message(4, again), 8, 80),
        Ok(MessageApplication::Applied(AppchainMessageProcessingResult::Error {
            nonce: 4,
            message: "Contract is still distributing reward for era 0.".to_string(),
        }))
    );
}

#[test]
fn old_era_messages_are_refused() {
    let mut a = anchor();
    a.protocol_settings.maximum_era_count_of_valid_appchain_message = 1;
    for era in 0..4u32 {
        a.internal_apply_appchain_message(message(era + 1, AppchainEvent::EraSwitchPlaned { era_number: era }), 1, 1)
            .unwrap();
        while a.try_complete_switching_era(1, 1) != MultiTxsOperationProcessingResult::Finished {}
    }
    // the latest era is 3: an era before 2 is too old
    assert_eq!(
        a.internal_apply_appchain_message(message(9, AppchainEvent::EraSwitchPlaned { era_number: 1 }), 1, 1),
        Err(AnchorError::MessageTooOld)
    );
    assert_eq!(a.permissionless_actions_status.switching_era_number, None);
}

#[test]
fn minting_wrapped_tokens_is_limited_by_staked_value() {
    let mut a = anchor();
    // 40_000 whole OCT tokens at 3: the limit is 67 percent of 120_000
    a.oct_token.price_in_usd = 3;
    a.wrapped_appchain_token.metadata.decimals = 18;
    a.wrapped_appchain_token.price_in_usd = 2;
    a.wrapped_appchain_token.premined_balance = 40_000 * 1_000_000_000_000_000_000;
    let mut owner = "0x".to_string();
    for _ in 0..40 {
        owner.push('a');
    }
    let lock = |amount: u128| AppchainEvent::NativeTokenLocked {
        owner_id_in_appchain: owner.clone(),
        receiver_id_in_near: "r.near".to_string(),
        amount,
    };
    assert_eq!(
        a.internal_apply_appchain_message(message(7, lock(201 * 1_000_000_000_000_000_000)), 1, 1),
        Ok(MessageApplication::Applied(AppchainMessageProcessingResult::Error {
            nonce: 7,
            message: "Too much wrapped appchain token to mint.".to_string(),
        }))
    );
    let event = a.anchor_event_histories.get(&0).unwrap();
    assert_eq!(
        event.anchor_event,
        AnchorEvent::FailedToMintWrappedAppchainToken {
            sender_id_in_appchain: Some(owner.clone()),
            receiver_id_in_near: "r.near".to_string(),
            amount: 201 * 1_000_000_000_000_000_000,
            appchain_message_nonce: 7,
            reason: "Too much wrapped appchain token to mint.".to_string(),
        }
    );
    assert_eq!(
        a.internal_apply_appchain_message(message(8, lock(200 * 1_000_000_000_000_000_000)), 1, 1),
        Ok(MessageApplication::Transfer {
            nonce: 8,
            transfer: AssetTransfer::MintWrappedAppchainToken {
                owner_id_in_appchain: owner.clone(),
                receiver_id_in_near: "r.near".to_string(),
                amount: 200 * 1_000_000_000_000_000_000,
            },
        })
    );
}

#[test]
fn the_owner_applies_messages_in_a_batch() {
    let mut a = anchor();
    let owner = "octopus.near".to_string();
    a.register_near_fungible_token(&owner, "USDT".to_string(), "Tether".to_string(), 6, "usdt.near".to_string(), 1).unwrap();
    a.open_bridging_of_near_fungible_token(&owner, "USDT".to_string()).unwrap();
    let bridge = FTDepositMessage::BridgeToAppchain { receiver_id_in_appchain: "0xaa".to_string() };
    a.ft_on_transfer(&"usdt.near".to_string(), "s.near".to_string(), 5, bridge, 1, 1).unwrap();
    let burnt = |amount: u128| AppchainEvent::NearFungibleTokenBurnt {
        contract_account: "usdt.near".to_string(),
        owner_id_in_appchain: "0xaa".to_string(),
        receiver_id_in_near: "r.near".to_string(),
        amount,
    };
    let batch = vec![message(1, burnt(3)), message(2, burnt(3)), message(3, burnt(2))];
    assert_eq!(
        a.apply_appchain_messages(&"someone.near".to_string(), batch.clone(), 1, 1),
        Err(AnchorError::NotAuthorized)
    );
    assert_eq!(a.near_fungible_tokens.get(&"USDT".to_string()).unwrap().locked_balance, 5);
    let unlock = |nonce: u32, amount: u128| {
        Ok(MessageApplication::Transfer {
            nonce,
            transfer: AssetTransfer::UnlockNearFungibleToken {
                contract_account: "usdt.near".to_string(),
                owner_id_in_appchain: "0xaa".to_string(),
                receiver_id_in_near: "r.near".to_string(),
                amount,
            },
        })
    };
    assert_eq!(
        a.apply_appchain_messages(&owner, batch, 1, 1),
        Ok(vec![unlock(1, 3), Err(AnchorError::NotEnoughLockedBalance), unlock(3, 2)])
    );
    assert_eq!(a.near_fungible_tokens.get(&"USDT".to_string()).unwrap().locked_balance, 0);
}

#[test]
fn a_mint_whose_market_value_overflows_is_not_applied() {
    let mut a = anchor();
    let owner = "octopus.near".to_string();
    assert!(a.mint_check_fit(1_000));
    a.wrapped_appchain_token.price_in_usd = u128::MAX;
    assert!(a.mint_check_fit(1));
    assert!(!a.mint_check_fit(2));
    let locked = AppchainEvent::NativeTokenLocked {
        owner_id_in_appchain: "0xaa".to_string(),
        receiver_id_in_near: "r.near".to_string(),
        amount: 2,
    };
    assert!(!a.message_applicability(&message(7, locked.clone())));
    assert_eq!(
        a.apply_appchain_messages(&owner, vec![message(7, locked)], 1, 1),
        Ok(vec![Err(AnchorError::ValueOverflow)])
    );
}
