use appchain_anchor::anchor::AppchainAnchor;
use appchain_anchor::deposits::{FTDepositMessage, NativeNearToken};
use appchain_anchor::errors::AnchorError;
use appchain_anchor::rewards::OCT_DECIMALS_VALUE;
use appchain_anchor::types::{AppchainNotification, AppchainState, AppchainTemplateType, BridgingState};

const OCT: u128 = OCT_DECIMALS_VALUE;

fn owner() -> String {
    "octopus.near".to_string()
}

fn oct() -> String {
    "oct.near".to_string()
}

fn id_in_appchain(n: u8) -> String {
    let mut id = "0x".to_string();
    for _ in 0..63 {
        id.push('d');
    }
    id.push(char::from(b'0' + n));
    id
}

fn anchor() -> AppchainAnchor {
    AppchainAnchor::new(
        "myappchain".to_string(),
        AppchainTemplateType::Barnacle,
        "registry.near".to_string(),
        oct(),
        owner(),
    )
}

/// Four validators of 10_000 OCT at a price of 3_000_000, and the token
/// USDT (6 decimals, price 2_000_000) open for bridging.
fn bridging_anchor() -> AppchainAnchor {
    let mut a = anchor();
    for n in 0..4u8 {
        a.register_validator(format!("v{}.near", n), Some(id_in_appchain(n)), Vec::new(), 10_000 * OCT, true, 1, 10)
            .unwrap();
    }
    a.oct_token.price_in_usd = 3_000_000;
    a.register_near_fungible_token(&owner(), "USDT".to_string(), "Tether".to_string(), 6, "usdt.near".to_string(), 2_000_000)
        .unwrap();
    a.open_bridging_of_near_fungible_token(&owner(), "USDT".to_string()).unwrap();
    a
}

#[test]
fn market_value_of_staked_oct_token() {
    let a = bridging_anchor();
    // 40_000 whole OCT tokens at 3_000_000 each
    assert_eq!(a.get_market_value_of_staked_oct_token(), 120_000_000_000);
    let mut b = anchor();
    b.register_validator("v.near".to_string(), Some(id_in_appchain(0)), Vec::new(), 10_000 * OCT + OCT / 2, true, 1, 10)
        .unwrap();
    b.oct_token.price_in_usd = 7;
    // half an OCT token is no whole token
    assert_eq!(b.get_market_value_of_staked_oct_token(), 70_000);
}

#[test]
fn locking_is_limited_by_staked_value() {
    let mut a = bridging_anchor();
    // the limit is 33 percent of 120_000_000_000
    let usdt = a.near_fungible_tokens.get(&"USDT".to_string()).unwrap().clone();
    assert_eq!(a.assert_locked_asset_on_near_side(None, 0), Ok(()));
    assert_eq!(a.assert_locked_asset_on_near_side(Some((&usdt, 19_800_000_000)), 0), Ok(()));
    assert_eq!(
        a.assert_locked_asset_on_near_side(Some((&usdt, 19_801_000_000)), 0),
        Err(AnchorError::TooMuchNearFungibleTokenToLock)
    );
    a.native_near_token = NativeNearToken { locked_balance: 100, bridging_state: BridgingState::Active, price_in_usd: 1_000 };
    assert_eq!(a.assert_locked_asset_on_near_side(None, 39_599_900), Ok(()));
    assert_eq!(
        a.assert_locked_asset_on_near_side(None, 39_599_901),
        Err(AnchorError::TooMuchNativeNearTokenToLock)
    );
    assert_eq!(NativeNearToken::default().bridging_state, BridgingState::Closed);
    assert_eq!(anchor().native_near_token, NativeNearToken::default());
}

#[test]
fn bridging_a_near_fungible_token() {
    let mut a = bridging_anchor();
    let to = "0xabc".to_string();
    let bridge = FTDepositMessage::BridgeToAppchain { receiver_id_in_appchain: to.clone() };
    assert_eq!(
        a.ft_on_transfer(&"dai.near".to_string(), "alice.near".to_string(), 5, bridge.clone(), 7, 70),
        Err(AnchorError::TokenContractNotRegistered("dai.near".to_string()))
    );
    assert_eq!(
        a.ft_on_transfer(&"usdt.near".to_string(), "alice.near".to_string(), 19_800_000_000, bridge.clone(), 7, 70),
        Ok(())
    );
    let usdt = a.near_fungible_tokens.get(&"USDT".to_string()).unwrap();
    assert_eq!(usdt.locked_balance, 19_800_000_000);
    match &a.appchain_notification_histories.get(&0).unwrap().appchain_notification {
        AppchainNotification::NearFungibleTokenLocked { contract_account, sender_id_in_near, receiver_id_in_appchain, amount } => {
            assert_eq!(contract_account, "usdt.near");
            assert_eq!(sender_id_in_near, "alice.near");
            assert_eq!(receiver_id_in_appchain, &to);
            assert_eq!(*amount, 19_800_000_000);
        },
        _ => panic!("another notification was recorded"),
    }
    // the limit is reached: one more whole token is too much
    assert_eq!(
        a.ft_on_transfer(&"usdt.near".to_string(), "bob.near".to_string(), 1_000_000, bridge.clone(), 8, 80),
        Err(AnchorError::TooMuchNearFungibleTokenToLock)
    );
    assert!(a.appchain_notification_histories.get(&1).is_none());
    a.close_bridging_of_near_fungible_token(&owner(), "USDT".to_string()).unwrap();
    assert_eq!(
        a.ft_on_transfer(&"usdt.near".to_string(), "bob.near".to_string(), 1, bridge, 8, 80),
        Err(AnchorError::BridgingNotOpen("USDT".to_string()))
    );
}

#[test]
fn staking_by_deposit_of_oct_tokens() {
    let mut a = anchor();
    let register = FTDepositMessage::RegisterValidator {
        validator_id_in_appchain: id_in_appchain(1),
        can_be_delegated_to: true,
        profile: vec![("email".to_string(), "v@example.com".to_string())],
    };
    // only the OCT token contract may deposit for staking
    assert_eq!(
        a.ft_on_transfer(&"usdt.near".to_string(), "v.near".to_string(), 10_000 * OCT, register.clone(), 1, 10),
        Err(AnchorError::InvalidDeposit)
    );
    assert_eq!(a.ft_on_transfer(&oct(), "v.near".to_string(), 10_000 * OCT, register.clone(), 1, 10), Ok(()));
    assert_eq!(a.next_validator_set.validator_set().total_stake(), 10_000 * OCT);
    assert_eq!(
        a.ft_on_transfer(&oct(), "v.near".to_string(), 10_000 * OCT, register, 1, 10),
        Err(AnchorError::AccountAlreadyRegistered("v.near".to_string()))
    );
    assert_eq!(a.ft_on_transfer(&oct(), "v.near".to_string(), 500 * OCT, FTDepositMessage::IncreaseStake, 2, 20), Ok(()));
    assert_eq!(a.next_validator_set.validator_set().total_stake(), 10_500 * OCT);
    assert_eq!(
        a.ft_on_transfer(&oct(), "nobody.near".to_string(), OCT, FTDepositMessage::IncreaseStake, 2, 20),
        Err(AnchorError::InvalidValidatorId("nobody.near".to_string()))
    );
    let delegate = FTDepositMessage::RegisterDelegator { validator_id: "v.near".to_string() };
    assert_eq!(a.ft_on_transfer(&oct(), "d.near".to_string(), 200 * OCT, delegate, 3, 30), Ok(()));
    let more = FTDepositMessage::IncreaseDelegation { validator_id: "v.near".to_string() };
    assert_eq!(a.ft_on_transfer(&oct(), "d.near".to_string(), 50 * OCT, more, 4, 40), Ok(()));
    assert_eq!(a.next_validator_set.validator_set().total_stake(), 10_750 * OCT);
    assert_eq!(a.staking_histories.index_range().end_index, 3);
}

#[test]
fn deposits_wait_while_asset_transfer_is_paused() {
    let mut a = bridging_anchor();
    a.pause_asset_transfer(&owner()).unwrap();
    assert_eq!(
        a.ft_on_transfer(&oct(), "v0.near".to_string(), OCT, FTDepositMessage::IncreaseStake, 2, 20),
        Err(AnchorError::AssetTransferPaused)
    );
    let bridge = FTDepositMessage::BridgeToAppchain { receiver_id_in_appchain: "0xabc".to_string() };
    assert_eq!(
        a.ft_on_transfer(&"usdt.near".to_string(), "alice.near".to_string(), 5, bridge, 7, 70),
        Err(AnchorError::AssetTransferPaused)
    );
    assert_eq!(a.appchain_state, AppchainState::Staging);
}

#[test]
fn fractions_of_tokens_count_only_once_whole() {
    let mut a = bridging_anchor();
    a.oct_token.price_in_usd = 0;
    let bridge = FTDepositMessage::BridgeToAppchain { receiver_id_in_appchain: "0xabc".to_string() };
    // the limit is 0: 0.6 token is worth nothing and passes the check
    assert_eq!(a.ft_on_transfer(&"usdt.near".to_string(), "alice.near".to_string(), 600_000, bridge.clone(), 1, 1), Ok(()));
    assert_eq!(a.ft_on_transfer(&"usdt.near".to_string(), "alice.near".to_string(), 600_000, bridge.clone(), 2, 2), Ok(()));
    // 1.2 tokens are locked now, worth one whole token over the limit
    assert_eq!(a.near_fungible_tokens.total_market_value(), 2_000_000);
    assert_eq!(
        a.ft_on_transfer(&"usdt.near".to_string(), "alice.near".to_string(), 1_000_000, bridge, 3, 3),
        Err(AnchorError::TooMuchNearFungibleTokenToLock)
    );
}

#[test]
fn oct_deposits_ask_for_staking() {
    let mut a = anchor();
    let bridge = FTDepositMessage::BridgeToAppchain { receiver_id_in_appchain: "0xabc".to_string() };
    assert_eq!(a.internal_process_oct_deposit("v.near".to_string(), OCT, bridge, 1, 10), Err(AnchorError::InvalidDeposit));
    let register = FTDepositMessage::RegisterValidator {
        validator_id_in_appchain: id_in_appchain(2),
        can_be_delegated_to: false,
        profile: Vec::new(),
    };
    // below the minimum deposit of a validator
    assert_eq!(a.internal_process_oct_deposit("v.near".to_string(), OCT, register.clone(), 1, 10), Err(AnchorError::DepositTooFew));
    assert_eq!(a.internal_process_oct_deposit("v.near".to_string(), 10_000 * OCT, register, 1, 10), Ok(()));
    let delegate = FTDepositMessage::RegisterDelegator { validator_id: "v.near".to_string() };
    assert_eq!(
        a.internal_process_oct_deposit("d.near".to_string(), 200 * OCT, delegate, 2, 20),
        Err(AnchorError::DelegationNotAccepted("v.near".to_string()))
    );
}
