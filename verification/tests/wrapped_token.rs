use appchain_anchor::anchor::AppchainAnchor;
use appchain_anchor::errors::AnchorError;
use appchain_anchor::fungible_tokens::FungibleTokenMetadata;
use appchain_anchor::settings::{AnchorSettingsManager, AppchainSettingsManager};
use appchain_anchor::types::{AppchainNotification, AppchainState, AppchainTemplateType};
use appchain_anchor::wrapped_token::WrappedAppchainToken;

fn owner() -> String {
    "octopus.near".to_string()
}

fn anchor() -> AppchainAnchor {
    AppchainAnchor::new(
        "myappchain".to_string(),
        AppchainTemplateType::Barnacle,
        "registry.near".to_string(),
        "oct.near".to_string(),
        owner(),
    )
}

fn metadata(symbol: &str, name: &str, decimals: u8) -> FungibleTokenMetadata {
    FungibleTokenMetadata {
        spec: "ft-1.0.0".to_string(),
        name: name.to_string(),
        symbol: symbol.to_string(),
        icon: None,
        reference: None,
        reference_hash: None,
        decimals,
    }
}

#[test]
fn default_wrapped_token_is_unset() {
    let t = WrappedAppchainToken::default();
    assert_eq!(t.metadata.spec, "ft-1.0.0");
    assert!(t.metadata.symbol.is_empty());
    assert!(t.metadata.name.is_empty());
    assert_eq!(t.metadata.decimals, 0);
    assert_eq!(t.contract_account, None);
    assert_eq!(t.premined_beneficiary, None);
    assert_eq!(t.premined_balance, 0);
    assert_eq!(t.changed_balance, 0);
    assert_eq!(t.price_in_usd, 0);
    assert_eq!(t.total_supply, 0);
    assert_eq!(anchor().get_wrapped_appchain_token(), &t);
}

#[test]
fn wrapped_token_market_values() {
    let mut t = WrappedAppchainToken::default();
    t.metadata.decimals = 18;
    t.price_in_usd = 3;
    t.premined_balance = 50_000_000 * 1_000_000_000_000_000_000;
    t.changed_balance = -(1_000_000 * 1_000_000_000_000_000_000 + 5);
    // 48_999_999.999.. whole tokens in circulation, at 3 USD each
    assert_eq!(t.total_market_value(), 146_999_997);
    assert_eq!(t.get_market_value_of(2_500_000_000_000_000_000), 6);
    assert_eq!(t.get_market_value_of(999_999_999_999_999_999), 0);
    t.metadata.decimals = 0;
    assert_eq!(t.get_market_value_of(7), 21);
}

#[test]
fn owner_sets_wrapped_token() {
    let mut a = anchor();
    let eve = "eve.near".to_string();
    assert_eq!(
        a.set_metadata_of_wrapped_appchain_token(&eve, metadata("MYC", "My Coin", 18)),
        Err(AnchorError::NotAuthorized)
    );
    assert_eq!(a.set_premined_balance_of_wrapped_appchain_token(&eve, eve.clone(), 5), Err(AnchorError::NotAuthorized));
    assert_eq!(a.set_account_of_wrapped_appchain_token(&eve, eve.clone()), Err(AnchorError::NotAuthorized));
    assert_eq!(a.wrapped_appchain_token, WrappedAppchainToken::default());
    assert_eq!(
        a.assert_contract_account_of_wrapped_appchain_token_is_set(),
        Err(AnchorError::WrappedAppchainTokenContractNotSet)
    );
    assert_eq!(a.set_metadata_of_wrapped_appchain_token(&owner(), metadata("MYC", "My Coin", 18)), Ok(()));
    assert_eq!(a.set_premined_balance_of_wrapped_appchain_token(&owner(), "bene.near".to_string(), 1000), Ok(()));
    assert_eq!(a.set_account_of_wrapped_appchain_token(&owner(), "myc.near".to_string()), Ok(()));
    assert_eq!(a.assert_contract_account_of_wrapped_appchain_token_is_set(), Ok(()));
    let t = a.get_wrapped_appchain_token();
    assert_eq!(t.metadata.symbol, "MYC");
    assert_eq!(t.premined_beneficiary, Some("bene.near".to_string()));
    assert_eq!(t.premined_balance, 1000);
    assert_eq!(t.contract_account, Some("myc.near".to_string()));
}

#[test]
fn price_maintainer_sets_wrapped_token_price() {
    let mut a = anchor();
    assert_eq!(a.set_price_of_wrapped_appchain_token(&"maintainer.near".to_string(), 7), Err(AnchorError::NotAuthorized));
    a.set_token_price_maintainer_account(&owner(), "maintainer.near".to_string()).unwrap();
    assert_eq!(a.set_price_of_wrapped_appchain_token(&owner(), 7), Err(AnchorError::NotAuthorized));
    assert_eq!(a.set_price_of_wrapped_appchain_token(&"maintainer.near".to_string(), 7), Ok(()));
    assert_eq!(a.wrapped_appchain_token.price_in_usd, 7);
}

#[test]
fn only_token_contract_syncs_basedata() {
    let mut a = anchor();
    assert_eq!(
        a.sync_basedata_of_wrapped_appchain_token(&"myc.near".to_string(), metadata("MYC", "My Coin", 18), "bene.near".to_string(), 9),
        Err(AnchorError::NotAuthorized)
    );
    a.set_account_of_wrapped_appchain_token(&owner(), "myc.near".to_string()).unwrap();
    assert_eq!(
        a.sync_basedata_of_wrapped_appchain_token(&owner(), metadata("MYC", "My Coin", 18), "bene.near".to_string(), 9),
        Err(AnchorError::NotAuthorized)
    );
    assert_eq!(
        a.sync_basedata_of_wrapped_appchain_token(&"myc.near".to_string(), metadata("MYC", "My Coin", 18), "bene.near".to_string(), 9),
        Ok(())
    );
    assert_eq!(a.wrapped_appchain_token.metadata.name, "My Coin");
    assert_eq!(a.wrapped_appchain_token.premined_beneficiary, Some("bene.near".to_string()));
    assert_eq!(a.wrapped_appchain_token.premined_balance, 9);
}

#[test]
fn minting_and_burning_change_the_balance() {
    let mut a = anchor();
    a.resolve_wrapped_appchain_token_minting(500, true);
    assert_eq!(a.wrapped_appchain_token.changed_balance, 500);
    a.resolve_wrapped_appchain_token_minting(100, false);
    assert_eq!(a.wrapped_appchain_token.changed_balance, 500);
    assert_eq!(
        a.resolve_wrapped_appchain_token_burning("alice.near".to_string(), "0xabc".to_string(), 800, false, 3, 30),
        None
    );
    assert_eq!(a.wrapped_appchain_token.changed_balance, 500);
    assert!(a.appchain_notification_histories.get(&0).is_none());
    let h = a
        .resolve_wrapped_appchain_token_burning("alice.near".to_string(), "0xabc".to_string(), 800, true, 3, 30)
        .unwrap();
    assert_eq!(a.wrapped_appchain_token.changed_balance, -300);
    assert_eq!(h.index, 0);
    assert_eq!(h.block_height, 3);
    assert_eq!(h.timestamp, 30);
    match &a.appchain_notification_histories.get(&0).unwrap().appchain_notification {
        AppchainNotification::WrappedAppchainTokenBurnt { sender_id_in_near, receiver_id_in_appchain, amount } => {
            assert_eq!(sender_id_in_near, "alice.near");
            assert_eq!(receiver_id_in_appchain, "0xabc");
            assert_eq!(*amount, 800);
        },
        _ => panic!("another notification was recorded"),
    }
}

#[test]
fn go_live_checks_its_settings() {
    let mut a = anchor();
    assert_eq!(a.go_live(&"eve.near".to_string(), true), Err(AnchorError::NotAuthorized));
    assert_eq!(a.go_live(&owner(), true), Err(AnchorError::InvalidAppchainState));
    a.appchain_state = AppchainState::Booting;
    assert_eq!(a.go_live(&owner(), true), Err(AnchorError::MissingWrappedAppchainTokenSettings));
    a.set_metadata_of_wrapped_appchain_token(&owner(), metadata("MYC", "My Coin", 18)).unwrap();
    a.set_premined_balance_of_wrapped_appchain_token(&owner(), "bene.near".to_string(), 1000).unwrap();
    assert_eq!(a.go_live(&owner(), true), Err(AnchorError::MissingWrappedAppchainTokenSettings));
    a.set_account_of_wrapped_appchain_token(&owner(), "myc.near".to_string()).unwrap();
    assert_eq!(a.go_live(&owner(), true), Err(AnchorError::MissingAppchainSettings));
    a.set_era_reward(&owner(), 100).unwrap();
    a.set_rpc_endpoint(&owner(), " \t\u{3000}\n".to_string()).unwrap();
    // an endpoint of white space only is no endpoint
    assert_eq!(a.go_live(&owner(), true), Err(AnchorError::MissingAppchainSettings));
    a.set_rpc_endpoint(&owner(), " wss://rpc.example ".to_string()).unwrap();
    assert_eq!(a.go_live(&owner(), false), Err(AnchorError::LightClientNotInitialized));
    assert_eq!(a.appchain_state, AppchainState::Booting);
    assert_eq!(a.go_live(&owner(), true), Ok(()));
    assert_eq!(a.appchain_state, AppchainState::Active);
}

#[test]
fn go_live_needs_decimals() {
    let mut a = anchor();
    a.appchain_state = AppchainState::Booting;
    a.set_metadata_of_wrapped_appchain_token(&owner(), metadata("MYC", "My Coin", 0)).unwrap();
    a.set_premined_balance_of_wrapped_appchain_token(&owner(), "bene.near".to_string(), 1000).unwrap();
    a.set_account_of_wrapped_appchain_token(&owner(), "myc.near".to_string()).unwrap();
    a.set_era_reward(&owner(), 100).unwrap();
    a.set_rpc_endpoint(&owner(), "wss://rpc.example".to_string()).unwrap();
    assert_eq!(a.go_live(&owner(), true), Err(AnchorError::MissingWrappedAppchainTokenSettings));
}

#[test]
fn a_wrapped_token_is_valid_once_all_of_it_is_set() {
    let mut t = WrappedAppchainToken::default();
    assert!(!t.is_valid());
    t.metadata = metadata("MYC", "My coin", 18);
    t.contract_account = Some("myc.near".to_string());
    t.premined_beneficiary = Some("  ".to_string());
    t.price_in_usd = 2;
    assert!(!t.is_valid());
    t.premined_beneficiary = Some("b.near".to_string());
    assert!(t.is_valid());
    t.price_in_usd = 0;
    assert!(!t.is_valid());
}
