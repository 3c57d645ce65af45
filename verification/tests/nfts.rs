use appchain_anchor::nfts::{InternalWrappedAppchainNFT, NftContractMetadata, WrappedAppchainNFTs};
use appchain_anchor::types::BridgingState;

fn metadata(name: &str) -> NftContractMetadata {
    NftContractMetadata {
        spec: "nft-1.0.0".to_string(),
        name: name.to_string(),
        symbol: "ART".to_string(),
        icon: None,
        base_uri: Some("https://art.example".to_string()),
        reference: None,
        reference_hash: Some(vec![1, 2, 3]),
    }
}

#[test]
fn a_new_class_is_closed_with_nothing_locked() {
    let nft = InternalWrappedAppchainNFT::new("art".to_string(), metadata("Art"), &"anchor.near".to_string());
    assert_eq!(nft.contract_account, "art.anchor.near".to_string());
    assert_eq!(nft.bridging_state, BridgingState::Closed);
    assert_eq!(nft.count_of_locked_tokens(), 0);
    assert!(!nft.is_nft_locked(&"1".to_string()));
}

#[test]
fn locked_tokens_are_counted_once() {
    let mut nft = InternalWrappedAppchainNFT::new("art".to_string(), metadata("Art"), &"anchor.near".to_string());
    nft.add_locked_nft(&"1".to_string());
    nft.add_locked_nft(&"2".to_string());
    nft.add_locked_nft(&"1".to_string());
    assert_eq!(nft.count_of_locked_tokens(), 2);
    assert!(nft.is_nft_locked(&"1".to_string()) && nft.is_nft_locked(&"2".to_string()));
    nft.remove_locked_nft(&"1".to_string());
    nft.remove_locked_nft(&"3".to_string());
    assert_eq!(nft.count_of_locked_tokens(), 1);
    assert!(!nft.is_nft_locked(&"1".to_string()) && nft.is_nft_locked(&"2".to_string()));
}

#[test]
fn classes_are_found_by_id_and_by_contract() {
    let mut nfts = WrappedAppchainNFTs::new();
    nfts.insert("art".to_string(), InternalWrappedAppchainNFT::new("art".to_string(), metadata("Art"), &"a.near".to_string()));
    nfts.insert("pet".to_string(), InternalWrappedAppchainNFT::new("pet".to_string(), metadata("Pet"), &"a.near".to_string()));
    let mut replaced = InternalWrappedAppchainNFT::new("art".to_string(), metadata("Art 2"), &"a.near".to_string());
    replaced.add_locked_nft(&"7".to_string());
    nfts.insert("art".to_string(), replaced);
    assert_eq!(nfts.get(&"art".to_string()).unwrap().metadata.name, "Art 2".to_string());
    assert!(nfts.get(&"toy".to_string()).is_none());
    assert_eq!(nfts.get_class_id_by_contract_account(&"pet.a.near".to_string()), Some("pet".to_string()));
    assert_eq!(nfts.get_by_contract_account(&"art.a.near".to_string()).unwrap().metadata.name, "Art 2".to_string());
    assert!(nfts.get_by_contract_account(&"toy.a.near".to_string()).is_none());
    let shown = nfts.to_vec();
    assert_eq!(shown.len(), 2);
    assert_eq!((shown[0].class_id.as_str(), shown[0].count_of_locked_tokens), ("art", 1));
    assert_eq!(shown[0].metadata, metadata("Art 2"));
    assert_eq!((shown[1].class_id.as_str(), shown[1].count_of_locked_tokens), ("pet", 0));
    nfts.clear();
    assert!(nfts.to_vec().is_empty());
}
