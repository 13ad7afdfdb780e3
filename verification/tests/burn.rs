use nft_contract::{
    to_yocto, AccountId, ArtDressUpNFT, CallContext, Contract, ContractError, StrMap,
    TokenMetadata, Transfer,
};

fn holder(name: &str) -> AccountId {
    AccountId::new(name.to_string()).unwrap()
}

fn request(caller: &str) -> CallContext {
    CallContext { caller: holder(caller), deposit: 0, timestamp: 0 }
}

fn with_token(owner: &str, token_id: &str) -> Contract {
    let mut contract = Contract::new_default_meta(holder("owner.near"));
    let metadata = TokenMetadata { title: "Sword".to_string(), description: None, media: None };
    contract.nft_mint(token_id.to_string(), metadata, holder(owner), StrMap::new()).unwrap();
    contract
}

#[test]
fn the_owner_burns_a_token_and_is_refunded() {
    let mut contract = with_token("alice", "t1");
    let key = "t1".to_string();
    let refund = contract.del_nft(&request("alice"), key.clone());
    assert_eq!(refund, Ok(Transfer { receiver: holder("alice"), amount: to_yocto(10) }));
    assert!(!contract.token_metadata_by_id.contains_key(&key));
    assert!(!contract.tokens_by_id.contains_key(&key));
    assert!(!contract.tokens_per_owner.get(&"alice".to_string()).unwrap().contains(&key));
    assert_eq!(contract.nft_del_num, 1);
}

#[test]
fn a_burned_token_cannot_be_burned_again() {
    let mut contract = with_token("alice", "t1");
    contract.del_nft(&request("alice"), "t1".to_string()).unwrap();
    let before = contract.clone();
    assert_eq!(
        contract.del_nft(&request("alice"), "t1".to_string()),
        Err(ContractError::TokenNotFound)
    );
    assert_eq!(contract, before);
    assert_eq!(contract.nft_del_num, 1);
}

#[test]
fn a_stranger_cannot_burn_a_token() {
    let mut contract = with_token("alice", "t1");
    let before = contract.clone();
    assert_eq!(contract.del_nft(&request("bob"), "t1".to_string()), Err(ContractError::NotOwner));
    assert_eq!(
        contract.del_nft(&request("owner.near"), "t1".to_string()),
        Err(ContractError::NotOwner)
    );
    assert_eq!(contract, before);
    assert_eq!(contract.nft_del_num, 0);
}

#[test]
fn an_unknown_token_cannot_be_burned() {
    let mut contract = with_token("alice", "t1");
    let before = contract.clone();
    assert_eq!(
        contract.del_nft(&request("alice"), "t2".to_string()),
        Err(ContractError::TokenNotFound)
    );
    assert_eq!(contract, before);
}

#[test]
fn a_token_missing_from_its_owners_index_is_not_burned() {
    let mut contract = with_token("alice", "t1");
    let mut tokens = contract.tokens_per_owner.remove(&"alice".to_string()).unwrap();
    assert!(tokens.remove(&"t1".to_string()));
    contract.tokens_per_owner.insert("alice".to_string(), tokens);
    let before = contract.clone();
    assert_eq!(
        contract.del_nft(&request("alice"), "t1".to_string()),
        Err(ContractError::TokenNotFound)
    );
    assert_eq!(contract, before);
    contract.tokens_per_owner.remove(&"alice".to_string());
    assert_eq!(
        contract.del_nft(&request("alice"), "t1".to_string()),
        Err(ContractError::TokenNotFound)
    );
}

#[test]
fn a_token_without_a_record_has_no_owner() {
    let mut contract = with_token("alice", "t1");
    contract.tokens_by_id.remove(&"t1".to_string());
    assert_eq!(contract.del_nft(&request("alice"), "t1".to_string()), Err(ContractError::NotOwner));
}

#[test]
fn burning_one_token_leaves_the_others() {
    let mut contract = with_token("alice", "t1");
    let metadata = TokenMetadata { title: "Bow".to_string(), description: None, media: None };
    contract.nft_mint("t2".to_string(), metadata, holder("alice"), StrMap::new()).unwrap();
    contract.del_nft(&request("alice"), "t1".to_string()).unwrap();
    let index = contract.tokens_per_owner.get(&"alice".to_string()).unwrap();
    assert_eq!(index.items(), vec!["t2".to_string()]);
    assert_eq!(contract.tokens_by_id.keys(), vec!["t2".to_string()]);
    assert_eq!(contract.token_metadata_by_id.get(&"t2".to_string()).unwrap().title, "Bow");
    contract.del_nft(&request("alice"), "t2".to_string()).unwrap();
    assert_eq!(contract.nft_del_num, 2);
}

#[test]
fn minting_an_existing_token_fails() {
    let mut contract = with_token("alice", "t1");
    let before = contract.clone();
    let metadata = TokenMetadata { title: "Bow".to_string(), description: None, media: None };
    assert_eq!(
        contract.nft_mint("t1".to_string(), metadata, holder("bob"), StrMap::new()),
        Err(ContractError::TokenAlreadyExists)
    );
    assert_eq!(contract, before);
}

#[test]
fn minting_returns_the_record_of_the_token() {
    let mut contract = Contract::new_default_meta(holder("owner.near"));
    let metadata = TokenMetadata { title: "Sword".to_string(), description: None, media: None };
    let mut royalty = StrMap::new();
    royalty.insert("owner.near".to_string(), 5u32);
    let minted = contract.nft_mint("t1".to_string(), metadata, holder("alice"), royalty).unwrap();
    assert_eq!(minted.owner_id, holder("alice"));
    assert_eq!(minted.royalty.get(&"owner.near".to_string()), Some(&5));
    assert_eq!(contract.tokens_by_id.get(&"t1".to_string()), Some(&minted));
}

#[test]
fn minting_files_the_token_under_its_owner() {
    let contract = with_token("alice", "t1");
    let key = "t1".to_string();
    assert_eq!(contract.tokens_by_id.get(&key).unwrap().owner_id, holder("alice"));
    assert_eq!(contract.token_metadata_by_id.get(&key).unwrap().title, "Sword");
    assert_eq!(
        contract.tokens_per_owner.get(&"alice".to_string()).unwrap().items(),
        vec!["t1".to_string()]
    );
    assert_eq!(contract.nft_seq_num, Some(0));
}
