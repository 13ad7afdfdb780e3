use nft_contract::{
    to_yocto, AccountId, ArtDressUpNFT, CallContext, Contract, ContractError, ReservationNft,
    TokenMetadata, Transfer,
};

fn account(name: &str) -> AccountId {
    AccountId::new(name.to_string()).unwrap()
}

fn call(caller: &str, deposit: u128, timestamp: u64) -> CallContext {
    CallContext { caller: account(caller), deposit, timestamp }
}

fn titled(title: &str) -> TokenMetadata {
    TokenMetadata { title: title.to_string(), description: None, media: None }
}

fn fresh() -> Contract {
    Contract::new_default_meta(account("owner.near"))
}

fn reservation(token_id: &str, reservation_time: u64) -> ReservationNft {
    ReservationNft { token_id: token_id.to_string(), reservation_time }
}

/// Reserves `token_id` for `caller` with the least deposit that is accepted.
fn reserve(
    contract: &mut Contract,
    caller: &str,
    token_id: &str,
    timestamp: u64,
) -> Result<Transfer, ContractError> {
    contract.create_reservation(&call(caller, to_yocto(20), timestamp), token_id.to_string())
}

/// Asks, as `caller`, to complete the reservation of `token_id` by `holder`.
fn complete(
    contract: &mut Contract,
    caller: &str,
    holder: &str,
    token_id: &str,
    title: &str,
) -> Result<(), ContractError> {
    let context = call(caller, 0, 0);
    contract.complete_reservation(&context, account(holder), token_id.to_string(), titled(title))
}

#[test]
fn reserve_then_complete_the_first_mint() {
    let mut contract = fresh();
    let paid = reserve(&mut contract, "alice", "tokenX", 7);
    assert_eq!(
        paid,
        Ok(Transfer { receiver: account("dev.artdressup.testnet"), amount: to_yocto(9) })
    );
    let done = contract.complete_reservation(
        &call("owner.near", 0, 8),
        account("alice"),
        "tokenX".to_string(),
        titled("Sword"),
    );
    assert_eq!(done, Ok(()));
    let key = "tokenX".to_string();
    assert_eq!(contract.token_metadata_by_id.get(&key).unwrap().title, "Sword #1");
    assert_eq!(contract.tokens_by_id.get(&key).unwrap().owner_id, account("alice"));
    assert!(contract.tokens_per_owner.get(&"alice".to_string()).unwrap().contains(&key));
    assert_eq!(contract.get_reservations(account("alice")), None);
    assert_eq!(contract.nft_seq_num, Some(1));
}

#[test]
fn a_reservation_is_listed_exactly_once() {
    let mut contract = fresh();
    assert_eq!(contract.get_reservations(account("alice")), None);
    contract.create_reservation(&call("alice", to_yocto(25), 1234), "t1".to_string()).unwrap();
    assert_eq!(contract.get_reservations(account("alice")), Some(vec![reservation("t1", 1234)]));
    assert_eq!(contract.get_reservations(account("bob")), None);
}

#[test]
fn reservations_keep_the_order_of_arrival() {
    let mut contract = fresh();
    reserve(&mut contract, "alice", "t1", 1).unwrap();
    reserve(&mut contract, "bob", "t1", 2).unwrap();
    reserve(&mut contract, "alice", "t2", 3).unwrap();
    assert_eq!(
        contract.get_reservations(account("alice")),
        Some(vec![reservation("t1", 1), reservation("t2", 3)])
    );
    assert_eq!(contract.get_reservations(account("bob")), Some(vec![reservation("t1", 2)]));
}

#[test]
fn the_deposit_must_reach_the_minimum() {
    let mut contract = fresh();
    let before = contract.clone();
    let short = to_yocto(20) - 1;
    assert_eq!(
        contract.create_reservation(&call("alice", short, 1), "t1".to_string()),
        Err(ContractError::InsufficientDeposit)
    );
    assert_eq!(
        contract.create_reservation(&call("alice", 0, 1), "t1".to_string()),
        Err(ContractError::InsufficientDeposit)
    );
    assert_eq!(contract, before);
    assert!(reserve(&mut contract, "alice", "t1", 1).is_ok());
}

#[test]
fn a_minted_token_cannot_be_reserved() {
    let mut contract = fresh();
    reserve(&mut contract, "alice", "t1", 1).unwrap();
    complete(&mut contract, "owner.near", "alice", "t1", "A").unwrap();
    let before = contract.clone();
    assert_eq!(
        reserve(&mut contract, "bob", "t1", 3),
        Err(ContractError::TokenAlreadyExists)
    );
    assert_eq!(contract, before);
    assert_eq!(contract.get_reservations(account("bob")), None);
}

#[test]
fn a_second_reservation_of_the_same_token_is_refused() {
    let mut contract = fresh();
    reserve(&mut contract, "alice", "t1", 1).unwrap();
    let before = contract.clone();
    assert_eq!(
        reserve(&mut contract, "alice", "t1", 2),
        Err(ContractError::DuplicateReservation)
    );
    assert_eq!(contract, before);
    assert_eq!(contract.get_reservations(account("alice")), Some(vec![reservation("t1", 1)]));
}

#[test]
fn only_the_owner_completes_a_reservation() {
    let mut contract = fresh();
    reserve(&mut contract, "alice", "t1", 1).unwrap();
    let before = contract.clone();
    assert_eq!(
        complete(&mut contract, "alice", "alice", "t1", "A"),
        Err(ContractError::Unauthorized)
    );
    assert_eq!(
        complete(&mut contract, "bob", "carol", "t9", "A"),
        Err(ContractError::Unauthorized)
    );
    assert_eq!(contract, before);
}

#[test]
fn completing_takes_the_reservation_out_by_swapping_in_the_last() {
    let mut contract = fresh();
    reserve(&mut contract, "alice", "t1", 1).unwrap();
    reserve(&mut contract, "alice", "t2", 2).unwrap();
    reserve(&mut contract, "alice", "t3", 3).unwrap();
    complete(&mut contract, "owner.near", "alice", "t1", "A").unwrap();
    assert_eq!(
        contract.get_reservations(account("alice")),
        Some(vec![reservation("t3", 3), reservation("t2", 2)])
    );
    complete(&mut contract, "owner.near", "alice", "t2", "B").unwrap();
    assert_eq!(contract.get_reservations(account("alice")), Some(vec![reservation("t3", 3)]));
    complete(&mut contract, "owner.near", "alice", "t3", "C").unwrap();
    assert_eq!(contract.get_reservations(account("alice")), None);
}

#[test]
fn mints_are_numbered_in_the_order_of_completion() {
    let mut contract = fresh();
    reserve(&mut contract, "alice", "t1", 1).unwrap();
    reserve(&mut contract, "bob", "t2", 2).unwrap();
    complete(&mut contract, "owner.near", "bob", "t2", "Shield").unwrap();
    complete(&mut contract, "owner.near", "alice", "t1", "Bow").unwrap();
    assert_eq!(contract.token_metadata_by_id.get(&"t2".to_string()).unwrap().title, "Shield #1");
    assert_eq!(contract.token_metadata_by_id.get(&"t1".to_string()).unwrap().title, "Bow #2");
    assert_eq!(contract.nft_seq_num, Some(2));
}

#[test]
fn the_tenth_mint_has_a_two_digit_number() {
    let mut contract = fresh();
    contract.nft_seq_num = Some(9);
    reserve(&mut contract, "alice", "t1", 1).unwrap();
    complete(&mut contract, "owner.near", "alice", "t1", "Axe").unwrap();
    assert_eq!(contract.token_metadata_by_id.get(&"t1".to_string()).unwrap().title, "Axe #10");
    assert_eq!(contract.nft_seq_num, Some(10));
}

#[test]
fn unnumbered_mints_keep_the_title() {
    let mut contract = fresh();
    contract.nft_seq_num = None;
    reserve(&mut contract, "alice", "t1", 1).unwrap();
    let metadata = TokenMetadata {
        title: "Axe".to_string(),
        description: Some("sharp".to_string()),
        media: Some("https://example.org/axe.webp".to_string()),
    };
    let by_owner = call("owner.near", 0, 2);
    contract
        .complete_reservation(&by_owner, account("alice"), "t1".to_string(), metadata.clone())
        .unwrap();
    assert_eq!(contract.token_metadata_by_id.get(&"t1".to_string()), Some(&metadata));
    assert_eq!(contract.nft_seq_num, None);
}

#[test]
fn the_royalty_goes_to_the_owner_alone() {
    let mut contract = fresh();
    reserve(&mut contract, "alice", "t1", 1).unwrap();
    complete(&mut contract, "owner.near", "alice", "t1", "A").unwrap();
    let token = contract.tokens_by_id.get(&"t1".to_string()).unwrap();
    assert_eq!(token.royalty.keys(), vec!["owner.near".to_string()]);
    assert_eq!(token.royalty.get(&"owner.near".to_string()), Some(&5));
}

#[test]
fn the_description_and_media_are_kept() {
    let mut contract = fresh();
    reserve(&mut contract, "alice", "t1", 1).unwrap();
    let metadata = TokenMetadata {
        title: "Axe".to_string(),
        description: Some("sharp".to_string()),
        media: None,
    };
    let by_owner = call("owner.near", 0, 2);
    contract
        .complete_reservation(&by_owner, account("alice"), "t1".to_string(), metadata)
        .unwrap();
    let kept = contract.token_metadata_by_id.get(&"t1".to_string()).unwrap();
    assert_eq!(kept.title, "Axe #1");
    assert_eq!(kept.description, Some("sharp".to_string()));
    assert_eq!(kept.media, None);
}

#[test]
fn completing_what_was_not_reserved_fails() {
    let mut contract = fresh();
    let before = contract.clone();
    assert_eq!(
        complete(&mut contract, "owner.near", "alice", "t1", "A"),
        Err(ContractError::ReservationNotFound)
    );
    assert_eq!(contract, before);
    reserve(&mut contract, "alice", "t1", 1).unwrap();
    let before = contract.clone();
    assert_eq!(
        complete(&mut contract, "owner.near", "alice", "t2", "A"),
        Err(ContractError::ReservationNotFound)
    );
    assert_eq!(
        complete(&mut contract, "owner.near", "bob", "t1", "A"),
        Err(ContractError::ReservationNotFound)
    );
    assert_eq!(contract, before);
}

#[test]
fn a_token_is_minted_for_one_reservation_only() {
    let mut contract = fresh();
    reserve(&mut contract, "alice", "t1", 1).unwrap();
    reserve(&mut contract, "bob", "t1", 2).unwrap();
    complete(&mut contract, "owner.near", "alice", "t1", "A").unwrap();
    let before = contract.clone();
    assert_eq!(
        complete(&mut contract, "owner.near", "bob", "t1", "B"),
        Err(ContractError::TokenAlreadyExists)
    );
    assert_eq!(contract, before);
    assert_eq!(contract.get_reservations(account("bob")), Some(vec![reservation("t1", 2)]));
    assert_eq!(contract.nft_seq_num, Some(1));
}

#[test]
fn the_owner_clears_the_reservations_of_an_account() {
    let mut contract = fresh();
    reserve(&mut contract, "alice", "t1", 1).unwrap();
    reserve(&mut contract, "alice", "t2", 2).unwrap();
    reserve(&mut contract, "bob", "t3", 3).unwrap();
    assert_eq!(contract.del_reservations(&call("owner.near", 0, 4), account("alice")), Ok(()));
    assert_eq!(contract.get_reservations(account("alice")), None);
    assert_eq!(contract.get_reservations(account("bob")), Some(vec![reservation("t3", 3)]));
    assert_eq!(contract.del_reservations(&call("owner.near", 0, 5), account("alice")), Ok(()));
    assert_eq!(contract.del_reservations(&call("owner.near", 0, 5), account("carol")), Ok(()));
    assert_eq!(contract.get_reservations(account("carol")), None);
}

#[test]
fn nobody_else_clears_reservations() {
    let mut contract = fresh();
    reserve(&mut contract, "alice", "t1", 1).unwrap();
    let before = contract.clone();
    assert_eq!(
        contract.del_reservations(&call("alice", 0, 2), account("alice")),
        Err(ContractError::Unauthorized)
    );
    assert_eq!(contract, before);
}

#[test]
fn a_cleared_token_can_be_reserved_again() {
    let mut contract = fresh();
    reserve(&mut contract, "alice", "t1", 1).unwrap();
    contract.del_reservations(&call("owner.near", 0, 2), account("alice")).unwrap();
    reserve(&mut contract, "alice", "t1", 3).unwrap();
    assert_eq!(contract.get_reservations(account("alice")), Some(vec![reservation("t1", 3)]));
}
