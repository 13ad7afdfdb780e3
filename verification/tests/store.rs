use nft_contract::contract::fee_collector_account;
use nft_contract::reservation_store::find_reservation;
use nft_contract::{AccountId, ReservationNft, ReservationStore};

fn owner_of_list(name: &str) -> AccountId {
    AccountId::new(name.to_string()).unwrap()
}

fn entry(token_id: &str, reservation_time: u64) -> ReservationNft {
    ReservationNft { token_id: token_id.to_string(), reservation_time }
}

#[test]
fn an_empty_store_knows_no_account() {
    let store = ReservationStore::new();
    assert!(store.accounts().is_empty());
    assert_eq!(store.get(&owner_of_list("alice")), None);
}

#[test]
fn a_store_appends_to_the_list_of_the_account() {
    let mut store = ReservationStore::new();
    let alice = owner_of_list("alice");
    assert!(store.add(&alice, entry("t1", 1)));
    assert!(store.add(&alice, entry("t2", 2)));
    assert!(!store.add(&alice, entry("t1", 3)));
    assert_eq!(store.get(&alice), Some(&vec![entry("t1", 1), entry("t2", 2)]));
    assert_eq!(store.accounts(), vec!["alice".to_string()]);
}

#[test]
fn taking_swaps_the_last_reservation_into_the_gap() {
    let mut store = ReservationStore::new();
    let alice = owner_of_list("alice");
    for (i, token_id) in ["t1", "t2", "t3", "t4"].iter().enumerate() {
        assert!(store.add(&alice, entry(token_id, i as u64)));
    }
    assert_eq!(store.take(&alice, &"t2".to_string()), Some(entry("t2", 1)));
    assert_eq!(store.get(&alice), Some(&vec![entry("t1", 0), entry("t4", 3), entry("t3", 2)]));
    assert_eq!(store.take(&alice, &"t3".to_string()), Some(entry("t3", 2)));
    assert_eq!(store.get(&alice), Some(&vec![entry("t1", 0), entry("t4", 3)]));
    assert_eq!(store.take(&alice, &"t2".to_string()), None);
    assert_eq!(store.take(&owner_of_list("bob"), &"t1".to_string()), None);
}

#[test]
fn an_account_without_reservations_leaves_the_store() {
    let mut store = ReservationStore::new();
    let alice = owner_of_list("alice");
    let bob = owner_of_list("bob");
    store.add(&alice, entry("t1", 1));
    store.add(&bob, entry("t1", 2));
    assert_eq!(store.take(&alice, &"t1".to_string()), Some(entry("t1", 1)));
    assert_eq!(store.get(&alice), None);
    assert_eq!(store.accounts(), vec!["bob".to_string()]);
    store.clear(&bob);
    store.clear(&bob);
    assert!(store.accounts().is_empty());
}

#[test]
fn a_copy_of_a_store_holds_the_same_reservations() {
    let mut store = ReservationStore::new();
    let alice = owner_of_list("alice");
    store.add(&alice, entry("t1", 1));
    let copy = store.clone();
    store.add(&alice, entry("t2", 2));
    assert_eq!(copy.get(&alice), Some(&vec![entry("t1", 1)]));
    assert_eq!(store.get(&alice), Some(&vec![entry("t1", 1), entry("t2", 2)]));
}

#[test]
fn the_first_reservation_of_a_token_is_found() {
    let list = vec![entry("t1", 1), entry("t2", 2), entry("t3", 3)];
    assert_eq!(find_reservation(&list, &"t1".to_string()), Some(0));
    assert_eq!(find_reservation(&list, &"t3".to_string()), Some(2));
    assert_eq!(find_reservation(&list, &"t4".to_string()), None);
    assert_eq!(find_reservation(&Vec::new(), &"t1".to_string()), None);
}

#[test]
fn the_fee_goes_to_the_collector() {
    assert_eq!(fee_collector_account().as_str(), "dev.artdressup.testnet");
}
