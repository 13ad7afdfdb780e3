use nft_contract::AccountId;

#[test]
fn account_ids_follow_the_sdk_rule() {
    for valid in ["aa", "a-a", "100", "alice.near", "dev.artdressup.testnet", "a_b.c-d", "0o"] {
        let account = AccountId::new(valid.to_string());
        assert_eq!(account.map(|a| a.as_str().to_string()), Some(valid.to_string()));
    }
    let longest = "a".repeat(64);
    assert!(AccountId::new(longest).is_some());
}

#[test]
fn malformed_account_ids_are_refused() {
    for invalid in [
        "", "a", "A", "Alice.near", "a..b", "-a", "a-", ".near", "near.", "a--b", "a_-b", "a b",
        "a@b", "\u{e9}\u{e9}", "alic\u{e9}",
    ] {
        assert!(AccountId::new(invalid.to_string()).is_none(), "{:?}", invalid);
    }
    let too_long = "a".repeat(65);
    assert!(AccountId::new(too_long).is_none());
}

#[test]
fn accounts_are_the_same_when_their_text_is() {
    let alice = AccountId::new("alice".to_string()).unwrap();
    let again = alice.clone();
    let bob = AccountId::new("bob".to_string()).unwrap();
    assert!(alice.same(&again));
    assert!(!alice.same(&bob));
    assert_eq!(alice.as_string(), "alice");
}
