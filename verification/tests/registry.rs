use nft_owners::{NftOwners, NO_OWNER_FOUND};

fn entry(token_id: &str, owner_id: &str) -> (String, String) {
    (token_id.to_string(), owner_id.to_string())
}

fn sorted(mut entries: Vec<(String, String)>) -> Vec<(String, String)> {
    entries.sort();
    entries
}

#[test]
fn set_owner() {
    let mut contract = NftOwners::default();
    let my_token = "my_token".to_string();
    let owner_account_id = "hdsaleh.testnet".to_string();
    contract.set_owner(my_token.clone(), owner_account_id.clone());
    let owner_of_nft = contract.get_owner(my_token);
    assert_eq!(owner_of_nft, owner_account_id);
}

#[test]
fn wrong_owner() {
    let mut contract = NftOwners::default();
    let my_token = "my_token".to_string();
    let owner_account_id = "hdsaleh.testnet".to_string();
    contract.set_owner(my_token.clone(), owner_account_id.clone());
    let owner_of_nft = contract.get_owner("not_my_token".to_string());
    assert_eq!(owner_of_nft, "No owner found".to_string());
}

#[test]
fn fresh_registry_has_no_owner() {
    let contract = NftOwners::default();
    assert_eq!(contract.get_owner("anything".to_string()), "No owner found".to_string());
}

#[test]
fn marker_text_is_exact() {
    assert_eq!(NO_OWNER_FOUND, "No owner found");
    assert_eq!(NO_OWNER_FOUND.len(), 14);
    assert_eq!(NftOwners::default().get_owner(String::new()), NO_OWNER_FOUND);
}

#[test]
fn lookup_after_write_returns_the_owner() {
    let pairs =
        [("a", "alice.near"), ("token-2", "bob.testnet"), ("ünïcödé", "carol"), ("t", "")];
    for (token_id, owner_id) in pairs {
        let mut contract = NftOwners::default();
        contract.set_owner(token_id.to_string(), owner_id.to_string());
        assert_eq!(contract.get_owner(token_id.to_string()), owner_id.to_string());
    }
}

#[test]
fn never_written_token_has_no_owner() {
    let mut contract = NftOwners::default();
    contract.set_owner("one".to_string(), "alice".to_string());
    contract.set_owner("two".to_string(), "bob".to_string());
    contract.set_owner("one".to_string(), "carol".to_string());
    assert_eq!(contract.get_owner("three".to_string()), "No owner found".to_string());
    assert_eq!(contract.get_owner("on".to_string()), "No owner found".to_string());
    assert_eq!(contract.get_owner("one ".to_string()), "No owner found".to_string());
    assert_eq!(contract.get_owner("One".to_string()), "No owner found".to_string());
}

#[test]
fn writing_twice_is_writing_once() {
    let mut once = NftOwners::default();
    once.set_owner("my_token".to_string(), "hdsaleh.testnet".to_string());
    let mut twice = NftOwners::default();
    twice.set_owner("my_token".to_string(), "hdsaleh.testnet".to_string());
    twice.set_owner("my_token".to_string(), "hdsaleh.testnet".to_string());
    assert_eq!(twice.get_owner("my_token".to_string()), "hdsaleh.testnet".to_string());
    assert_eq!(twice.into_entries(), once.into_entries());
}

#[test]
fn last_write_wins() {
    let mut contract = NftOwners::default();
    contract.set_owner("my_token".to_string(), "first.testnet".to_string());
    contract.set_owner("my_token".to_string(), "second.testnet".to_string());
    assert_eq!(contract.get_owner("my_token".to_string()), "second.testnet".to_string());
    assert_eq!(contract.into_entries(), vec![entry("my_token", "second.testnet")]);
}

#[test]
fn write_leaves_other_tokens() {
    let mut contract = NftOwners::default();
    contract.set_owner("kept".to_string(), "alice".to_string());
    let absent_before = contract.get_owner("absent".to_string());
    contract.set_owner("written".to_string(), "bob".to_string());
    contract.set_owner("written".to_string(), "carol".to_string());
    assert_eq!(contract.get_owner("kept".to_string()), "alice".to_string());
    assert_eq!(contract.get_owner("absent".to_string()), absent_before);
    assert_eq!(contract.get_owner("written".to_string()), "carol".to_string());
}

#[test]
fn empty_token_id_is_a_key() {
    let mut contract = NftOwners::default();
    assert_eq!(contract.get_owner(String::new()), "No owner found".to_string());
    contract.set_owner(String::new(), "alice".to_string());
    assert_eq!(contract.get_owner(String::new()), "alice".to_string());
    assert_eq!(contract.get_owner(" ".to_string()), "No owner found".to_string());
}

#[test]
fn owner_equal_to_marker_text_reads_like_no_entry() {
    let mut contract = NftOwners::default();
    contract.set_owner("my_token".to_string(), "No owner found".to_string());
    assert_eq!(
        contract.get_owner("my_token".to_string()),
        contract.get_owner("not_my_token".to_string())
    );
    assert_eq!(contract.into_entries(), vec![entry("my_token", "No owner found")]);
}

#[test]
fn one_owner_may_hold_many_tokens() {
    let mut contract = NftOwners::default();
    contract.set_owner("one".to_string(), "alice".to_string());
    contract.set_owner("two".to_string(), "alice".to_string());
    assert_eq!(contract.get_owner("one".to_string()), "alice".to_string());
    assert_eq!(contract.get_owner("two".to_string()), "alice".to_string());
    assert_eq!(
        sorted(contract.into_entries()),
        vec![entry("one", "alice"), entry("two", "alice")]
    );
}

#[test]
fn from_entries_applies_writes_in_order() {
    let writes = vec![
        entry("one", "alice"),
        entry("two", "bob"),
        entry("one", "carol"),
        entry("", "dave"),
    ];
    let contract = NftOwners::from_entries(&writes);
    assert_eq!(contract.get_owner("one".to_string()), "carol".to_string());
    assert_eq!(contract.get_owner("two".to_string()), "bob".to_string());
    assert_eq!(contract.get_owner(String::new()), "dave".to_string());
    assert_eq!(contract.get_owner("three".to_string()), "No owner found".to_string());
    assert_eq!(
        sorted(contract.into_entries()),
        vec![entry("", "dave"), entry("one", "carol"), entry("two", "bob")]
    );
}

#[test]
fn from_entries_of_nothing_is_empty() {
    let contract = NftOwners::from_entries(&[]);
    assert_eq!(contract.get_owner("anything".to_string()), "No owner found".to_string());
    assert_eq!(contract.into_entries(), Vec::<(String, String)>::new());
}

#[test]
fn entries_round_trip() {
    let mut contract = NftOwners::default();
    for i in 0..50u32 {
        contract.set_owner(format!("token-{}", i % 20), format!("owner-{}", i));
    }
    let entries = contract.into_entries();
    assert_eq!(entries.len(), 20);
    let again = NftOwners::from_entries(&entries);
    for i in 0..10u32 {
        assert_eq!(again.get_owner(format!("token-{}", i)), format!("owner-{}", 40 + i));
    }
    for i in 10..20u32 {
        assert_eq!(again.get_owner(format!("token-{}", i)), format!("owner-{}", 20 + i));
    }
    assert_eq!(again.get_owner("token-20".to_string()), "No owner found".to_string());
    assert_eq!(again.into_entries(), entries);
}
