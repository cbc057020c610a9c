use cosmwasm_std::{MemoryStorage, ReadonlyStorage, Storage};
use nameservice::coin_helpers::Coin;
use nameservice::error::ContractError;
use nameservice::state::{
    config, config_read, resolver, resolver_read, resolver_update, NameRecord, State, CONFIG_KEY,
    NAME_RESOLVER_KEY,
};

fn coin(amount: u128, denom: &str) -> Coin {
    Coin { denom: denom.to_string(), amount }
}

fn record(owner: &[u8]) -> NameRecord {
    NameRecord { owner: owner.to_vec() }
}

#[test]
fn the_key_constants_spell_their_names() {
    assert_eq!(&NAME_RESOLVER_KEY[..], b"nameresolver");
    assert_eq!(&CONFIG_KEY[..], b"config");
}

#[test]
fn configuration_is_missing_before_it_is_written() {
    let storage = MemoryStorage::new();
    assert_eq!(config_read(&storage), Err(ContractError::StoreFailure));
}

#[test]
fn configuration_reads_back_as_written() {
    let mut storage = MemoryStorage::new();
    let state = State {
        purchase_price: Some(coin(100, "earth")),
        transfer_price: None,
    };
    assert_eq!(config(&mut storage, &state), Ok(()));
    assert_eq!(config_read(&storage), Ok(state));
}

#[test]
fn configuration_with_both_prices_keeps_them_apart() {
    let mut storage = MemoryStorage::new();
    let state = State {
        purchase_price: Some(coin(1, "earth")),
        transfer_price: Some(coin(2, "mars")),
    };
    assert_eq!(config(&mut storage, &state), Ok(()));
    let loaded = config_read(&storage).unwrap();
    assert_eq!(loaded.purchase_price, Some(coin(1, "earth")));
    assert_eq!(loaded.transfer_price, Some(coin(2, "mars")));
}

#[test]
fn configuration_keeps_odd_denominations_and_large_amounts() {
    let mut storage = MemoryStorage::new();
    let state = State {
        purchase_price: Some(coin(u128::MAX, "qu\"ote\\back\nline\ttab\u{1}\u{e9}\u{1f600}")),
        transfer_price: Some(coin(0, "")),
    };
    assert_eq!(config(&mut storage, &state), Ok(()));
    assert_eq!(config_read(&storage), Ok(state));
}

#[test]
fn a_later_configuration_replaces_the_earlier() {
    let mut storage = MemoryStorage::new();
    let first = State { purchase_price: Some(coin(1, "earth")), transfer_price: None };
    let second = State { purchase_price: None, transfer_price: Some(coin(2, "mars")) };
    assert_eq!(config(&mut storage, &first), Ok(()));
    assert_eq!(config(&mut storage, &second), Ok(()));
    assert_eq!(config_read(&storage), Ok(second));
}

#[test]
fn configuration_is_kept_under_the_prefixed_key() {
    let mut storage = MemoryStorage::new();
    let state = State { purchase_price: None, transfer_price: None };
    assert_eq!(config(&mut storage, &state), Ok(()));
    assert!(storage.get(b"\x00\x06config").is_some());
    assert!(storage.get(b"config").is_none());
}

#[test]
fn unreadable_configuration_is_a_store_failure() {
    let mut storage = MemoryStorage::new();
    storage.set(b"\x00\x06config", b"not json");
    assert_eq!(config_read(&storage), Err(ContractError::StoreFailure));
}

#[test]
fn a_missing_record_reads_as_none() {
    let storage = MemoryStorage::new();
    assert_eq!(resolver_read(&storage, b"alice"), Ok(None));
}

#[test]
fn a_record_reads_back_as_written() {
    let mut storage = MemoryStorage::new();
    assert_eq!(resolver(&mut storage, b"alice", &record(b"owner-a")), Ok(()));
    assert_eq!(resolver_read(&storage, b"alice"), Ok(Some(record(b"owner-a"))));
}

#[test]
fn every_byte_of_an_owner_is_kept() {
    let mut storage = MemoryStorage::new();
    let all: Vec<u8> = (0u8..=255u8).collect();
    assert_eq!(resolver(&mut storage, b"alice", &record(&all)), Ok(()));
    assert_eq!(resolver_read(&storage, b"alice"), Ok(Some(record(&all))));
    assert_eq!(resolver(&mut storage, b"bob", &record(b"")), Ok(()));
    assert_eq!(resolver_read(&storage, b"bob"), Ok(Some(record(b""))));
}

#[test]
fn records_are_kept_apart_by_key() {
    let mut storage = MemoryStorage::new();
    assert_eq!(resolver(&mut storage, b"alice", &record(b"a")), Ok(()));
    assert_eq!(resolver(&mut storage, b"alice2", &record(b"b")), Ok(()));
    assert_eq!(resolver(&mut storage, b"", &record(b"c")), Ok(()));
    assert_eq!(resolver_read(&storage, b"alice"), Ok(Some(record(b"a"))));
    assert_eq!(resolver_read(&storage, b"alice2"), Ok(Some(record(b"b"))));
    assert_eq!(resolver_read(&storage, b""), Ok(Some(record(b"c"))));
    assert_eq!(resolver_read(&storage, b"alic"), Ok(None));
}

#[test]
fn a_record_is_kept_under_the_prefixed_key() {
    let mut storage = MemoryStorage::new();
    assert_eq!(resolver(&mut storage, b"alice", &record(b"a")), Ok(()));
    assert!(storage.get(b"\x00\x0cnameresolveralice").is_some());
    assert!(storage.get(b"alice").is_none());
    assert!(storage.get(b"nameresolveralice").is_none());
}

#[test]
fn records_and_configuration_do_not_disturb_each_other() {
    let mut storage = MemoryStorage::new();
    let state = State { purchase_price: Some(coin(3, "earth")), transfer_price: None };
    assert_eq!(config(&mut storage, &state), Ok(()));
    assert_eq!(resolver(&mut storage, b"config", &record(b"a")), Ok(()));
    assert_eq!(resolver(&mut storage, b"\x00\x06config", &record(b"b")), Ok(()));
    assert_eq!(config_read(&storage), Ok(state));
    assert_eq!(resolver_read(&storage, b"config"), Ok(Some(record(b"a"))));
    let other = State { purchase_price: None, transfer_price: None };
    assert_eq!(config(&mut storage, &other), Ok(()));
    assert_eq!(resolver_read(&storage, b"config"), Ok(Some(record(b"a"))));
    assert_eq!(resolver_read(&storage, b"\x00\x06config"), Ok(Some(record(b"b"))));
}

#[test]
fn an_unreadable_record_is_a_store_failure() {
    let mut storage = MemoryStorage::new();
    storage.set(b"\x00\x0cnameresolveralice", b"{");
    assert_eq!(resolver_read(&storage, b"alice"), Err(ContractError::StoreFailure));
    assert_eq!(resolver_read(&storage, b"bob"), Ok(None));
}

#[test]
fn update_writes_what_the_action_returns() {
    let mut storage = MemoryStorage::new();
    assert_eq!(resolver(&mut storage, b"alice", &record(b"a")), Ok(()));
    let updated = resolver_update(&mut storage, b"alice", |found| {
        assert_eq!(found, Some(record(b"a")));
        Ok(record(b"b"))
    });
    assert_eq!(updated, Ok(record(b"b")));
    assert_eq!(resolver_read(&storage, b"alice"), Ok(Some(record(b"b"))));
}

#[test]
fn update_hands_absence_to_the_action() {
    let mut storage = MemoryStorage::new();
    let updated = resolver_update(&mut storage, b"alice", |found| {
        assert_eq!(found, None);
        Ok(record(b"new"))
    });
    assert_eq!(updated, Ok(record(b"new")));
    assert_eq!(resolver_read(&storage, b"alice"), Ok(Some(record(b"new"))));
}

#[test]
fn update_writes_nothing_where_the_action_fails() {
    let mut storage = MemoryStorage::new();
    assert_eq!(resolver(&mut storage, b"alice", &record(b"a")), Ok(()));
    let refused = resolver_update(&mut storage, b"alice", |_| Err(ContractError::NotOwner));
    assert_eq!(refused, Err(ContractError::NotOwner));
    assert_eq!(resolver_read(&storage, b"alice"), Ok(Some(record(b"a"))));
    let absent = resolver_update(&mut storage, b"bob", |_| Err(ContractError::NameNotFound));
    assert_eq!(absent, Err(ContractError::NameNotFound));
    assert_eq!(resolver_read(&storage, b"bob"), Ok(None));
}

#[test]
fn update_fails_on_an_unreadable_record_without_asking_the_action() {
    let mut storage = MemoryStorage::new();
    storage.set(b"\x00\x0cnameresolveralice", b"garbage");
    let result = resolver_update(&mut storage, b"alice", |_| -> Result<NameRecord, ContractError> {
        panic!("the action must not run")
    });
    assert_eq!(result, Err(ContractError::StoreFailure));
    assert_eq!(
        storage.get(b"\x00\x0cnameresolveralice"),
        Some(b"garbage".to_vec())
    );
}

#[test]
fn a_cloned_record_is_the_same_record() {
    let original = record(b"owner");
    assert_eq!(original.clone(), original);
}
