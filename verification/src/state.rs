//! What the registry keeps: one configuration and one record for each name,
//! both held in a key-value store as encoded values under prefixed keys.

use vstd::prelude::*;
use cosmwasm_std::{CanonicalAddr, MemoryStorage, StdError};
use cosmwasm_storage::{bucket, bucket_read, singleton, singleton_read};
use crate::coin_helpers::{price_view, Coin, CoinView};
use crate::error::ContractError;

verus! {

/// The namespace of the name records: the bytes of `nameresolver`.
pub const NAME_RESOLVER_KEY: [u8; 12] = [
    110, 97, 109, 101, 114, 101, 115, 111, 108, 118, 101, 114,
];

/// The name of the configuration slot: the bytes of `config`.
pub const CONFIG_KEY: [u8; 6] = [99, 111, 110, 102, 105, 103];

/// The configuration of a registry.
#[derive(Debug, PartialEq, Eq)]
pub struct State {
    /// What registering a name costs; `None`, or an amount of zero, for nothing.
    pub purchase_price: Option<Coin>,
    /// What transferring a name costs; `None`, or an amount of zero, for nothing.
    pub transfer_price: Option<Coin>,
}

/// A configuration as contracts see it.
pub struct StateView {
    pub purchase_price: Option<CoinView>,
    pub transfer_price: Option<CoinView>,
}

impl View for State {
    type V = StateView;

    open spec fn view(&self) -> StateView {
        StateView {
            purchase_price: price_view(self.purchase_price),
            transfer_price: price_view(self.transfer_price),
        }
    }
}

/// The record of a registered name.
#[derive(Debug, PartialEq, Eq)]
pub struct NameRecord {
    /// The canonical address of the owner.
    pub owner: Vec<u8>,
}

impl View for NameRecord {
    type V = Seq<u8>;

    open spec fn view(&self) -> Seq<u8> {
        self.owner@
    }
}

impl Clone for NameRecord {
    fn clone(&self) -> (copy: Self)
        ensures
            copy@ == self@,
    {
        NameRecord { owner: self.owner.clone() }
    }
}

/// `cosmwasm_std::MemoryStorage`, the key-value store that the registry is
/// kept in. Nothing is known of what is inside one but through
/// `storage_entries`.
#[verifier::external_type_specification]
#[verifier::external_body]
pub struct ExMemoryStorage(MemoryStorage);

/// `cosmwasm_std::StdError`, the error of the store's own operations. It is
/// carried and never looked into.
#[verifier::external_type_specification]
#[verifier::external_body]
pub struct ExStdError(StdError);

/// The entries of a `cosmwasm_std::MemoryStorage`: the value under each key
/// that has one.
pub uninterp spec fn storage_entries(storage: MemoryStorage) -> Map<Seq<u8>, Seq<u8>>;

/// The bytes that `cosmwasm_storage::Singleton::save` writes for a
/// configuration; `None` where it fails to encode one.
pub uninterp spec fn state_json(state: StateView) -> Option<Seq<u8>>;

/// The configuration that `cosmwasm_storage::ReadonlySingleton::load` makes
/// of the bytes of an entry; `None` where it fails to decode them.
pub uninterp spec fn state_of_json(bytes: Seq<u8>) -> Option<StateView>;

/// The bytes that `cosmwasm_storage::Bucket::save` writes for a record with
/// this owner; `None` where it fails to encode one.
pub uninterp spec fn owner_json(owner: Seq<u8>) -> Option<Seq<u8>>;

/// The owner of the record that `cosmwasm_storage::ReadonlyBucket::may_load`
/// makes of the bytes of an entry; `None` where it fails to decode them.
pub uninterp spec fn owner_of_json(bytes: Seq<u8>) -> Option<Seq<u8>>;

/// A namespace of at most 65535 bytes behind its length, the length written
/// as two bytes with the high byte first.
pub open spec fn length_prefixed(namespace: Seq<u8>) -> Seq<u8> {
    seq![(namespace.len() / 256) as u8, (namespace.len() % 256) as u8] + namespace
}

/// `cosmwasm_storage::Singleton::save` on a pair of optional
/// `cosmwasm_std::Coin`, the two prices in order. Believed of it: it encodes
/// the value and, if that succeeds, sets the entry under the length-prefixed
/// key to the encoding and touches no other entry; if encoding fails it
/// returns the error and changes nothing. Also believed: what it wrote,
/// `cosmwasm_storage::ReadonlySingleton::load` decodes to the same value.
#[verifier::external_body]
fn singleton_save(storage: &mut MemoryStorage, key: &[u8], state: &State) -> (result: Result<
    (),
    StdError,
>)
    requires
        key@.len() <= 0xFFFF,
    ensures
        result is Ok <==> state_json(state@) is Some,
        result is Ok ==> state_of_json(state_json(state@)->0) == Some(state@),
        result is Ok ==> storage_entries(*final(storage)) == storage_entries(*old(storage)).insert(
            length_prefixed(key@),
            state_json(state@)->0,
        ),
        result is Err ==> storage_entries(*final(storage)) == storage_entries(*old(storage)),
{
    let outside = |c: &Coin| cosmwasm_std::Coin::new(c.amount, &c.denom);
    let purchase = state.purchase_price.as_ref().map(outside);
    let transfer = state.transfer_price.as_ref().map(outside);
    singleton::<MemoryStorage, (Option<cosmwasm_std::Coin>, Option<cosmwasm_std::Coin>)>(
        storage,
        key,
    ).save(&(purchase, transfer))
}

/// `cosmwasm_storage::ReadonlySingleton::load` on a pair of optional
/// `cosmwasm_std::Coin`, the two prices in order. Believed of it: it returns the value that the entry
/// under the length-prefixed key decodes to, and an error where there is no
/// such entry or it does not decode.
#[verifier::external_body]
fn singleton_load(storage: &MemoryStorage, key: &[u8]) -> (result: Result<State, StdError>)
    requires
        key@.len() <= 0xFFFF,
    ensures
        result is Ok <==> (storage_entries(*storage).contains_key(length_prefixed(key@))
            && state_of_json(storage_entries(*storage)[length_prefixed(key@)]) is Some),
        result is Ok ==> state_of_json(storage_entries(*storage)[length_prefixed(key@)]) == Some(
            result->Ok_0@,
        ),
{
    let (purchase, transfer) = singleton_read::<
        MemoryStorage,
        (Option<cosmwasm_std::Coin>, Option<cosmwasm_std::Coin>),
    >(storage, key).load()?;
    let inside = |c: cosmwasm_std::Coin| Coin { denom: c.denom, amount: c.amount.u128() };
    Ok(State { purchase_price: purchase.map(inside), transfer_price: transfer.map(inside) })
}

/// `cosmwasm_storage::Bucket::save` on a `cosmwasm_std::CanonicalAddr`, the
/// owner of the record. Believed of it: it encodes the value and, if that
/// succeeds, sets the entry whose key is the length-prefixed namespace
/// followed by `key` to the encoding and touches no other entry; if encoding
/// fails it returns the error and changes nothing. Also believed: what it
/// wrote, `cosmwasm_storage::ReadonlyBucket::may_load` decodes to the same
/// value.
#[verifier::external_body]
fn bucket_save(
    storage: &mut MemoryStorage,
    namespace: &[u8],
    key: &[u8],
    record: &NameRecord,
) -> (result: Result<(), StdError>)
    requires
        namespace@.len() <= 0xFFFF,
    ensures
        result is Ok <==> owner_json(record@) is Some,
        result is Ok ==> owner_of_json(owner_json(record@)->0) == Some(record@),
        result is Ok ==> storage_entries(*final(storage)) == storage_entries(*old(storage)).insert(
            length_prefixed(namespace@) + key@,
            owner_json(record@)->0,
        ),
        result is Err ==> storage_entries(*final(storage)) == storage_entries(*old(storage)),
{
    let owner = CanonicalAddr::from(record.owner.clone());
    bucket::<MemoryStorage, CanonicalAddr>(namespace, storage).save(key, &owner)
}

/// `cosmwasm_storage::ReadonlyBucket::may_load` on a
/// `cosmwasm_std::CanonicalAddr`, the owner of the record. Believed of it: where the store has no
/// entry whose key is the length-prefixed namespace followed by `key`, it
/// returns `Ok(None)`; where it has one, the value that the entry decodes to,
/// or an error if it does not decode.
#[verifier::external_body]
fn bucket_may_load(storage: &MemoryStorage, namespace: &[u8], key: &[u8]) -> (result: Result<
    Option<NameRecord>,
    StdError,
>)
    requires
        namespace@.len() <= 0xFFFF,
    ensures
        result matches Ok(None) <==> !storage_entries(*storage).contains_key(
            length_prefixed(namespace@) + key@,
        ),
        result is Err <==> (storage_entries(*storage).contains_key(
            length_prefixed(namespace@) + key@,
        ) && owner_of_json(storage_entries(*storage)[length_prefixed(namespace@) + key@]) is None),
        result matches Ok(Some(record)) ==> owner_of_json(
            storage_entries(*storage)[length_prefixed(namespace@) + key@],
        ) == Some(record@),
{
    let loaded = bucket_read::<MemoryStorage, CanonicalAddr>(namespace, storage).may_load(key)?;
    Ok(loaded.map(|owner| NameRecord { owner: owner.0.0 }))
}

/// What reading a saved value back gives.
pub enum Stored<T> {
    /// The value that the saved bytes decode to.
    Value(T),
    /// The saved bytes do not decode.
    Unreadable,
}

/// A store as the registry reads it.
pub struct RegistryView {
    /// The configuration slot; `None` while nothing was written to it.
    pub config: Option<Stored<StateView>>,
    /// For each key that has a record, the owner that the record names.
    pub records: Map<Seq<u8>, Stored<Seq<u8>>>,
}

/// The key of the configuration slot.
pub open spec fn config_key() -> Seq<u8> {
    length_prefixed(CONFIG_KEY@)
}

/// The key of the record that is kept under `key`.
pub open spec fn record_key(key: Seq<u8>) -> Seq<u8> {
    length_prefixed(NAME_RESOLVER_KEY@) + key
}

/// What the bytes of the configuration slot read as.
pub open spec fn read_state(bytes: Seq<u8>) -> Stored<StateView> {
    match state_of_json(bytes) {
        Some(state) => Stored::Value(state),
        None => Stored::Unreadable,
    }
}

/// What the bytes of a record read as.
pub open spec fn read_owner(bytes: Seq<u8>) -> Stored<Seq<u8>> {
    match owner_of_json(bytes) {
        Some(owner) => Stored::Value(owner),
        None => Stored::Unreadable,
    }
}

/// The registry's reading of a set of entries.
pub open spec fn view_of_entries(entries: Map<Seq<u8>, Seq<u8>>) -> RegistryView {
    RegistryView {
        config: if entries.contains_key(config_key()) {
            Some(read_state(entries[config_key()]))
        } else {
            None
        },
        records: Map::new(
            |key: Seq<u8>| entries.contains_key(record_key(key)),
            |key: Seq<u8>| read_owner(entries[record_key(key)]),
        ),
    }
}

/// The registry's reading of a store.
pub open spec fn store_view(storage: MemoryStorage) -> RegistryView {
    view_of_entries(storage_entries(storage))
}

/// Two records have one key in the store only if they are kept under one key.
pub proof fn lemma_record_keys_differ(a: Seq<u8>, b: Seq<u8>)
    ensures
        record_key(a) == record_key(b) <==> a == b,
{
    if record_key(a) == record_key(b) {
        let prefix = length_prefixed(NAME_RESOLVER_KEY@);
        assert(a =~= (prefix + a).subrange(prefix.len() as int, (prefix + a).len() as int));
        assert(b =~= (prefix + b).subrange(prefix.len() as int, (prefix + b).len() as int));
    }
}

/// No record has the key of the configuration slot.
pub proof fn lemma_config_key_is_no_record_key(key: Seq<u8>)
    ensures
        record_key(key) != config_key(),
{
    assert(record_key(key)[1] == 12u8);
    assert(config_key()[1] == 6u8);
}

/// Writing a record changes the reading of that record and of nothing else.
pub proof fn lemma_view_after_record_write(
    entries: Map<Seq<u8>, Seq<u8>>,
    key: Seq<u8>,
    bytes: Seq<u8>,
)
    ensures
        view_of_entries(entries.insert(record_key(key), bytes)) == (RegistryView {
            config: view_of_entries(entries).config,
            records: view_of_entries(entries).records.insert(key, read_owner(bytes)),
        }),
{
    let after = view_of_entries(entries.insert(record_key(key), bytes));
    let before = view_of_entries(entries);
    lemma_config_key_is_no_record_key(key);
    assert forall|other: Seq<u8>| other != key implies record_key(other) != record_key(key) by {
        lemma_record_keys_differ(other, key);
    }
    assert(after.records =~= before.records.insert(key, read_owner(bytes)));
}

/// Writing the configuration changes the reading of the configuration and of
/// nothing else.
pub proof fn lemma_view_after_config_write(entries: Map<Seq<u8>, Seq<u8>>, bytes: Seq<u8>)
    ensures
        view_of_entries(entries.insert(config_key(), bytes)) == (RegistryView {
            config: Some(read_state(bytes)),
            records: view_of_entries(entries).records,
        }),
{
    let after = view_of_entries(entries.insert(config_key(), bytes));
    let before = view_of_entries(entries);
    assert forall|key: Seq<u8>| record_key(key) != config_key() by {
        lemma_config_key_is_no_record_key(key);
    }
    assert(after.records =~= before.records);
}

/// Writes the configuration. It fails, changing nothing, only where the
/// configuration cannot be encoded.
pub fn config(storage: &mut MemoryStorage, state: &State) -> (result: Result<(), ContractError>)
    ensures
        result is Ok <==> state_json(state@) is Some,
        result is Ok ==> storage_entries(*final(storage)) == storage_entries(*old(storage)).insert(
            config_key(),
            state_json(state@)->0,
        ),
        result is Ok ==> store_view(*final(storage)) == (RegistryView {
            config: Some(Stored::Value(state@)),
            records: store_view(*old(storage)).records,
        }),
        result matches Err(e) ==> e == ContractError::StoreFailure && storage_entries(
            *final(storage),
        ) == storage_entries(*old(storage)),
{
    match singleton_save(storage, CONFIG_KEY.as_slice(), state) {
        Ok(()) => {
            proof {
                lemma_view_after_config_write(
                    storage_entries(*old(storage)),
                    state_json(state@)->0,
                );
            }
            Ok(())
        },
        Err(_) => Err(ContractError::StoreFailure),
    }
}

/// Reads the configuration. It fails where none was written or what is
/// there cannot be read.
pub fn config_read(storage: &MemoryStorage) -> (result: Result<State, ContractError>)
    ensures
        match store_view(*storage).config {
            Some(Stored::Value(state)) => result matches Ok(loaded) && loaded@ == state,
            _ => result matches Err(e) && e == ContractError::StoreFailure,
        },
{
    match singleton_load(storage, CONFIG_KEY.as_slice()) {
        Ok(state) => Ok(state),
        Err(_) => Err(ContractError::StoreFailure),
    }
}

/// Writes the record kept under `key`, over any that is there. It fails,
/// changing nothing, only where the record cannot be encoded.
pub fn resolver(storage: &mut MemoryStorage, key: &[u8], record: &NameRecord) -> (result: Result<
    (),
    ContractError,
>)
    ensures
        result is Ok <==> owner_json(record@) is Some,
        result is Ok ==> storage_entries(*final(storage)) == storage_entries(*old(storage)).insert(
            record_key(key@),
            owner_json(record@)->0,
        ),
        result is Ok ==> store_view(*final(storage)) == (RegistryView {
            config: store_view(*old(storage)).config,
            records: store_view(*old(storage)).records.insert(key@, Stored::Value(record@)),
        }),
        result matches Err(e) ==> e == ContractError::StoreFailure && storage_entries(
            *final(storage),
        ) == storage_entries(*old(storage)),
{
    match bucket_save(storage, NAME_RESOLVER_KEY.as_slice(), key, record) {
        Ok(()) => {
            proof {
                lemma_view_after_record_write(
                    storage_entries(*old(storage)),
                    key@,
                    owner_json(record@)->0,
                );
            }
            Ok(())
        },
        Err(_) => Err(ContractError::StoreFailure),
    }
}

/// Reads the record kept under `key`: `None` where there is none. It fails
/// where what is there cannot be read.
pub fn resolver_read(storage: &MemoryStorage, key: &[u8]) -> (result: Result<
    Option<NameRecord>,
    ContractError,
>)
    ensures
        match store_view(*storage).records.get(key@) {
            None => result matches Ok(None),
            Some(Stored::Value(owner)) => result matches Ok(Some(record)) && record@ == owner,
            Some(Stored::Unreadable) => result matches Err(e) && e == ContractError::StoreFailure,
        },
{
    match bucket_may_load(storage, NAME_RESOLVER_KEY.as_slice(), key) {
        Ok(found) => Ok(found),
        Err(_) => Err(ContractError::StoreFailure),
    }
}

/// The view of an optional record.
pub open spec fn record_view(record: Option<NameRecord>) -> Option<Seq<u8>> {
    match record {
        Some(record) => Some(record@),
        None => None,
    }
}

/// Reads the record kept under `key`, hands it (or its absence) to `action`
/// and writes back what `action` returns. Where `action` fails, or the store
/// cannot read or write, nothing is written and the error comes back.
pub fn resolver_update<F>(storage: &mut MemoryStorage, key: &[u8], action: F) -> (result: Result<
    NameRecord,
    ContractError,
>) where F: FnOnce(Option<NameRecord>) -> Result<NameRecord, ContractError>
    requires
        forall|input: Option<NameRecord>| action.requires((input,)),
    ensures
        result is Err ==> storage_entries(*final(storage)) == storage_entries(*old(storage)),
        store_view(*old(storage)).records.get(key@) == Some(Stored::<Seq<u8>>::Unreadable)
            ==> (result matches Err(e) && e == ContractError::StoreFailure),
        store_view(*old(storage)).records.get(key@) != Some(Stored::<Seq<u8>>::Unreadable)
            ==> exists|input: Option<NameRecord>, output: Result<NameRecord, ContractError>|
            {
                &&& match store_view(*old(storage)).records.get(key@) {
                    Some(Stored::Value(owner)) => record_view(input) == Some(owner),
                    _ => input is None,
                }
                &&& action.ensures((input,), output)
                &&& match output {
                    Err(e) => result matches Err(failure) && failure == e,
                    Ok(record) => if owner_json(record@) is Some {
                        &&& result matches Ok(saved) && saved@ == record@
                        &&& storage_entries(*final(storage)) == storage_entries(
                            *old(storage),
                        ).insert(record_key(key@), owner_json(record@)->0)
                        &&& store_view(*final(storage)) == (RegistryView {
                            config: store_view(*old(storage)).config,
                            records: store_view(*old(storage)).records.insert(
                                key@,
                                Stored::Value(record@),
                            ),
                        })
                    } else {
                        result matches Err(e) && e == ContractError::StoreFailure
                    },
                }
            },
{
    let input = match resolver_read(storage, key) {
        Ok(found) => found,
        Err(e) => {
            return Err(e);
        },
    };
    let ghost handed = input;
    let output = action(input);
    assert(action.ensures((handed,), output));
    match output {
        Err(e) => Err(e),
        Ok(record) => match resolver(storage, key, &record) {
            Ok(()) => Ok(record),
            Err(e) => Err(e),
        },
    }
}

} // verus!
