//! The naming policy and the operations of the registry.

use vstd::prelude::*;
use vstd::string::*;
use vstd::utf8::encode_utf8;
use cosmwasm_std::MemoryStorage;
use crate::coin_helpers::{assert_sent_sufficient_coin, funds_view, price_view, sufficient, CoinView};
use crate::error::{ContractError, NameInvalid};
use crate::msg::{
    HandleMsg, HandleResponse, InitMsg, InitResponse, MessageInfo, QueryMsg, QueryResponse,
    ResolveRecordResponse,
};
use crate::state::{
    config, config_key, config_read, owner_json, record_key, record_view, resolver, resolver_read,
    resolver_update, state_json, storage_entries, store_view, NameRecord, RegistryView, State,
    StateView, Stored,
};

verus! {

/// The least number of characters of a name.
pub const MIN_NAME_LENGTH: usize = 3;

/// The greatest number of characters of a name.
pub const MAX_NAME_LENGTH: usize = 64;

/// The characters of names: ASCII digits, ASCII lower-case letters, `.`, `-`
/// and `_`.
pub open spec fn is_name_char(c: char) -> bool {
    ('0' <= c && c <= '9') || ('a' <= c && c <= 'z') || c == '.' || c == '-' || c == '_'
}

/// Every character of `name` is a character of names.
pub open spec fn all_name_chars(name: Seq<char>) -> bool {
    forall|i: int| 0 <= i < name.len() ==> is_name_char(#[trigger] name[i])
}

/// `position` holds the leftmost character of `name` that is no character of
/// names.
pub open spec fn is_first_invalid(name: Seq<char>, position: int) -> bool {
    &&& 0 <= position < name.len()
    &&& !is_name_char(name[position])
    &&& forall|j: int| 0 <= j < position ==> is_name_char(#[trigger] name[j])
}

/// The index of the leftmost bad character of a name that has one.
pub open spec fn first_invalid(name: Seq<char>) -> int {
    choose|p: int| is_first_invalid(name, p)
}

/// The verdict on a name. Lengths count characters and are judged first; a
/// name of permitted length is refused for its leftmost bad character.
pub open spec fn name_verdict(name: Seq<char>) -> Result<(), NameInvalid> {
    if name.len() < MIN_NAME_LENGTH {
        Err(NameInvalid::TooShort)
    } else if name.len() > MAX_NAME_LENGTH {
        Err(NameInvalid::TooLong)
    } else if all_name_chars(name) {
        Ok(())
    } else {
        let position = first_invalid(name);
        Err(NameInvalid::InvalidCharacter { c: name[position], position: position as usize })
    }
}

/// Whether `c` may not stand in a name.
pub fn invalid_char(c: char) -> (invalid: bool)
    ensures
        invalid == !is_name_char(c),
{
    let is_valid = (c >= '0' && c <= '9') || (c >= 'a' && c <= 'z') || (c == '.' || c == '-' || c
        == '_');
    !is_valid
}

/// Judges a name against the naming policy.
pub fn validate_name(name: &str) -> (result: Result<(), NameInvalid>)
    ensures
        result == name_verdict(name@),
{
    let length: usize = name.unicode_len();
    if length < MIN_NAME_LENGTH {
        Err(NameInvalid::TooShort)
    } else if length > MAX_NAME_LENGTH {
        Err(NameInvalid::TooLong)
    } else {
        let mut i: usize = 0;
        while i < length
            invariant
                i <= length,
                length == name@.len(),
                MIN_NAME_LENGTH <= length <= MAX_NAME_LENGTH,
                forall|j: int| 0 <= j < i ==> is_name_char(#[trigger] name@[j]),
            decreases length - i,
        {
            let c = name.get_char(i);
            if invalid_char(c) {
                proof {
                    lemma_first_invalid_unique(name@, i as int);
                }
                return Err(NameInvalid::InvalidCharacter { c, position: i });
            }
            i += 1;
        }
        Ok(())
    }
}

/// A name has at most one leftmost bad character: whatever position meets
/// `is_first_invalid` is the one that `first_invalid` names.
pub proof fn lemma_first_invalid_unique(name: Seq<char>, position: int)
    requires
        is_first_invalid(name, position),
    ensures
        !all_name_chars(name),
        first_invalid(name) == position,
{
    let chosen = first_invalid(name);
    assert(is_first_invalid(name, chosen));
    if chosen < position {
        assert(is_name_char(name[chosen]));
    } else if position < chosen {
        assert(is_name_char(name[position]));
    }
}

/// A name of three to sixty-four characters, each of them a character of
/// names, passes.
pub proof fn lemma_well_formed_name_passes(name: Seq<char>)
    requires
        MIN_NAME_LENGTH <= name.len() <= MAX_NAME_LENGTH,
        all_name_chars(name),
    ensures
        name_verdict(name) == Ok::<(), NameInvalid>(()),
{
}

/// A name that is too short or too long is refused for its length, whatever
/// its characters are.
pub proof fn lemma_length_is_judged_first(name: Seq<char>)
    ensures
        name.len() < MIN_NAME_LENGTH ==> name_verdict(name) == Err::<(), NameInvalid>(
            NameInvalid::TooShort,
        ),
        name.len() > MAX_NAME_LENGTH ==> name_verdict(name) == Err::<(), NameInvalid>(
            NameInvalid::TooLong,
        ),
{
}

/// A name of permitted length that holds a bad character is refused for the
/// leftmost one: the verdict names that character and its index, and every
/// character before it is a character of names.
pub proof fn lemma_leftmost_bad_character_is_reported(name: Seq<char>)
    requires
        MIN_NAME_LENGTH <= name.len() <= MAX_NAME_LENGTH,
        !all_name_chars(name),
    ensures
        is_first_invalid(name, first_invalid(name)),
        name_verdict(name) == Err::<(), NameInvalid>(
            NameInvalid::InvalidCharacter {
                c: name[first_invalid(name)],
                position: first_invalid(name) as usize,
            },
        ),
{
    lemma_some_bad_character_is_leftmost(name, name.len() as int);
}

/// Among the first `upto` characters of a name, either all are characters of
/// names or one of them is the leftmost bad one.
proof fn lemma_some_bad_character_is_leftmost(name: Seq<char>, upto: int)
    requires
        0 <= upto <= name.len(),
    ensures
        (forall|i: int| 0 <= i < upto ==> is_name_char(#[trigger] name[i])) || exists|p: int|
            0 <= p < upto && is_first_invalid(name, p),
    decreases upto,
{
    if upto > 0 {
        lemma_some_bad_character_is_leftmost(name, upto - 1);
        if forall|i: int| 0 <= i < upto - 1 ==> is_name_char(#[trigger] name[i]) {
            if !is_name_char(name[upto - 1]) {
                assert(is_first_invalid(name, upto - 1));
            }
        }
    }
}

/// The key under which the record of a name is kept: the bytes of the name.
pub open spec fn name_key(name: Seq<char>) -> Seq<u8> {
    encode_utf8(name)
}

/// The verdict on a registration of `name` for `sender` with `funds`, on a
/// registry that reads as `store`. The checks come in this order: the name,
/// the configuration, the payment, whether the name is free, and whether the
/// new record can be written.
pub open spec fn register_verdict(
    store: RegistryView,
    name: Seq<char>,
    sender: Seq<u8>,
    funds: Seq<CoinView>,
) -> Result<(), ContractError> {
    match (name_verdict(name), store.config) {
        (Err(e), _) => Err(ContractError::NameInvalid(e)),
        (Ok(()), Some(Stored::Value(prices))) => if !sufficient(funds, prices.purchase_price) {
            Err(ContractError::InsufficientFunds)
        } else {
            match store.records.get(name_key(name)) {
                Some(Stored::Value(_)) => Err(ContractError::NameTaken),
                Some(Stored::Unreadable) => Err(ContractError::StoreFailure),
                None => if owner_json(sender) is Some {
                    Ok(())
                } else {
                    Err(ContractError::StoreFailure)
                },
            }
        },
        (Ok(()), _) => Err(ContractError::StoreFailure),
    }
}

/// The registry after `name` got the owner `owner`.
pub open spec fn with_owner(store: RegistryView, name: Seq<char>, owner: Seq<u8>) -> RegistryView {
    RegistryView {
        config: store.config,
        records: store.records.insert(name_key(name), Stored::Value(owner)),
    }
}

/// What the owner of a name may do with it: where the name has the owner
/// `sender`, it goes to `new_owner`; nobody else may hand it on, and a name
/// without a record cannot be handed on at all.
pub open spec fn ownership_verdict(
    current: Option<Seq<u8>>,
    sender: Seq<u8>,
    new_owner: Seq<u8>,
) -> Result<Seq<u8>, ContractError> {
    match current {
        None => Err(ContractError::NameNotFound),
        Some(owner) => if owner == sender {
            Ok(new_owner)
        } else {
            Err(ContractError::NotOwner)
        },
    }
}

/// The verdict on a transfer of `name` from `sender` to `new_owner` with
/// `funds`, on a registry that reads as `store`. The checks come in this
/// order: the configuration, the payment, the record and its owner, and
/// whether the new record can be written. The name itself is not judged.
pub open spec fn transfer_verdict(
    store: RegistryView,
    name: Seq<char>,
    sender: Seq<u8>,
    new_owner: Seq<u8>,
    funds: Seq<CoinView>,
) -> Result<(), ContractError> {
    match store.config {
        Some(Stored::Value(prices)) => if !sufficient(funds, prices.transfer_price) {
            Err(ContractError::InsufficientFunds)
        } else {
            match store.records.get(name_key(name)) {
                Some(Stored::Unreadable) => Err(ContractError::StoreFailure),
                Some(Stored::Value(owner)) => match ownership_verdict(
                    Some(owner),
                    sender,
                    new_owner,
                ) {
                    Err(e) => Err(e),
                    Ok(_) => if owner_json(new_owner) is Some {
                        Ok(())
                    } else {
                        Err(ContractError::StoreFailure)
                    },
                },
                None => Err(ContractError::NameNotFound),
            }
        },
        _ => Err(ContractError::StoreFailure),
    }
}

/// The configuration that a set-up with `msg` writes.
pub open spec fn prices_of(msg: InitMsg) -> StateView {
    StateView {
        purchase_price: price_view(msg.purchase_price),
        transfer_price: price_view(msg.transfer_price),
    }
}

/// Sets the registry up with the prices of `msg`. It fails, changing
/// nothing, only where the configuration cannot be written.
pub fn init(storage: &mut MemoryStorage, msg: InitMsg) -> (result: Result<
    InitResponse,
    ContractError,
>)
    ensures
        result is Ok <==> state_json(prices_of(msg)) is Some,
        result is Ok ==> store_view(*final(storage)) == (RegistryView {
            config: Some(Stored::Value(prices_of(msg))),
            records: store_view(*old(storage)).records,
        }),
        result is Ok ==> storage_entries(*final(storage)) == storage_entries(*old(storage)).insert(
            config_key(),
            state_json(prices_of(msg))->0,
        ),
        result matches Err(e) ==> e == ContractError::StoreFailure && storage_entries(
            *final(storage),
        ) == storage_entries(*old(storage)),
{
    let state = State { purchase_price: msg.purchase_price, transfer_price: msg.transfer_price };
    match config(storage, &state) {
        Ok(()) => Ok(InitResponse {}),
        Err(e) => Err(e),
    }
}

/// Registers `name` for the sender of `info`. On success the name has a
/// record that names the sender as owner; on failure nothing has changed.
pub fn try_register(storage: &mut MemoryStorage, info: MessageInfo, name: String) -> (result:
    Result<HandleResponse, ContractError>)
    ensures
        result is Ok <==> register_verdict(
            store_view(*old(storage)),
            name@,
            info.sender@,
            funds_view(info.sent_funds@),
        ) is Ok,
        result matches Err(e) ==> register_verdict(
            store_view(*old(storage)),
            name@,
            info.sender@,
            funds_view(info.sent_funds@),
        ) == Err::<(), _>(e),
        result is Ok ==> store_view(*final(storage)) == with_owner(
            store_view(*old(storage)),
            name@,
            info.sender@,
        ),
        result is Ok ==> storage_entries(*final(storage)) == storage_entries(*old(storage)).insert(
            record_key(name_key(name@)),
            owner_json(info.sender@)->0,
        ),
        result is Err ==> storage_entries(*final(storage)) == storage_entries(*old(storage)),
{
    // the name is judged here and nowhere else: at the point of registration
    match validate_name(name.as_str()) {
        Ok(()) => {},
        Err(e) => {
            return Err(ContractError::NameInvalid(e));
        },
    }
    let config_state = match config_read(storage) {
        Ok(state) => state,
        Err(e) => {
            return Err(e);
        },
    };
    match assert_sent_sufficient_coin(info.sent_funds.as_slice(), config_state.purchase_price) {
        Ok(()) => {},
        Err(e) => {
            return Err(e);
        },
    }
    let key = name.as_str().as_bytes();
    let record = NameRecord { owner: info.sender };
    match resolver_read(storage, key) {
        Ok(None) => {},
        Ok(Some(_)) => {
            return Err(ContractError::NameTaken);
        },
        Err(e) => {
            return Err(e);
        },
    }
    match resolver(storage, key, &record) {
        Ok(()) => Ok(HandleResponse {}),
        Err(e) => Err(e),
    }
}

/// Decides a transfer on the record of the name, or on its absence: the
/// record that is to be written, or why there is none.
pub fn transfer_ownership(
    record: Option<NameRecord>,
    sender: &Vec<u8>,
    new_owner: &Vec<u8>,
) -> (result: Result<NameRecord, ContractError>)
    ensures
        match ownership_verdict(record_view(record), sender@, new_owner@) {
            Ok(owner) => result matches Ok(written) && written@ == owner,
            Err(e) => result matches Err(failure) && failure == e,
        },
{
    if let Some(mut record) = record {
        if !bytes_equal(sender.as_slice(), record.owner.as_slice()) {
            return Err(ContractError::NotOwner);
        }
        record.owner = new_owner.clone();
        Ok(record)
    } else {
        Err(ContractError::NameNotFound)
    }
}

/// Whether two byte strings are the same.
fn bytes_equal(a: &[u8], b: &[u8]) -> (same: bool)
    ensures
        same == (a@ == b@),
{
    if a.len() != b.len() {
        return false;
    }
    let mut i: usize = 0;
    while i < a.len()
        invariant
            i <= a.len(),
            a.len() == b.len(),
            forall|j: int| 0 <= j < i ==> a@[j] == b@[j],
        decreases a.len() - i,
    {
        if a[i] != b[i] {
            return false;
        }
        i += 1;
    }
    assert(a@ =~= b@);
    true
}

/// Hands `name` on from the sender of `info` to `to`. On success the record
/// of the name names `to` as owner; on failure nothing has changed.
pub fn try_transfer(
    storage: &mut MemoryStorage,
    info: MessageInfo,
    name: String,
    to: Vec<u8>,
) -> (result: Result<HandleResponse, ContractError>)
    ensures
        result is Ok <==> transfer_verdict(
            store_view(*old(storage)),
            name@,
            info.sender@,
            to@,
            funds_view(info.sent_funds@),
        ) is Ok,
        result matches Err(e) ==> transfer_verdict(
            store_view(*old(storage)),
            name@,
            info.sender@,
            to@,
            funds_view(info.sent_funds@),
        ) == Err::<(), _>(e),
        result is Ok ==> store_view(*final(storage)) == with_owner(
            store_view(*old(storage)),
            name@,
            to@,
        ),
        result is Ok ==> storage_entries(*final(storage)) == storage_entries(*old(storage)).insert(
            record_key(name_key(name@)),
            owner_json(to@)->0,
        ),
        result is Err ==> storage_entries(*final(storage)) == storage_entries(*old(storage)),
{
    let config_state = match config_read(storage) {
        Ok(state) => state,
        Err(e) => {
            return Err(e);
        },
    };
    match assert_sent_sufficient_coin(info.sent_funds.as_slice(), config_state.transfer_price) {
        Ok(()) => {},
        Err(e) => {
            return Err(e);
        },
    }
    let key = name.as_str().as_bytes();
    let sender = info.sender;
    let decide = |record: Option<NameRecord>| -> (decided: Result<NameRecord, ContractError>)
        ensures
            match ownership_verdict(record_view(record), sender@, to@) {
                Ok(owner) => decided matches Ok(written) && written@ == owner,
                Err(e) => decided matches Err(failure) && failure == e,
            },
        { transfer_ownership(record, &sender, &to) };
    match resolver_update(storage, key, decide) {
        Ok(_) => Ok(HandleResponse {}),
        Err(e) => Err(e),
    }
}

/// Carries out a request that changes the registry.
pub fn handle(storage: &mut MemoryStorage, info: MessageInfo, msg: HandleMsg) -> (result: Result<
    HandleResponse,
    ContractError,
>)
    ensures
        match msg {
            HandleMsg::Register { name } => {
                &&& result is Ok <==> register_verdict(
                    store_view(*old(storage)),
                    name@,
                    info.sender@,
                    funds_view(info.sent_funds@),
                ) is Ok
                &&& result matches Err(e) ==> register_verdict(
                    store_view(*old(storage)),
                    name@,
                    info.sender@,
                    funds_view(info.sent_funds@),
                ) == Err::<(), _>(e)
                &&& result is Ok ==> store_view(*final(storage)) == with_owner(
                    store_view(*old(storage)),
                    name@,
                    info.sender@,
                )
            },
            HandleMsg::Transfer { name, to } => {
                &&& result is Ok <==> transfer_verdict(
                    store_view(*old(storage)),
                    name@,
                    info.sender@,
                    to@,
                    funds_view(info.sent_funds@),
                ) is Ok
                &&& result matches Err(e) ==> transfer_verdict(
                    store_view(*old(storage)),
                    name@,
                    info.sender@,
                    to@,
                    funds_view(info.sent_funds@),
                ) == Err::<(), _>(e)
                &&& result is Ok ==> store_view(*final(storage)) == with_owner(
                    store_view(*old(storage)),
                    name@,
                    to@,
                )
            },
        },
        result is Err ==> storage_entries(*final(storage)) == storage_entries(*old(storage)),
{
    match msg {
        HandleMsg::Register { name } => try_register(storage, info, name),
        HandleMsg::Transfer { name, to } => try_transfer(storage, info, name, to),
    }
}

/// The owner that a look-up of `name` finds on a registry that reads as
/// `store`: `None` where the name has no record, and an error where the
/// record cannot be read.
pub open spec fn resolved_owner(store: RegistryView, name: Seq<char>) -> Result<
    Option<Seq<u8>>,
    ContractError,
> {
    match store.records.get(name_key(name)) {
        None => Ok(None),
        Some(Stored::Value(owner)) => Ok(Some(owner)),
        Some(Stored::Unreadable) => Err(ContractError::StoreFailure),
    }
}

/// The view of an optional address.
pub open spec fn address_view(address: Option<Vec<u8>>) -> Option<Seq<u8>> {
    match address {
        Some(bytes) => Some(bytes@),
        None => None,
    }
}

/// Answers a query. Nothing is changed.
pub fn query(storage: &MemoryStorage, msg: QueryMsg) -> (result: Result<
    QueryResponse,
    ContractError,
>)
    ensures
        match msg {
            QueryMsg::ResolveRecord { name } => match resolved_owner(store_view(*storage), name@) {
                Ok(owner) => result matches Ok(QueryResponse::ResolveRecord(response))
                    && address_view(response.address) == owner,
                Err(e) => result matches Err(failure) && failure == e,
            },
            QueryMsg::Config {} => match store_view(*storage).config {
                Some(Stored::Value(state)) => result matches Ok(QueryResponse::Config(loaded))
                    && loaded@ == state,
                _ => result matches Err(e) && e == ContractError::StoreFailure,
            },
        },
{
    match msg {
        QueryMsg::ResolveRecord { name } => match query_resolver(storage, name) {
            Ok(response) => Ok(QueryResponse::ResolveRecord(response)),
            Err(e) => Err(e),
        },
        QueryMsg::Config {} => match config_read(storage) {
            Ok(state) => Ok(QueryResponse::Config(state)),
            Err(e) => Err(e),
        },
    }
}

/// Looks up the owner of `name`. A name without a record is no error: the
/// answer then holds no address.
pub fn query_resolver(storage: &MemoryStorage, name: String) -> (result: Result<
    ResolveRecordResponse,
    ContractError,
>)
    ensures
        match resolved_owner(store_view(*storage), name@) {
            Ok(owner) => result matches Ok(response) && address_view(response.address) == owner,
            Err(e) => result matches Err(failure) && failure == e,
        },
{
    let key = name.as_str().as_bytes();
    let address = match resolver_read(storage, key) {
        Ok(Some(record)) => Some(record.owner),
        Ok(None) => None,
        Err(e) => {
            return Err(e);
        },
    };
    Ok(ResolveRecordResponse { address })
}

/// Two names have one key only if they are one name.
pub proof fn lemma_name_keys_differ(a: Seq<char>, b: Seq<char>)
    ensures
        name_key(a) == name_key(b) <==> a == b,
{
    vstd::utf8::encode_utf8_decode_utf8(a);
    vstd::utf8::encode_utf8_decode_utf8(b);
}

/// Once a name has an owner, a look-up of the name gives that owner, and a
/// look-up of any other name gives what it gave before.
pub proof fn lemma_owner_is_resolved(
    store: RegistryView,
    name: Seq<char>,
    owner: Seq<u8>,
    other: Seq<char>,
)
    ensures
        resolved_owner(with_owner(store, name, owner), name) == Ok::<
            Option<Seq<u8>>,
            ContractError,
        >(Some(owner)),
        other != name ==> resolved_owner(with_owner(store, name, owner), other) == resolved_owner(
            store,
            other,
        ),
{
    lemma_name_keys_differ(other, name);
}

/// A name that was registered is taken: whoever tries to register it again,
/// with whatever funds, is refused, and for this very reason where the funds
/// meet the price.
pub proof fn lemma_registered_name_is_taken(
    store: RegistryView,
    name: Seq<char>,
    owner: Seq<u8>,
    paid: Seq<CoinView>,
    sender: Seq<u8>,
    funds: Seq<CoinView>,
)
    requires
        register_verdict(store, name, owner, paid) is Ok,
    ensures
        register_verdict(with_owner(store, name, owner), name, sender, funds) is Err,
        store.config matches Some(Stored::Value(prices)) && (sufficient(
            funds,
            prices.purchase_price,
        ) ==> register_verdict(with_owner(store, name, owner), name, sender, funds) == Err::<
            (),
            ContractError,
        >(ContractError::NameTaken)),
{
}

/// The registry after one attempt to register: changed where the attempt
/// succeeds, and as it was where it fails.
pub open spec fn after_register(
    store: RegistryView,
    name: Seq<char>,
    sender: Seq<u8>,
    funds: Seq<CoinView>,
) -> RegistryView {
    if register_verdict(store, name, sender, funds) is Ok {
        with_owner(store, name, sender)
    } else {
        store
    }
}

/// The registry after the same attempt to register was made `times` times.
pub open spec fn after_registers(
    store: RegistryView,
    name: Seq<char>,
    sender: Seq<u8>,
    funds: Seq<CoinView>,
    times: nat,
) -> RegistryView
    decreases times,
{
    if times == 0 {
        store
    } else {
        after_register(
            after_registers(store, name, sender, funds, (times - 1) as nat),
            name,
            sender,
            funds,
        )
    }
}

/// A registration that fails can be repeated any number of times: the
/// registry stays as it was, and every further attempt fails with the same
/// error.
pub proof fn lemma_failed_register_repeats(
    store: RegistryView,
    name: Seq<char>,
    sender: Seq<u8>,
    funds: Seq<CoinView>,
    times: nat,
)
    requires
        register_verdict(store, name, sender, funds) is Err,
    ensures
        after_registers(store, name, sender, funds, times) == store,
        register_verdict(after_registers(store, name, sender, funds, times), name, sender, funds)
            == register_verdict(store, name, sender, funds),
    decreases times,
{
    if times > 0 {
        lemma_failed_register_repeats(store, name, sender, funds, (times - 1) as nat);
    }
}

/// Only the owner hands a name on. With the price met, a transfer by anyone
/// else is refused as such, and so is the transfer of a name without a
/// record; a transfer that succeeds was asked for by the owner.
pub proof fn lemma_only_the_owner_transfers(
    store: RegistryView,
    name: Seq<char>,
    sender: Seq<u8>,
    new_owner: Seq<u8>,
    funds: Seq<CoinView>,
)
    ensures
        transfer_verdict(store, name, sender, new_owner, funds) is Ok ==> store.records.get(
            name_key(name),
        ) == Some(Stored::Value(sender)),
        store.config matches Some(Stored::Value(prices)) && sufficient(funds, prices.transfer_price)
            ==> match store.records.get(name_key(name)) {
            None => transfer_verdict(store, name, sender, new_owner, funds) == Err::<
                (),
                ContractError,
            >(ContractError::NameNotFound),
            Some(Stored::Value(owner)) => owner != sender ==> transfer_verdict(
                store,
                name,
                sender,
                new_owner,
                funds,
            ) == Err::<(), ContractError>(ContractError::NotOwner),
            Some(Stored::Unreadable) => true,
        },
{
}

/// The registry after one attempt to transfer: changed where the attempt
/// succeeds, and as it was where it fails.
pub open spec fn after_transfer(
    store: RegistryView,
    name: Seq<char>,
    sender: Seq<u8>,
    new_owner: Seq<u8>,
    funds: Seq<CoinView>,
) -> RegistryView {
    if transfer_verdict(store, name, sender, new_owner, funds) is Ok {
        with_owner(store, name, new_owner)
    } else {
        store
    }
}

/// The registry after the same attempt to transfer was made `times` times.
pub open spec fn after_transfers(
    store: RegistryView,
    name: Seq<char>,
    sender: Seq<u8>,
    new_owner: Seq<u8>,
    funds: Seq<CoinView>,
    times: nat,
) -> RegistryView
    decreases times,
{
    if times == 0 {
        store
    } else {
        after_transfer(
            after_transfers(store, name, sender, new_owner, funds, (times - 1) as nat),
            name,
            sender,
            new_owner,
            funds,
        )
    }
}

/// A transfer that fails can be repeated any number of times: the registry
/// stays as it was, and every further attempt fails with the same error.
pub proof fn lemma_failed_transfer_repeats(
    store: RegistryView,
    name: Seq<char>,
    sender: Seq<u8>,
    new_owner: Seq<u8>,
    funds: Seq<CoinView>,
    times: nat,
)
    requires
        transfer_verdict(store, name, sender, new_owner, funds) is Err,
    ensures
        after_transfers(store, name, sender, new_owner, funds, times) == store,
        transfer_verdict(
            after_transfers(store, name, sender, new_owner, funds, times),
            name,
            sender,
            new_owner,
            funds,
        ) == transfer_verdict(store, name, sender, new_owner, funds),
    decreases times,
{
    if times > 0 {
        lemma_failed_transfer_repeats(store, name, sender, new_owner, funds, (times - 1) as nat);
    }
}

/// Neither operation takes a record away or touches the configuration:
/// whatever key had a record before an attempt has one after it.
pub proof fn lemma_records_are_kept(
    store: RegistryView,
    name: Seq<char>,
    sender: Seq<u8>,
    new_owner: Seq<u8>,
    funds: Seq<CoinView>,
    key: Seq<u8>,
)
    requires
        store.records.contains_key(key),
    ensures
        after_register(store, name, sender, funds).records.contains_key(key),
        after_register(store, name, sender, funds).config == store.config,
        after_transfer(store, name, sender, new_owner, funds).records.contains_key(key),
        after_transfer(store, name, sender, new_owner, funds).config == store.config,
{
}

} // verus!
