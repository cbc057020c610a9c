//! What goes into the registry's operations and what comes out of them.
//! Addresses are canonical: plain bytes that are compared as they stand.

use vstd::prelude::*;
use crate::coin_helpers::Coin;
use crate::state::State;

verus! {

/// The prices that a registry is set up with.
#[derive(Debug, PartialEq, Eq)]
pub struct InitMsg {
    pub purchase_price: Option<Coin>,
    pub transfer_price: Option<Coin>,
}

/// A request that changes the registry.
#[derive(Debug, PartialEq, Eq)]
pub enum HandleMsg {
    /// Reserve `name` for the sender.
    Register { name: String },
    /// Hand `name` on to the address `to`.
    Transfer { name: String, to: Vec<u8> },
}

/// A request that only reads.
#[derive(Debug, PartialEq, Eq)]
pub enum QueryMsg {
    /// Who owns `name`?
    ResolveRecord { name: String },
    /// What is the configuration?
    Config {},
}

/// Who sent a request, and the funds that came with it.
#[derive(Debug, PartialEq, Eq)]
pub struct MessageInfo {
    pub sender: Vec<u8>,
    pub sent_funds: Vec<Coin>,
}

/// The acknowledgement of a set-up: it carries nothing.
#[derive(Clone, Copy, Debug, PartialEq, Eq, Structural)]
pub struct InitResponse {}

/// The acknowledgement of a request that changed the registry: it carries
/// nothing.
#[derive(Clone, Copy, Debug, PartialEq, Eq, Structural)]
pub struct HandleResponse {}

/// The owner of a name; `None` where the name has no record.
#[derive(Debug, PartialEq, Eq)]
pub struct ResolveRecordResponse {
    pub address: Option<Vec<u8>>,
}

/// The answer to a query.
#[derive(Debug, PartialEq, Eq)]
pub enum QueryResponse {
    ResolveRecord(ResolveRecordResponse),
    Config(State),
}

} // verus!
