//! A registry of names: a name is reserved for a minimum payment and afterwards
//! handed on by its owner, for a payment of its own. The rules on names and
//! payments, the store of records and the two operations are verified.

pub mod coin_helpers;
pub mod contract;
pub mod error;
pub mod msg;
pub mod state;
