//! The failures that a request can end in.

use vstd::prelude::*;

verus! {

/// Why a candidate name is refused.
#[derive(Clone, Copy, Debug, PartialEq, Eq, Structural)]
pub enum NameInvalid {
    /// The name has fewer characters than the minimum.
    TooShort,
    /// The name has more characters than the maximum.
    TooLong,
    /// The leftmost character outside the permitted set, and its index,
    /// counted in characters from zero.
    InvalidCharacter { c: char, position: usize },
}

/// Why a request is refused. Every failure leaves the store as it was.
#[derive(Clone, Copy, Debug, PartialEq, Eq, Structural)]
pub enum ContractError {
    /// The name does not meet the naming policy.
    NameInvalid(NameInvalid),
    /// No single coin sent covers the price.
    InsufficientFunds,
    /// The name already has an owner.
    NameTaken,
    /// The name has no record.
    NameNotFound,
    /// The sender does not own the name.
    NotOwner,
    /// The store could not read or write a value.
    StoreFailure,
}

} // verus!
