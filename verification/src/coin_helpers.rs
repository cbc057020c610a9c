//! The payment guard: is a price covered by what a request carries?

use vstd::prelude::*;
use crate::error::ContractError;

verus! {

/// An amount of one denomination.
#[derive(Debug, PartialEq, Eq)]
pub struct Coin {
    pub denom: String,
    pub amount: u128,
}

impl Clone for Coin {
    fn clone(&self) -> (copy: Self)
        ensures
            copy@ == self@,
    {
        Coin { denom: self.denom.clone(), amount: self.amount }
    }
}

/// A coin as contracts see it.
pub struct CoinView {
    pub denom: Seq<char>,
    pub amount: nat,
}

impl View for Coin {
    type V = CoinView;

    open spec fn view(&self) -> CoinView {
        CoinView { denom: self.denom@, amount: self.amount as nat }
    }
}

/// The view of an optional price.
pub open spec fn price_view(price: Option<Coin>) -> Option<CoinView> {
    match price {
        Some(coin) => Some(coin@),
        None => None,
    }
}

/// The views of the coins of a bundle, in order.
pub open spec fn funds_view(sent: Seq<Coin>) -> Seq<CoinView> {
    sent.map_values(|coin: Coin| coin@)
}

/// One coin alone pays a price: same denomination, at least the amount.
pub open spec fn covers(coin: CoinView, price: CoinView) -> bool {
    coin.denom == price.denom && coin.amount >= price.amount
}

/// A bundle meets a price: there is none, it is zero, or one coin of the
/// bundle covers it. Amounts of several coins are never added up.
pub open spec fn sufficient(sent: Seq<CoinView>, required: Option<CoinView>) -> bool {
    match required {
        None => true,
        Some(price) => price.amount == 0 || exists|i: int|
            0 <= i < sent.len() && covers(#[trigger] sent[i], price),
    }
}

/// Checks that `sent` meets the price `required`.
pub fn assert_sent_sufficient_coin(sent: &[Coin], required: Option<Coin>) -> (result: Result<
    (),
    ContractError,
>)
    ensures
        result is Ok <==> sufficient(funds_view(sent@), price_view(required)),
        result matches Err(e) ==> e == ContractError::InsufficientFunds,
{
    if let Some(required_coin) = required {
        let required_amount: u128 = required_coin.amount;
        if required_amount > 0 {
            let mut i: usize = 0;
            while i < sent.len()
                invariant
                    i <= sent.len(),
                    required_amount == required_coin.amount,
                    required_amount > 0,
                    price_view(required) == Some(required_coin@),
                    forall|j: int|
                        0 <= j < i ==> !covers(#[trigger] funds_view(sent@)[j], required_coin@),
                decreases sent.len() - i,
            {
                if sent[i].denom == required_coin.denom && sent[i].amount >= required_amount {
                    assert(funds_view(sent@).len() == sent@.len());
                    assert(covers(funds_view(sent@)[i as int], required_coin@));
                    return Ok(());
                }
                i += 1;
            }
            return Err(ContractError::InsufficientFunds);
        }
    }
    Ok(())
}

/// A price that is absent or zero is met by every bundle, the empty one too.
pub proof fn lemma_free_is_always_met(sent: Seq<CoinView>, required: Option<CoinView>)
    requires
        required matches Some(price) ==> price.amount == 0,
    ensures
        sufficient(sent, required),
{
}

/// A price above zero is not met by a bundle none of whose coins covers it
/// alone, whatever the coins add up to.
pub proof fn lemma_uncovered_price_is_not_met(sent: Seq<CoinView>, price: CoinView)
    requires
        price.amount > 0,
        forall|i: int| 0 <= i < sent.len() ==> !covers(#[trigger] sent[i], price),
    ensures
        !sufficient(sent, Some(price)),
{
}

} // verus!
