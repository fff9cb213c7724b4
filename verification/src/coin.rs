//! Coins: a denomination and an amount, in 128 and 256 bits.

use vstd::prelude::*;
use vstd::string::StringExecFns;

use crate::format::{amount_to_string, decimal_text};
use crate::uint::{u128_max, ConversionOverflowError, Uint256};

verus! {

/// A native coin with a 128-bit amount.
#[derive(Clone, Debug, PartialEq, Eq)]
pub struct Coin {
    pub denom: String,
    pub amount: u128,
}

/// A coin with a 256-bit amount.
#[derive(Clone, Debug, PartialEq, Eq)]
pub struct Coin256 {
    pub denom: String,
    pub amount: Uint256,
}

impl Coin256 {
    /// A coin of `amount` units of `denom`.
    pub fn new(amount: u128, denom: String) -> (r: Coin256)
        ensures
            r.amount@ == amount,
            r.denom@ == denom@,
    {
        Coin256 { amount: Uint256::from_u128(amount), denom }
    }

    /// The same coin with its amount widened to 256 bits.
    pub fn from_coin(c: &Coin) -> (r: Coin256)
        ensures
            r.amount@ == c.amount,
            r.denom@ == c.denom@,
    {
        Coin256 { denom: c.denom.clone(), amount: Uint256::from_u128(c.amount) }
    }

    /// The same coin with a 128-bit amount, when the amount fits.
    pub fn try_into_coin(&self) -> (r: Result<Coin, ConversionOverflowError>)
        ensures
            self.amount@ <= u128_max() ==> r is Ok && r->Ok_0.amount == self.amount@ && r->Ok_0.denom@ == self.denom@,
            self.amount@ > u128_max() ==> r is Err,
    {
        match self.amount.try_into_u128() {
            Ok(amount) => Ok(Coin { denom: self.denom.clone(), amount }),
            Err(e) => Err(e),
        }
    }
}

impl Coin {
    /// The amount followed by the denomination, as in "100uosmo".
    pub fn to_string(&self) -> (r: String)
        ensures
            r@ == decimal_text(self.amount as nat) + self.denom@,
    {
        let mut r = amount_to_string(self.amount);
        r.append(self.denom.as_str());
        r
    }
}

impl Coin256 {
    /// The amount followed by the denomination, as in "100uosmo".
    pub fn to_string(&self) -> (r: String)
        ensures
            r@ == decimal_text(self.amount@) + self.denom@,
    {
        let mut r = self.amount.to_string();
        r.append(self.denom.as_str());
        r
    }
}

/// A coin of `amount` units of `denom`.
pub fn coin256(amount: u128, denom: String) -> (r: Coin256)
    ensures
        r.amount@ == amount,
        r.denom@ == denom@,
{
    Coin256::new(amount, denom)
}

/// A coin widened to 256 bits always fits back into 128 bits with the same
/// amount: narrowing undoes widening.
pub proof fn lemma_coin_round_trip(c: Coin, wide: Coin256)
    requires
        wide.amount@ == c.amount,
        wide.denom@ == c.denom@,
    ensures
        wide.amount@ <= u128_max(),
        wide.amount@ as u128 == c.amount,
{
}

} // verus!
