//! Decimal text of numbers and the descriptions built from it.

use vstd::prelude::*;
use vstd::string::StringExecFns;

use crate::uint::{decimal_fractional, Decimal256, Uint256};

verus! {

/// The character of a decimal digit.
pub open spec fn digit_char(d: nat) -> char {
    seq!['0', '1', '2', '3', '4', '5', '6', '7', '8', '9'][d as int]
}

/// The decimal digits of `n`, without leading zeros.
pub open spec fn decimal_text(n: nat) -> Seq<char>
    decreases n,
{
    if n < 10 {
        seq![digit_char(n)]
    } else {
        decimal_text(n / 10).push(digit_char(n % 10))
    }
}

/// The last `width` decimal digits of `n`, padded with leading zeros.
pub open spec fn padded_digits(n: nat, width: nat) -> Seq<char>
    decreases width,
{
    if width == 0 {
        Seq::empty()
    } else {
        padded_digits(n / 10, (width - 1) as nat).push(digit_char(n % 10))
    }
}

/// A string without its trailing zeros.
pub open spec fn trim_trailing_zeros(s: Seq<char>) -> Seq<char>
    decreases s.len(),
{
    if s.len() > 0 && s.last() == '0' {
        trim_trailing_zeros(s.drop_last())
    } else {
        s
    }
}

/// The text of a decimal with the given atomics: the whole part, and when
/// there is a fractional part, a dot and its 18 digits without trailing zeros.
pub open spec fn decimal256_text(atomics: nat) -> Seq<char> {
    let whole = atomics / decimal_fractional();
    let fractional = atomics % decimal_fractional();
    if fractional == 0 {
        decimal_text(whole)
    } else {
        decimal_text(whole) + seq!['.'] + trim_trailing_zeros(padded_digits(fractional, 18))
    }
}

/// `<cosmwasm_std::Uint256 as Display>`: the decimal digits of the value.
#[verifier::external_body]
fn cw_u256_to_string(x: Uint256) -> (r: String)
    ensures
        r@ == decimal_text(x@),
{
    cosmwasm_std::Uint256::from_be_bytes(x.bytes).to_string()
}

/// `<cosmwasm_std::Decimal256 as Display>`: the whole part, and a dot and the
/// fractional digits without trailing zeros when there is a fractional part.
#[verifier::external_body]
fn cw_decimal256_to_string(d: Decimal256) -> (r: String)
    ensures
        r@ == decimal256_text(d@),
{
    cosmwasm_std::Decimal256::new(cosmwasm_std::Uint256::from_be_bytes(d.atomics.bytes)).to_string()
}

/// `<u128 as Display>`: the decimal digits of the value.
#[verifier::external_body]
fn u128_to_string(x: u128) -> (r: String)
    ensures
        r@ == decimal_text(x as nat),
{
    x.to_string()
}

impl Uint256 {
    /// The decimal digits of the value.
    pub fn to_string(&self) -> (r: String)
        ensures
            r@ == decimal_text(self@),
    {
        cw_u256_to_string(*self)
    }
}

impl Decimal256 {
    /// The decimal text of the value.
    pub fn to_string(&self) -> (r: String)
        ensures
            r@ == decimal256_text(self@),
    {
        cw_decimal256_to_string(*self)
    }
}

/// The decimal digits of an amount.
pub fn amount_to_string(x: u128) -> (r: String)
    ensures
        r@ == decimal_text(x as nat),
{
    u128_to_string(x)
}

/// The text of a boolean.
pub open spec fn bool_text(b: bool) -> Seq<char> {
    if b {
        "true"@
    } else {
        "false"@
    }
}

/// "true" or "false".
pub fn bool_to_string(b: bool) -> (r: String)
    ensures
        r@ == bool_text(b),
{
    if b {
        String::from_str("true")
    } else {
        String::from_str("false")
    }
}

} // verus!
