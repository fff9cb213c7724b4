//! Ratio arithmetic on token amounts: rounding up, and multiplying or dividing
//! a 128-bit amount by a decimal.

use vstd::prelude::*;

use crate::uint::{
    decimal_fractional, lemma_uint256_bound, mul_ratio_ceil, mul_ratio_floor, u128_max, u256_max,
    u512_max, CheckedMultiplyRatioError, ConversionOverflowError, Decimal256, Uint256, Uint512,
};

verus! {

/// `x * numerator / denominator` rounded up instead of down.
pub trait CeilRatio {
    fn multiply_ratio_ceil(&self, numerator: Uint256, denominator: Uint256) -> Result<Uint256, CheckedMultiplyRatioError>;
}

proof fn lemma_product_room(a: nat, b: nat, d: nat)
    requires
        a <= u256_max(),
        b <= u256_max(),
        d >= 1,
    ensures
        (a * b) / d + 1 <= u512_max(),
{
    assert(a * b <= u256_max() * u256_max()) by (nonlinear_arith)
        requires
            a <= u256_max(),
            b <= u256_max(),
    ;
    assert((a * b) / d <= a * b) by (nonlinear_arith)
        requires
            d >= 1,
    ;
}

impl CeilRatio for Uint256 {
    /// Works as `checked_multiply_ratio`, which rounds down, but rounds up:
    /// what an account owes is never under-counted.
    fn multiply_ratio_ceil(&self, numerator: Uint256, denominator: Uint256) -> (r: Result<Uint256, CheckedMultiplyRatioError>)
        ensures
            denominator@ == 0 ==> r is Err && r->Err_0 == CheckedMultiplyRatioError::DivideByZero,
            denominator@ != 0 && mul_ratio_ceil(self@, numerator@, denominator@) > u256_max() ==> r is Err && r->Err_0 == CheckedMultiplyRatioError::Overflow,
            denominator@ != 0 && mul_ratio_ceil(self@, numerator@, denominator@) <= u256_max() ==> r is Ok && r->Ok_0@ == mul_ratio_ceil(self@, numerator@, denominator@),
    {
        let new_numerator = self.full_mul(numerator);
        let denom_512 = Uint512::from_uint256(denominator);
        let mut result = match new_numerator.checked_div(denom_512) {
            Ok(q) => q,
            Err(_) => {
                return Err(CheckedMultiplyRatioError::DivideByZero);
            },
        };
        let rem = match new_numerator.checked_rem(denom_512) {
            Ok(m) => m,
            Err(_) => {
                return Err(CheckedMultiplyRatioError::DivideByZero);
            },
        };
        if !rem.is_zero() {
            proof {
                lemma_uint256_bound(*self);
                lemma_uint256_bound(numerator);
                lemma_product_room(self@, numerator@, denominator@);
            }
            result = result.add(&Uint512::one());
        }
        match result.try_into_uint256() {
            Ok(ratio) => Ok(ratio),
            Err(_) => Err(CheckedMultiplyRatioError::Overflow),
        }
    }
}

/// Why multiplying or dividing an amount by a decimal failed.
#[derive(Clone, Copy, Debug, PartialEq, Eq)]
pub enum DecimalMathError {
    CheckedMultiplyRatioError(CheckedMultiplyRatioError),
    ConversionOverflowError(ConversionOverflowError),
}

/// The outcome of `floor(amount * numerator / denominator)` brought back to 128 bits.
pub open spec fn ratio_to_u128_spec(amount: nat, numerator: nat, denominator: nat) -> Result<u128, DecimalMathError> {
    if denominator == 0 {
        Err(DecimalMathError::CheckedMultiplyRatioError(CheckedMultiplyRatioError::DivideByZero))
    } else if mul_ratio_floor(amount, numerator, denominator) > u256_max() {
        Err(DecimalMathError::CheckedMultiplyRatioError(CheckedMultiplyRatioError::Overflow))
    } else if mul_ratio_floor(amount, numerator, denominator) > u128_max() {
        Err(DecimalMathError::ConversionOverflowError(ConversionOverflowError {}))
    } else {
        Ok(mul_ratio_floor(amount, numerator, denominator) as u128)
    }
}

fn ratio_to_u128(amount: u128, numerator: Uint256, denominator: Uint256) -> (r: Result<u128, DecimalMathError>)
    ensures
        r == ratio_to_u128_spec(amount as nat, numerator@, denominator@),
{
    let result = match Uint256::from_u128(amount).checked_multiply_ratio(numerator, denominator) {
        Ok(v) => v,
        Err(e) => {
            return Err(DecimalMathError::CheckedMultiplyRatioError(e));
        },
    };
    match result.try_into_u128() {
        Ok(v) => Ok(v),
        Err(e) => Err(DecimalMathError::ConversionOverflowError(e)),
    }
}

/// An amount times a decimal.
pub trait MulDecimal256 {
    fn mul_decimal(&self, decimal: Decimal256) -> Result<u128, DecimalMathError>;
}

impl MulDecimal256 for u128 {
    /// `amount * decimal`, rounded down, as a 128-bit amount.
    fn mul_decimal(&self, decimal: Decimal256) -> (r: Result<u128, DecimalMathError>)
        ensures
            r == ratio_to_u128_spec(*self as nat, decimal@, decimal_fractional()),
    {
        ratio_to_u128(*self, decimal.numerator(), decimal.denominator())
    }
}

/// An amount divided by a decimal.
pub trait DivDecimal256 {
    fn div_decimal(&self, decimal: Decimal256) -> Result<u128, DecimalMathError>;
}

impl DivDecimal256 for u128 {
    /// `amount / decimal`, rounded down, as a 128-bit amount; dividing by the
    /// zero decimal is an error.
    fn div_decimal(&self, decimal: Decimal256) -> (r: Result<u128, DecimalMathError>)
        ensures
            r == ratio_to_u128_spec(*self as nat, decimal_fractional(), decimal@),
    {
        ratio_to_u128(*self, decimal.denominator(), decimal.numerator())
    }
}

/// Rounding up gives the least multiple count that covers the product:
/// `ceil * denominator` is at least `x * numerator` and less than
/// `x * numerator + denominator`, and `ceil` is the floor or one more.
pub proof fn lemma_ceil_ratio_bounds(x: nat, numerator: nat, denominator: nat)
    requires
        denominator > 0,
    ensures
        mul_ratio_ceil(x, numerator, denominator) * denominator >= x * numerator,
        mul_ratio_ceil(x, numerator, denominator) * denominator < x * numerator + denominator,
        mul_ratio_floor(x, numerator, denominator) <= mul_ratio_ceil(x, numerator, denominator) <= mul_ratio_floor(x, numerator, denominator) + 1,
{
    let p = x * numerator;
    vstd::arithmetic::div_mod::lemma_fundamental_div_mod(p as int, denominator as int);
    let q = p / denominator;
    let m = p % denominator;
    assert(p == denominator * q + m);
    assert(0 <= m < denominator);
    if m == 0 {
        assert(q * denominator == p) by (nonlinear_arith)
            requires
                p == denominator * q + m,
                m == 0,
        ;
    } else {
        assert((q + 1) * denominator == p - m + denominator) by (nonlinear_arith)
            requires
                p == denominator * q + m,
        ;
    }
}

/// Multiplying or dividing by the decimal one gives the amount back.
pub proof fn lemma_decimal_one_is_neutral(amount: u128)
    ensures
        ratio_to_u128_spec(amount as nat, decimal_fractional(), decimal_fractional()) == Ok::<u128, DecimalMathError>(amount),
{
    vstd::arithmetic::div_mod::lemma_div_multiples_vanish(amount as int, decimal_fractional() as int);
    assert(amount * decimal_fractional() == decimal_fractional() * amount) by (nonlinear_arith);
}

} // verus!
