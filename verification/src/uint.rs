//! 256- and 512-bit unsigned integers and 18-decimal fixed-point numbers.
//!
//! A number is held as its big-endian bytes; its mathematical value is the
//! view. The arithmetic itself is done by `cosmwasm_std`.

use vstd::prelude::*;

verus! {

/// The value of a big-endian byte string.
pub open spec fn be_value(s: Seq<u8>) -> nat
    decreases s.len(),
{
    if s.len() == 0 {
        0
    } else {
        be_value(s.drop_last()) * 256 + s.last() as nat
    }
}

/// Largest value a `Uint256` holds: 2^256 - 1.
pub open spec fn u256_max() -> nat {
    115792089237316195423570985008687907853269984665640564039457584007913129639935nat
}

/// Largest value a `Uint512` holds: 2^512 - 1.
pub open spec fn u512_max() -> nat {
    13407807929942597099574024998205846127479365820592393377723561443721764030073546976801874298166903427690031858186486050853753882811946569946433649006084095nat
}

/// Largest value a `u128` holds.
pub open spec fn u128_max() -> nat {
    340282366920938463463374607431768211455nat
}

/// The number of atomic units in one whole decimal: 10^18.
pub open spec fn decimal_fractional() -> nat {
    1_000_000_000_000_000_000nat
}

/// `x * numerator / denominator`, rounded down.
pub open spec fn mul_ratio_floor(x: nat, numerator: nat, denominator: nat) -> nat {
    (x * numerator / denominator) as nat
}

/// `x * numerator / denominator`, rounded up.
pub open spec fn mul_ratio_ceil(x: nat, numerator: nat, denominator: nat) -> nat {
    if (x * numerator) % denominator == 0 {
        mul_ratio_floor(x, numerator, denominator)
    } else {
        mul_ratio_floor(x, numerator, denominator) + 1
    }
}

/// An unsigned 256-bit integer.
#[derive(Clone, Copy, Debug, PartialEq, Eq)]
pub struct Uint256 {
    pub bytes: [u8; 32],
}

impl View for Uint256 {
    type V = nat;

    open spec fn view(&self) -> nat {
        be_value(self.bytes@)
    }
}

/// An unsigned 512-bit integer.
#[derive(Clone, Copy, Debug, PartialEq, Eq)]
pub struct Uint512 {
    pub bytes: [u8; 64],
}

impl View for Uint512 {
    type V = nat;

    open spec fn view(&self) -> nat {
        be_value(self.bytes@)
    }
}

/// Why `x * numerator / denominator` could not be computed.
#[derive(Clone, Copy, Debug, PartialEq, Eq)]
pub enum CheckedMultiplyRatioError {
    DivideByZero,
    Overflow,
}

/// Why a decimal could not be formed from a ratio.
#[derive(Clone, Copy, Debug, PartialEq, Eq)]
pub enum CheckedFromRatioError {
    DivideByZero,
    Overflow,
}

/// A value did not fit into the narrower integer type.
#[derive(Clone, Copy, Debug, PartialEq, Eq)]
pub struct ConversionOverflowError {}

/// A division by zero.
#[derive(Clone, Copy, Debug, PartialEq, Eq)]
pub struct DivideByZeroError {}

/// `cosmwasm_std::Uint256::from(u128)`: the number with the same value.
#[verifier::external_body]
fn cw_u256_from_u128(x: u128) -> (r: Uint256)
    ensures
        r@ == x,
{
    Uint256 { bytes: cosmwasm_std::Uint256::from(x).to_be_bytes() }
}

/// `cosmwasm_std::Uint256::is_zero`: whether the value is zero.
#[verifier::external_body]
fn cw_u256_is_zero(x: Uint256) -> (b: bool)
    ensures
        b == (x@ == 0),
{
    cosmwasm_std::Uint256::from_be_bytes(x.bytes).is_zero()
}

/// `<cosmwasm_std::Uint256 as PartialOrd>::lt`: the order of the values.
#[verifier::external_body]
fn cw_u256_lt(a: Uint256, b: Uint256) -> (r: bool)
    ensures
        r == (a@ < b@),
{
    cosmwasm_std::Uint256::from_be_bytes(a.bytes).lt(&cosmwasm_std::Uint256::from_be_bytes(b.bytes))
}

/// `<cosmwasm_std::Uint256 as Add>::add`: the sum; it panics when the sum does
/// not fit, so the sum is required to fit.
#[verifier::external_body]
fn cw_u256_add(a: Uint256, b: Uint256) -> (r: Uint256)
    requires
        a@ + b@ <= u256_max(),
    ensures
        r@ == a@ + b@,
{
    let s = cosmwasm_std::Uint256::from_be_bytes(a.bytes) + cosmwasm_std::Uint256::from_be_bytes(b.bytes);
    Uint256 { bytes: s.to_be_bytes() }
}

/// `cosmwasm_std::Uint256::checked_multiply_ratio`: `x * numerator / denominator`
/// rounded down, `DivideByZero` for a zero denominator and `Overflow` when the
/// quotient does not fit in 256 bits.
#[verifier::external_body]
fn cw_u256_checked_multiply_ratio(x: Uint256, numerator: Uint256, denominator: Uint256) -> (r: Result<Uint256, CheckedMultiplyRatioError>)
    ensures
        denominator@ == 0 ==> r is Err && r->Err_0 == CheckedMultiplyRatioError::DivideByZero,
        denominator@ != 0 && mul_ratio_floor(x@, numerator@, denominator@) > u256_max()
            ==> r is Err && r->Err_0 == CheckedMultiplyRatioError::Overflow,
        denominator@ != 0 && mul_ratio_floor(x@, numerator@, denominator@) <= u256_max()
            ==> r is Ok && r->Ok_0@ == mul_ratio_floor(x@, numerator@, denominator@),
{
    let x = cosmwasm_std::Uint256::from_be_bytes(x.bytes);
    let n = cosmwasm_std::Uint256::from_be_bytes(numerator.bytes);
    let d = cosmwasm_std::Uint256::from_be_bytes(denominator.bytes);
    match x.checked_multiply_ratio(n, d) {
        Ok(v) => Ok(Uint256 { bytes: v.to_be_bytes() }),
        Err(cosmwasm_std::CheckedMultiplyRatioError::DivideByZero) => Err(CheckedMultiplyRatioError::DivideByZero),
        Err(cosmwasm_std::CheckedMultiplyRatioError::Overflow) => Err(CheckedMultiplyRatioError::Overflow),
    }
}

/// `TryFrom<cosmwasm_std::Uint256> for cosmwasm_std::Uint128`: the same value
/// when it fits in 128 bits, an error otherwise.
#[verifier::external_body]
fn cw_u256_try_into_u128(x: Uint256) -> (r: Result<u128, ConversionOverflowError>)
    ensures
        x@ <= u128_max() ==> r is Ok && r->Ok_0 == x@,
        x@ > u128_max() ==> r is Err,
{
    let v: Result<cosmwasm_std::Uint128, _> = cosmwasm_std::Uint256::from_be_bytes(x.bytes).try_into();
    match v {
        Ok(v) => Ok(v.u128()),
        Err(_) => Err(ConversionOverflowError {}),
    }
}

impl Uint256 {
    /// The number zero.
    pub fn zero() -> (r: Uint256)
        ensures
            r@ == 0,
    {
        cw_u256_from_u128(0)
    }

    /// The number one.
    pub fn one() -> (r: Uint256)
        ensures
            r@ == 1,
    {
        cw_u256_from_u128(1)
    }

    /// The number with the value of `x`.
    pub fn from_u128(x: u128) -> (r: Uint256)
        ensures
            r@ == x,
    {
        cw_u256_from_u128(x)
    }

    /// Whether the value is zero.
    pub fn is_zero(&self) -> (b: bool)
        ensures
            b == (self@ == 0),
    {
        cw_u256_is_zero(*self)
    }

    /// Whether `self` is smaller than `other`.
    pub fn lt(&self, other: &Uint256) -> (b: bool)
        ensures
            b == (self@ < other@),
    {
        cw_u256_lt(*self, *other)
    }

    /// The sum, which must fit in 256 bits.
    pub fn add(&self, other: &Uint256) -> (r: Uint256)
        requires
            self@ + other@ <= u256_max(),
        ensures
            r@ == self@ + other@,
    {
        cw_u256_add(*self, *other)
    }

    /// `self * numerator / denominator`, rounded down.
    pub fn checked_multiply_ratio(&self, numerator: Uint256, denominator: Uint256) -> (r: Result<Uint256, CheckedMultiplyRatioError>)
        ensures
            denominator@ == 0 ==> r is Err && r->Err_0 == CheckedMultiplyRatioError::DivideByZero,
            denominator@ != 0 && mul_ratio_floor(self@, numerator@, denominator@) > u256_max()
                ==> r is Err && r->Err_0 == CheckedMultiplyRatioError::Overflow,
            denominator@ != 0 && mul_ratio_floor(self@, numerator@, denominator@) <= u256_max()
                ==> r is Ok && r->Ok_0@ == mul_ratio_floor(self@, numerator@, denominator@),
    {
        cw_u256_checked_multiply_ratio(*self, numerator, denominator)
    }

    /// The same value as a `u128`, when it fits.
    pub fn try_into_u128(&self) -> (r: Result<u128, ConversionOverflowError>)
        ensures
            self@ <= u128_max() ==> r is Ok && r->Ok_0 == self@,
            self@ > u128_max() ==> r is Err,
    {
        cw_u256_try_into_u128(*self)
    }
}


/// `256^n`.
pub open spec fn pow256(n: nat) -> nat
    decreases n,
{
    if n == 0 {
        1
    } else {
        256 * pow256((n - 1) as nat)
    }
}

/// A big-endian byte string of length `n` is worth less than `256^n`.
pub proof fn lemma_be_value_bound(s: Seq<u8>)
    ensures
        be_value(s) < pow256(s.len()),
    decreases s.len(),
{
    if s.len() > 0 {
        lemma_be_value_bound(s.drop_last());
    }
}

/// Every `Uint256` is at most `2^256 - 1`.
pub proof fn lemma_uint256_bound(x: Uint256)
    ensures
        x@ <= u256_max(),
{
    lemma_be_value_bound(x.bytes@);
    reveal_with_fuel(pow256, 33);
    assert(pow256(32) == u256_max() + 1);
}

/// `cosmwasm_std::Uint256::full_mul`: the exact product as a 512-bit number.
#[verifier::external_body]
fn cw_u256_full_mul(a: Uint256, b: Uint256) -> (r: Uint512)
    ensures
        r@ == a@ * b@,
{
    let p = cosmwasm_std::Uint256::from_be_bytes(a.bytes).full_mul(cosmwasm_std::Uint256::from_be_bytes(b.bytes));
    Uint512 { bytes: p.to_be_bytes() }
}

/// `From<cosmwasm_std::Uint256> for cosmwasm_std::Uint512`: the same value.
#[verifier::external_body]
fn cw_u512_from_u256(a: Uint256) -> (r: Uint512)
    ensures
        r@ == a@,
{
    Uint512 { bytes: cosmwasm_std::Uint512::from(cosmwasm_std::Uint256::from_be_bytes(a.bytes)).to_be_bytes() }
}

/// `cosmwasm_std::Uint512::one`: the number one.
#[verifier::external_body]
fn cw_u512_one() -> (r: Uint512)
    ensures
        r@ == 1,
{
    Uint512 { bytes: cosmwasm_std::Uint512::one().to_be_bytes() }
}

/// `cosmwasm_std::Uint512::checked_div`: the quotient rounded down, an error
/// for a zero divisor.
#[verifier::external_body]
fn cw_u512_checked_div(a: Uint512, b: Uint512) -> (r: Result<Uint512, DivideByZeroError>)
    ensures
        b@ == 0 ==> r is Err,
        b@ != 0 ==> r is Ok && r->Ok_0@ == a@ / b@,
{
    let a = cosmwasm_std::Uint512::from_be_bytes(a.bytes);
    match a.checked_div(cosmwasm_std::Uint512::from_be_bytes(b.bytes)) {
        Ok(q) => Ok(Uint512 { bytes: q.to_be_bytes() }),
        Err(_) => Err(DivideByZeroError {}),
    }
}

/// `cosmwasm_std::Uint512::checked_rem`: the remainder, an error for a zero
/// divisor.
#[verifier::external_body]
fn cw_u512_checked_rem(a: Uint512, b: Uint512) -> (r: Result<Uint512, DivideByZeroError>)
    ensures
        b@ == 0 ==> r is Err,
        b@ != 0 ==> r is Ok && r->Ok_0@ == a@ % b@,
{
    let a = cosmwasm_std::Uint512::from_be_bytes(a.bytes);
    match a.checked_rem(cosmwasm_std::Uint512::from_be_bytes(b.bytes)) {
        Ok(q) => Ok(Uint512 { bytes: q.to_be_bytes() }),
        Err(_) => Err(DivideByZeroError {}),
    }
}

/// `cosmwasm_std::Uint512::is_zero`: whether the value is zero.
#[verifier::external_body]
fn cw_u512_is_zero(x: Uint512) -> (b: bool)
    ensures
        b == (x@ == 0),
{
    cosmwasm_std::Uint512::from_be_bytes(x.bytes).is_zero()
}

/// `<cosmwasm_std::Uint512 as Add>::add`: the sum; it panics when the sum does
/// not fit, so the sum is required to fit.
#[verifier::external_body]
fn cw_u512_add(a: Uint512, b: Uint512) -> (r: Uint512)
    requires
        a@ + b@ <= u512_max(),
    ensures
        r@ == a@ + b@,
{
    let s = cosmwasm_std::Uint512::from_be_bytes(a.bytes) + cosmwasm_std::Uint512::from_be_bytes(b.bytes);
    Uint512 { bytes: s.to_be_bytes() }
}

/// `TryFrom<cosmwasm_std::Uint512> for cosmwasm_std::Uint256`: the same value
/// when it fits in 256 bits, an error otherwise.
#[verifier::external_body]
fn cw_u512_try_into_u256(x: Uint512) -> (r: Result<Uint256, ConversionOverflowError>)
    ensures
        x@ <= u256_max() ==> r is Ok && r->Ok_0@ == x@,
        x@ > u256_max() ==> r is Err,
{
    let v: Result<cosmwasm_std::Uint256, _> = cosmwasm_std::Uint512::from_be_bytes(x.bytes).try_into();
    match v {
        Ok(v) => Ok(Uint256 { bytes: v.to_be_bytes() }),
        Err(_) => Err(ConversionOverflowError {}),
    }
}

impl Uint512 {
    /// The number one.
    pub fn one() -> (r: Uint512)
        ensures
            r@ == 1,
    {
        cw_u512_one()
    }

    /// The number with the value of `x`.
    pub fn from_uint256(x: Uint256) -> (r: Uint512)
        ensures
            r@ == x@,
    {
        cw_u512_from_u256(x)
    }

    /// The quotient rounded down; an error for a zero divisor.
    pub fn checked_div(&self, other: Uint512) -> (r: Result<Uint512, DivideByZeroError>)
        ensures
            other@ == 0 ==> r is Err,
            other@ != 0 ==> r is Ok && r->Ok_0@ == self@ / other@,
    {
        cw_u512_checked_div(*self, other)
    }

    /// The remainder; an error for a zero divisor.
    pub fn checked_rem(&self, other: Uint512) -> (r: Result<Uint512, DivideByZeroError>)
        ensures
            other@ == 0 ==> r is Err,
            other@ != 0 ==> r is Ok && r->Ok_0@ == self@ % other@,
    {
        cw_u512_checked_rem(*self, other)
    }

    /// Whether the value is zero.
    pub fn is_zero(&self) -> (b: bool)
        ensures
            b == (self@ == 0),
    {
        cw_u512_is_zero(*self)
    }

    /// The sum, which must fit in 512 bits.
    pub fn add(&self, other: &Uint512) -> (r: Uint512)
        requires
            self@ + other@ <= u512_max(),
        ensures
            r@ == self@ + other@,
    {
        cw_u512_add(*self, *other)
    }

    /// The same value as a `Uint256`, when it fits.
    pub fn try_into_uint256(&self) -> (r: Result<Uint256, ConversionOverflowError>)
        ensures
            self@ <= u256_max() ==> r is Ok && r->Ok_0@ == self@,
            self@ > u256_max() ==> r is Err,
    {
        cw_u512_try_into_u256(*self)
    }
}

impl Uint256 {
    /// The exact product as a 512-bit number.
    pub fn full_mul(&self, other: Uint256) -> (r: Uint512)
        ensures
            r@ == self@ * other@,
    {
        cw_u256_full_mul(*self, other)
    }
}

/// A fixed-point number with 18 fractional digits: `atomics / 10^18`.
#[derive(Clone, Copy, Debug, PartialEq, Eq)]
pub struct Decimal256 {
    pub atomics: Uint256,
}

impl View for Decimal256 {
    type V = nat;

    /// The number of atomic units.
    open spec fn view(&self) -> nat {
        self.atomics@
    }
}

/// A fixed-point number with 18 fractional digits held in 128 bits.
#[derive(Clone, Copy, Debug, PartialEq, Eq)]
pub struct Decimal {
    pub atomics: u128,
}

impl View for Decimal {
    type V = nat;

    /// The number of atomic units.
    open spec fn view(&self) -> nat {
        self.atomics as nat
    }
}

impl Decimal256 {
    /// The same decimal held in 256 bits: both have 18 fractional digits, so
    /// the atomics carry over.
    pub fn from_decimal(d: Decimal) -> (r: Decimal256)
        ensures
            r@ == d@,
    {
        Decimal256 { atomics: Uint256::from_u128(d.atomics) }
    }
}

/// `cosmwasm_std::Decimal256::checked_from_ratio`: the decimal
/// `numerator / denominator` rounded down to 18 digits, i.e. the atomics
/// `numerator * 10^18 / denominator`.
#[verifier::external_body]
fn cw_decimal256_checked_from_ratio(numerator: Uint256, denominator: Uint256) -> (r: Result<Decimal256, CheckedFromRatioError>)
    ensures
        denominator@ == 0 ==> r is Err && r->Err_0 == CheckedFromRatioError::DivideByZero,
        denominator@ != 0 && mul_ratio_floor(numerator@, decimal_fractional(), denominator@) > u256_max() ==> r is Err && r->Err_0 == CheckedFromRatioError::Overflow,
        denominator@ != 0 && mul_ratio_floor(numerator@, decimal_fractional(), denominator@) <= u256_max() ==> r is Ok && r->Ok_0@ == mul_ratio_floor(numerator@, decimal_fractional(), denominator@),
{
    let n = cosmwasm_std::Uint256::from_be_bytes(numerator.bytes);
    let d = cosmwasm_std::Uint256::from_be_bytes(denominator.bytes);
    match cosmwasm_std::Decimal256::checked_from_ratio(n, d) {
        Ok(v) => Ok(Decimal256 { atomics: Uint256 { bytes: v.atomics().to_be_bytes() } }),
        Err(cosmwasm_std::CheckedFromRatioError::DivideByZero) => Err(CheckedFromRatioError::DivideByZero),
        Err(cosmwasm_std::CheckedFromRatioError::Overflow) => Err(CheckedFromRatioError::Overflow),
    }
}

impl Decimal256 {
    /// The decimal with the given number of atomic units.
    pub fn new(atomics: Uint256) -> (r: Decimal256)
        ensures
            r@ == atomics@,
    {
        Decimal256 { atomics }
    }

    /// The decimal one, i.e. `10^18` atomics.
    pub fn one() -> (r: Decimal256)
        ensures
            r@ == decimal_fractional(),
    {
        Decimal256 { atomics: Uint256::from_u128(1_000_000_000_000_000_000u128) }
    }

    /// The numerator of the fraction: the atomics.
    pub fn numerator(&self) -> (r: Uint256)
        ensures
            r@ == self@,
    {
        self.atomics
    }

    /// The denominator of the fraction: `10^18`.
    pub fn denominator(&self) -> (r: Uint256)
        ensures
            r@ == decimal_fractional(),
    {
        Uint256::from_u128(1_000_000_000_000_000_000u128)
    }

    /// `numerator / denominator` rounded down to 18 fractional digits.
    pub fn checked_from_ratio(numerator: Uint256, denominator: Uint256) -> (r: Result<Decimal256, CheckedFromRatioError>)
        ensures
            denominator@ == 0 ==> r is Err && r->Err_0 == CheckedFromRatioError::DivideByZero,
            denominator@ != 0 && mul_ratio_floor(numerator@, decimal_fractional(), denominator@) > u256_max() ==> r is Err && r->Err_0 == CheckedFromRatioError::Overflow,
            denominator@ != 0 && mul_ratio_floor(numerator@, decimal_fractional(), denominator@) <= u256_max() ==> r is Ok && r->Ok_0@ == mul_ratio_floor(numerator@, decimal_fractional(), denominator@),
    {
        cw_decimal256_checked_from_ratio(numerator, denominator)
    }

    /// Whether `self` is smaller than `other`.
    pub fn lt(&self, other: &Decimal256) -> (b: bool)
        ensures
            b == (self@ < other@),
    {
        self.atomics.lt(&other.atomics)
    }
}

} // verus!
