use mars_rover::format::amount_to_string;
use mars_rover::math::{CeilRatio, DecimalMathError, DivDecimal256, MulDecimal256};
use mars_rover::uint::{
    CheckedFromRatioError, CheckedMultiplyRatioError, ConversionOverflowError, Decimal,
    Decimal256, Uint256, Uint512,
};

fn u(x: u128) -> Uint256 {
    Uint256::from_u128(x)
}

fn u256_max() -> Uint256 {
    Uint256 { bytes: [0xff; 32] }
}

fn dec(atomics: u128) -> Decimal256 {
    Decimal256::new(u(atomics))
}

const ONE: u128 = 1_000_000_000_000_000_000;

#[test]
fn ceil_ratio_rounds_up_a_remainder() {
    assert_eq!(u(10).multiply_ratio_ceil(u(1), u(3)), Ok(u(4)));
    assert_eq!(u(7).multiply_ratio_ceil(u(3), u(2)), Ok(u(11)));
}

#[test]
fn ceil_ratio_keeps_an_exact_quotient() {
    assert_eq!(u(9).multiply_ratio_ceil(u(1), u(3)), Ok(u(3)));
    assert_eq!(u(0).multiply_ratio_ceil(u(5), u(7)), Ok(u(0)));
}

#[test]
fn ceil_ratio_errors() {
    assert_eq!(
        u(10).multiply_ratio_ceil(u(1), u(0)),
        Err(CheckedMultiplyRatioError::DivideByZero)
    );
    assert_eq!(
        u256_max().multiply_ratio_ceil(u(2), u(1)),
        Err(CheckedMultiplyRatioError::Overflow)
    );
    // An exact quotient at the top of the range still fits.
    assert_eq!(
        u256_max().multiply_ratio_ceil(u256_max(), u256_max()),
        Ok(u256_max())
    );
}

#[test]
fn ceil_ratio_bounds_on_values() {
    // 7 * 3 / 2 = 10.5: floor 10, ceil 11, and 11 * 2 covers 21 by less than 2.
    let floor = u(7).checked_multiply_ratio(u(3), u(2)).unwrap();
    let ceil = u(7).multiply_ratio_ceil(u(3), u(2)).unwrap();
    assert_eq!(floor, u(10));
    assert_eq!(ceil, u(11));
    assert_eq!(ceil.to_string(), "11");
}

#[test]
fn checked_multiply_ratio_rounds_down() {
    assert_eq!(u(10).checked_multiply_ratio(u(1), u(3)), Ok(u(3)));
    assert_eq!(
        u(10).checked_multiply_ratio(u(1), u(0)),
        Err(CheckedMultiplyRatioError::DivideByZero)
    );
    assert_eq!(
        u256_max().checked_multiply_ratio(u(3), u(2)),
        Err(CheckedMultiplyRatioError::Overflow)
    );
}

#[test]
fn mul_decimal_values() {
    assert_eq!(100u128.mul_decimal(dec(1_500_000_000_000_000_000)), Ok(150));
    assert_eq!(3u128.mul_decimal(dec(500_000_000_000_000_000)), Ok(1));
    assert_eq!(
        u128::MAX.mul_decimal(dec(2 * ONE)),
        Err(DecimalMathError::ConversionOverflowError(ConversionOverflowError {}))
    );
}

#[test]
fn div_decimal_values() {
    assert_eq!(150u128.div_decimal(dec(1_500_000_000_000_000_000)), Ok(100));
    assert_eq!(10u128.div_decimal(dec(3 * ONE)), Ok(3));
    assert_eq!(
        10u128.div_decimal(dec(0)),
        Err(DecimalMathError::CheckedMultiplyRatioError(
            CheckedMultiplyRatioError::DivideByZero
        ))
    );
    assert_eq!(
        u128::MAX.div_decimal(dec(ONE / 2)),
        Err(DecimalMathError::ConversionOverflowError(ConversionOverflowError {}))
    );
}

#[test]
fn decimal_one_is_neutral() {
    for x in [0u128, 1, 42, 1_000_000, u128::MAX] {
        assert_eq!(x.mul_decimal(Decimal256::one()), Ok(x));
        assert_eq!(x.div_decimal(Decimal256::one()), Ok(x));
    }
}

#[test]
fn decimal_from_ratio() {
    assert_eq!(
        Decimal256::checked_from_ratio(u(1), u(4)),
        Ok(dec(250_000_000_000_000_000))
    );
    assert_eq!(
        Decimal256::checked_from_ratio(u(2), u(3)),
        Ok(dec(666_666_666_666_666_666))
    );
    assert_eq!(
        Decimal256::checked_from_ratio(u(1), u(0)),
        Err(CheckedFromRatioError::DivideByZero)
    );
    assert_eq!(
        Decimal256::checked_from_ratio(u256_max(), u(1)),
        Err(CheckedFromRatioError::Overflow)
    );
}

#[test]
fn decimal_parts_and_order() {
    let d = dec(2_250_000_000_000_000_000);
    assert_eq!(d.numerator(), u(2_250_000_000_000_000_000));
    assert_eq!(d.denominator(), u(ONE));
    assert!(Decimal256::one().lt(&d));
    assert!(!d.lt(&Decimal256::one()));
    assert!(!d.lt(&d));
    assert_eq!(
        Decimal256::from_decimal(Decimal { atomics: 5 * ONE }),
        dec(5 * ONE)
    );
}

#[test]
fn decimal_text() {
    assert_eq!(Decimal256::one().to_string(), "1");
    assert_eq!(dec(1_500_000_000_000_000_000).to_string(), "1.5");
    assert_eq!(dec(2_250_000_000_000_000_000).to_string(), "2.25");
    assert_eq!(dec(1).to_string(), "0.000000000000000001");
    assert_eq!(dec(0).to_string(), "0");
}

#[test]
fn uint_text_and_order() {
    assert_eq!(u(12345).to_string(), "12345");
    assert_eq!(u(0).to_string(), "0");
    assert_eq!(
        u256_max().to_string(),
        "115792089237316195423570985008687907853269984665640564039457584007913129639935"
    );
    assert!(u(3).lt(&u(4)));
    assert!(!u(4).lt(&u(4)));
    assert!(Uint256::zero().is_zero());
    assert!(!Uint256::one().is_zero());
    assert_eq!(u(2).add(&u(3)), u(5));
    assert_eq!(amount_to_string(u128::MAX), "340282366920938463463374607431768211455");
}

#[test]
fn narrowing() {
    assert_eq!(u(u128::MAX).try_into_u128(), Ok(u128::MAX));
    let too_big = u(u128::MAX).add(&u(1));
    assert_eq!(too_big.try_into_u128(), Err(ConversionOverflowError {}));
    assert_eq!(
        too_big.to_string(),
        "340282366920938463463374607431768211456"
    );
}

#[test]
fn wide_arithmetic() {
    let p = u256_max().full_mul(u(2));
    assert_eq!(p.try_into_uint256(), Err(ConversionOverflowError {}));
    let q = p.checked_div(Uint512::from_uint256(u(2))).unwrap();
    assert_eq!(q.try_into_uint256(), Ok(u256_max()));
    let r = u(7).full_mul(u(3)).checked_rem(Uint512::from_uint256(u(4))).unwrap();
    assert_eq!(r.try_into_uint256(), Ok(u(1)));
    assert!(p.checked_div(Uint512::from_uint256(u(0))).is_err());
    assert!(p.checked_rem(Uint512::from_uint256(u(0))).is_err());
    assert!(!Uint512::one().is_zero());
    assert_eq!(
        Uint512::one().add(&Uint512::one()).try_into_uint256(),
        Ok(u(2))
    );
}
