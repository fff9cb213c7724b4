use mars_rover::coin::{coin256, Coin256};
use mars_rover::health::{Health, HealthError, MarketQuote, Position};
use mars_rover::uint::{CheckedMultiplyRatioError, Decimal256, Uint256};

const ONE: u128 = 1_000_000_000_000_000_000;

fn u(x: u128) -> Uint256 {
    Uint256::from_u128(x)
}

fn dec(atomics: u128) -> Decimal256 {
    Decimal256::new(u(atomics))
}

fn position(denom: &str, price: u128, collateral: u128, debt: u128, max_ltv: u128, lt: u128) -> Position {
    Position {
        denom: denom.to_string(),
        price: dec(price),
        collateral_amount: u(collateral),
        debt_amount: u(debt),
        max_ltv: dec(max_ltv),
        liquidation_threshold: dec(lt),
    }
}

#[test]
fn health_without_debt_has_no_factors() {
    let ps = vec![position("uosmo", ONE / 4, 1000, 0, ONE / 2, 6 * ONE / 10)];
    let h = Health::compute_health(&ps).unwrap();
    assert_eq!(h.total_collateral_value, u(250));
    assert_eq!(h.total_debt_value, u(0));
    assert_eq!(h.max_ltv_adjusted_collateral, u(125));
    assert_eq!(h.liquidation_threshold_adjusted_collateral, u(150));
    assert_eq!(h.max_ltv_health_factor, None);
    assert_eq!(h.liquidation_health_factor, None);
    assert!(!h.is_liquidatable());
    assert!(!h.is_above_max_ltv());
}

#[test]
fn health_of_a_healthy_account() {
    let ps = vec![
        position("uatom", 2 * ONE, 100, 0, 6 * ONE / 10, 7 * ONE / 10),
        position("uosmo", ONE, 0, 100, ONE / 2, ONE / 2),
    ];
    let h = Health::compute_health(&ps).unwrap();
    assert_eq!(h.total_collateral_value, u(200));
    assert_eq!(h.total_debt_value, u(100));
    assert_eq!(h.max_ltv_adjusted_collateral, u(120));
    assert_eq!(h.liquidation_threshold_adjusted_collateral, u(140));
    assert_eq!(h.max_ltv_health_factor, Some(dec(1_200_000_000_000_000_000)));
    assert_eq!(h.liquidation_health_factor, Some(dec(1_400_000_000_000_000_000)));
    assert!(!h.is_liquidatable());
    assert!(!h.is_above_max_ltv());
}

#[test]
fn health_of_a_liquidatable_account() {
    let ps = vec![
        position("uatom", 2 * ONE, 100, 0, 6 * ONE / 10, 7 * ONE / 10),
        position("uosmo", ONE, 0, 150, ONE / 2, ONE / 2),
    ];
    let h = Health::compute_health(&ps).unwrap();
    assert_eq!(h.max_ltv_health_factor, Some(dec(800_000_000_000_000_000)));
    assert_eq!(h.liquidation_health_factor, Some(dec(933_333_333_333_333_333)));
    assert!(h.is_liquidatable());
    assert!(h.is_above_max_ltv());
}

#[test]
fn above_max_ltv_but_not_liquidatable() {
    let ps = vec![
        position("uatom", 2 * ONE, 100, 0, 6 * ONE / 10, 7 * ONE / 10),
        position("uosmo", ONE, 0, 130, ONE / 2, ONE / 2),
    ];
    let h = Health::compute_health(&ps).unwrap();
    assert!(h.is_above_max_ltv());
    assert!(!h.is_liquidatable());
}

#[test]
fn health_of_nothing() {
    let h = Health::compute_health(&[]).unwrap();
    assert_eq!(h.total_collateral_value, u(0));
    assert_eq!(h.max_ltv_health_factor, None);
}

#[test]
fn health_value_overflow_is_an_error() {
    let max = Uint256 { bytes: [0xff; 32] };
    let mut p = position("uatom", 2 * ONE, 0, 0, ONE, ONE);
    p.collateral_amount = max;
    let r = Health::compute_health(&[p]);
    assert_eq!(
        r,
        Err(HealthError::CheckedMultiplyRatioError(CheckedMultiplyRatioError::Overflow))
    );
}

#[test]
fn sums_that_fit() {
    let ps = vec![
        position("uatom", 2 * ONE, 100, 0, 6 * ONE / 10, 7 * ONE / 10),
        position("uosmo", ONE, 0, 150, ONE / 2, ONE / 2),
    ];
    assert!(Health::sums_fit(&ps));
    let max = Uint256 { bytes: [0xff; 32] };
    let mut big = position("uatom", ONE, 0, 0, ONE, ONE);
    big.collateral_amount = max;
    let one_more = position("uosmo", ONE, 1, 0, ONE, ONE);
    assert!(Health::sums_fit(&[big.clone()]));
    assert!(!Health::sums_fit(&[big, one_more]));
}

#[test]
fn health_text() {
    let ps = vec![
        position("uatom", 2 * ONE, 100, 0, 6 * ONE / 10, 7 * ONE / 10),
        position("uosmo", ONE, 0, 100, ONE / 2, ONE / 2),
    ];
    let h = Health::compute_health(&ps).unwrap();
    assert_eq!(
        h.to_string(),
        "(total_debt_value: 100, total_collateral_value: 200,  max_ltv_adjusted_collateral: 120, lqdt_threshold_adjusted_collateral: 140, max_ltv_health_factor: 1.2, liquidation_health_factor: 1.4)"
    );
    let h = Health::compute_health(&ps[..1]).unwrap();
    assert_eq!(
        h.to_string(),
        "(total_debt_value: 0, total_collateral_value: 200,  max_ltv_adjusted_collateral: 120, lqdt_threshold_adjusted_collateral: 140, max_ltv_health_factor: n/a, liquidation_health_factor: n/a)"
    );
}

fn quote(price: u128, max_ltv: u128, lt: u128) -> MarketQuote {
    MarketQuote { price: dec(price), max_ltv: dec(max_ltv), liquidation_threshold: dec(lt) }
}

#[test]
fn denoms_in_order_of_first_appearance() {
    let collateral = vec![coin256(10, "uatom".to_string()), coin256(5, "uosmo".to_string()), coin256(7, "uatom".to_string())];
    let debt = vec![coin256(3, "uosmo".to_string()), coin256(4, "uusdc".to_string())];
    assert_eq!(
        Health::denoms_to_quote(&collateral, &debt),
        vec!["uatom".to_string(), "uosmo".to_string(), "uusdc".to_string()]
    );
    assert_eq!(Health::denoms_to_quote(&[], &[]), Vec::<String>::new());
}

#[test]
fn positions_gather_coins_per_denom() {
    let collateral = vec![coin256(10, "uatom".to_string()), coin256(5, "uosmo".to_string()), coin256(7, "uatom".to_string())];
    let debt = vec![coin256(3, "uosmo".to_string()), coin256(4, "uusdc".to_string())];
    let quotes = vec![
        quote(2 * ONE, ONE / 2, ONE / 2),
        quote(ONE, 6 * ONE / 10, 7 * ONE / 10),
        quote(ONE, 8 * ONE / 10, 9 * ONE / 10),
    ];
    let ps = Health::positions_from_coins(&collateral, &debt, &quotes);
    assert_eq!(
        ps,
        vec![
            position("uatom", 2 * ONE, 17, 0, ONE / 2, ONE / 2),
            position("uosmo", ONE, 5, 3, 6 * ONE / 10, 7 * ONE / 10),
            position("uusdc", ONE, 0, 4, 8 * ONE / 10, 9 * ONE / 10),
        ]
    );
    let h = Health::compute_health(&ps).unwrap();
    assert_eq!(h.total_collateral_value, u(39));
    assert_eq!(h.total_debt_value, u(7));
}

#[test]
fn coin_amounts_that_fit() {
    let max = Uint256 { bytes: [0xff; 32] };
    let big = Coin256 { denom: "uatom".to_string(), amount: max };
    let small = coin256(1, "uatom".to_string());
    let other = coin256(1, "uosmo".to_string());
    assert!(Health::coin_amounts_fit(&[big.clone(), other.clone()], &[big.clone()]));
    assert!(!Health::coin_amounts_fit(&[big.clone(), small.clone()], &[]));
    assert!(!Health::coin_amounts_fit(&[], &[small, other, big]));
    assert!(Health::coin_amounts_fit(&[], &[]));
}

#[test]
fn a_factor_of_exactly_one_is_liquidatable_and_above_max_ltv() {
    // Collateral 200 adjusted to 120 and 140; debts of 120 and 140 bring the
    // factors to exactly one.
    let ps = vec![
        position("uatom", 2 * ONE, 100, 0, 6 * ONE / 10, 7 * ONE / 10),
        position("uosmo", ONE, 0, 140, ONE / 2, ONE / 2),
    ];
    let h = Health::compute_health(&ps).unwrap();
    assert_eq!(h.liquidation_health_factor, Some(dec(ONE)));
    assert!(h.is_liquidatable());
    assert!(h.is_above_max_ltv());

    let ps = vec![
        position("uatom", 2 * ONE, 100, 0, 6 * ONE / 10, 7 * ONE / 10),
        position("uosmo", ONE, 0, 120, ONE / 2, ONE / 2),
    ];
    let h = Health::compute_health(&ps).unwrap();
    assert_eq!(h.max_ltv_health_factor, Some(dec(ONE)));
    assert!(h.is_above_max_ltv());
    assert!(!h.is_liquidatable());
}

#[test]
fn health_ignores_the_order_of_positions() {
    let ps = vec![
        position("uatom", 2 * ONE, 100, 0, 6 * ONE / 10, 7 * ONE / 10),
        position("uosmo", ONE, 30, 150, ONE / 2, ONE / 2),
        position("uusdc", ONE, 7, 9, 8 * ONE / 10, 9 * ONE / 10),
    ];
    let reordered = vec![ps[2].clone(), ps[0].clone(), ps[1].clone()];
    assert_eq!(Health::compute_health(&ps), Health::compute_health(&reordered));
}

#[test]
fn positions_ignore_coin_order_and_splits() {
    let quote_of = |d: &str| match d {
        "uatom" => quote(2 * ONE, ONE / 2, ONE / 2),
        "uosmo" => quote(ONE, 6 * ONE / 10, 7 * ONE / 10),
        _ => quote(ONE, 8 * ONE / 10, 9 * ONE / 10),
    };
    let build = |collateral: Vec<Coin256>, debt: Vec<Coin256>| {
        let quotes: Vec<MarketQuote> =
            Health::denoms_to_quote(&collateral, &debt).iter().map(|d| quote_of(d)).collect();
        let mut ps = Health::positions_from_coins(&collateral, &debt, &quotes);
        ps.sort_by(|a, b| a.denom.cmp(&b.denom));
        ps
    };
    let c = |a: u128, d: &str| coin256(a, d.to_string());
    let base = build(vec![c(17, "uatom"), c(5, "uosmo")], vec![c(3, "uosmo"), c(4, "uusdc")]);
    let reordered = build(vec![c(5, "uosmo"), c(17, "uatom")], vec![c(4, "uusdc"), c(3, "uosmo")]);
    let split = build(vec![c(10, "uatom"), c(7, "uatom"), c(5, "uosmo")], vec![c(3, "uosmo"), c(1, "uusdc"), c(3, "uusdc")]);
    assert_eq!(base, reordered);
    assert_eq!(base, split);
}

#[test]
fn adjusted_collateral_is_ordered_and_denoms_are_distinct() {
    let ps = vec![
        position("uatom", 2 * ONE, 100, 0, 6 * ONE / 10, 7 * ONE / 10),
        position("uosmo", ONE, 30, 150, ONE / 2, ONE / 2),
    ];
    let h = Health::compute_health(&ps).unwrap();
    assert!(!h.liquidation_threshold_adjusted_collateral.lt(&h.max_ltv_adjusted_collateral));
    assert!(!h.total_collateral_value.lt(&h.liquidation_threshold_adjusted_collateral));

    let collateral = vec![coin256(1, "a".to_string()), coin256(2, "b".to_string()), coin256(3, "a".to_string())];
    let debt = vec![coin256(4, "b".to_string()), coin256(5, "c".to_string())];
    let denoms = Health::denoms_to_quote(&collateral, &debt);
    assert_eq!(denoms, vec!["a".to_string(), "b".to_string(), "c".to_string()]);
}
