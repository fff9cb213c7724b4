use mars_rover::adapters::{
    LiquidationContractBase, MarsParamsBase, OracleBase, OracleUnchecked, PriceResponse,
    Stringify, UpdateType, UnlockingChange, VaultBase, VaultConfig, VaultInstantiateConfig,
    VaultPositionAmount, VaultPositionUpdate, VaultUnchecked,
};
use mars_rover::coin::{coin256, Coin};
use mars_rover::error::ContractError as CreditError;
use mars_rover::math::DecimalMathError;
use mars_rover::mock_vault::{
    lockup_duration, query_assets_for_shares, request_unlock, withdraw_unlocked,
    withdraw_unlocking_force, BankSend, BlockInfo, ContractError, Duration, Expiration, Lockup,
};
use mars_rover::uint::{ConversionOverflowError, Decimal, Decimal256, Uint256};

const ONE: u128 = 1_000_000_000_000_000_000;

fn coin(amount: u128, denom: &str) -> Coin {
    Coin { denom: denom.to_string(), amount }
}

fn dec(atomics: u128) -> Decimal256 {
    Decimal256::new(Uint256::from_u128(atomics))
}

fn lockup(owner: &str, id: u64, release_at: Expiration, amount: u128) -> Lockup {
    Lockup { owner: owner.to_string(), id, release_at, coin: coin(amount, "vault_token") }
}

#[test]
fn requested_unlock_is_withdrawn_after_its_period() {
    let alice = "alice".to_string();
    let start = BlockInfo { height: 100, time: 5_000_000_000 };
    let earlier = vec![lockup("alice", 1, Expiration::AtHeight(50), 3)];
    let req = request_unlock(Some(earlier.clone()), Duration::Height(10), 2, &start, &alice, coin(40, "vault_token"));
    assert_eq!(req.lockup_id, 2);
    assert_eq!(req.next_lockup_id, 3);
    assert_eq!(
        req.lockups,
        vec![earlier[0].clone(), lockup("alice", 2, Expiration::AtHeight(110), 40)]
    );

    let too_soon = BlockInfo { height: 109, time: 9_000_000_000 };
    assert_eq!(
        withdraw_unlocked(Some(req.lockups.clone()), &too_soon, &alice, 2),
        Err(ContractError::UnlockNotReady {})
    );

    let later = BlockInfo { height: 110, time: 9_000_000_000 };
    let (left, send) = withdraw_unlocked(Some(req.lockups.clone()), &later, &alice, 2).unwrap();
    assert_eq!(left, earlier);
    assert_eq!(send, BankSend { to_address: "alice".to_string(), amount: vec![coin(40, "vault_token")] });
}

#[test]
fn unlock_by_time() {
    let start = BlockInfo { height: 1, time: 1_000 };
    let req = request_unlock(None, Duration::Time(10), 7, &start, &"bob".to_string(), coin(1, "t"));
    assert_eq!(req.lockups.len(), 1);
    assert_eq!(req.lockups[0].release_at, Expiration::AtTime(10_000_001_000));
    assert_eq!(Duration::Time(10).after(&start), Expiration::AtTime(10_000_001_000));
    assert_eq!(Duration::Height(4).after(&start), Expiration::AtHeight(5));
}

#[test]
fn expirations() {
    let block = BlockInfo { height: 10, time: 100 };
    assert!(Expiration::AtHeight(10).is_expired(&block));
    assert!(!Expiration::AtHeight(11).is_expired(&block));
    assert!(Expiration::AtTime(100).is_expired(&block));
    assert!(!Expiration::AtTime(101).is_expired(&block));
    assert!(!Expiration::Never {}.is_expired(&block));
}

#[test]
fn withdraw_unlocked_errors() {
    let block = BlockInfo { height: 1000, time: 0 };
    let alice = "alice".to_string();
    assert_eq!(withdraw_unlocked(None, &block, &alice, 1), Err(ContractError::UnlockRequired {}));
    let ls = vec![lockup("bob", 1, Expiration::AtHeight(5), 3)];
    assert_eq!(
        withdraw_unlocked(Some(ls.clone()), &block, &alice, 2),
        Err(ContractError::UnlockRequired {})
    );
    assert_eq!(
        withdraw_unlocked(Some(ls), &block, &alice, 1),
        Err(ContractError::Unauthorized {})
    );
}

#[test]
fn forced_withdrawals() {
    let alice = "alice".to_string();
    let ls = vec![
        lockup("alice", 1, Expiration::AtHeight(500), 30),
        lockup("alice", 2, Expiration::AtHeight(600), 50),
    ];
    let (left, send) = withdraw_unlocking_force(&ls, &alice, 1, Some(10)).unwrap();
    assert_eq!(
        left,
        vec![
            lockup("alice", 2, Expiration::AtHeight(600), 50),
            lockup("alice", 1, Expiration::AtHeight(500), 20),
        ]
    );
    assert_eq!(send, BankSend { to_address: "alice".to_string(), amount: vec![coin(10, "vault_token")] });

    let (left, send) = withdraw_unlocking_force(&ls, &alice, 2, None).unwrap();
    assert_eq!(left, vec![lockup("alice", 1, Expiration::AtHeight(500), 30)]);
    assert_eq!(send.amount, vec![coin(50, "vault_token")]);

    assert_eq!(
        withdraw_unlocking_force(&ls, &alice, 3, None),
        Err(ContractError::LockupPositionNotFound(3))
    );
}

#[test]
fn lockup_periods() {
    assert_eq!(lockup_duration(Some(Duration::Time(60))), Ok(Duration::Time(60)));
    assert_eq!(lockup_duration(None), Err(ContractError::NotLockingVault {}));
}

#[test]
fn assets_for_shares() {
    let assets = vec![coin(1000, "uatom"), coin(300, "uosmo"), coin(3, "ujuno")];
    assert_eq!(
        query_assets_for_shares(Some(100), &assets, 25),
        vec![coin(250, "uatom"), coin(75, "uosmo"), coin(0, "ujuno")]
    );
    assert_eq!(query_assets_for_shares(Some(100), &assets, 100), assets);
    assert_eq!(query_assets_for_shares(None, &assets, 25), vec![]);
}

#[test]
fn vault_config_checks() {
    let cfg = |max_ltv: u128, lt: u128| VaultConfig {
        deposit_cap: coin256(1000, "uusdc".to_string()),
        max_ltv: dec(max_ltv),
        liquidation_threshold: dec(lt),
        whitelisted: true,
    };
    assert_eq!(cfg(ONE / 2, 6 * ONE / 10).check(), Ok(()));
    assert_eq!(cfg(ONE, ONE).check(), Ok(()));
    let invalid = Err(CreditError::InvalidConfig {
        reason: "max ltv or liquidation threshold are invalid".to_string(),
    });
    assert_eq!(cfg(ONE + 1, ONE + 1).check(), invalid);
    assert_eq!(cfg(ONE / 2, ONE + 1).check(), invalid);
    assert_eq!(cfg(7 * ONE / 10, 6 * ONE / 10).check(), invalid);
}

#[test]
fn vault_descriptions() {
    let vaults: Vec<VaultUnchecked> = vec![VaultBase::new("vault_1".to_string()), VaultBase::new("vault_2".to_string())];
    assert_eq!(vaults.to_string(), "vault_1, vault_2");
    assert_eq!(Vec::<VaultUnchecked>::new().to_string(), "");

    let configs = vec![
        VaultInstantiateConfig {
            vault: VaultBase::new("vault_1".to_string()),
            config: VaultConfig {
                deposit_cap: coin256(1000, "uusdc".to_string()),
                max_ltv: dec(ONE / 2),
                liquidation_threshold: dec(6 * ONE / 10),
                whitelisted: true,
            },
        },
        VaultInstantiateConfig {
            vault: VaultBase::new("vault_2".to_string()),
            config: VaultConfig {
                deposit_cap: coin256(5, "uatom".to_string()),
                max_ltv: dec(ONE),
                liquidation_threshold: dec(ONE),
                whitelisted: false,
            },
        },
    ];
    assert_eq!(
        configs.to_string(),
        "addr: vault_1, deposit_cap: 1000uusdc, max_ltv: 0.5, liquidation_threshold: 0.6, whitelisted: true :: addr: vault_2, deposit_cap: 5uatom, max_ltv: 1, liquidation_threshold: 1, whitelisted: false"
    );
}

#[test]
fn default_amounts_of_updates() {
    assert!(matches!(
        VaultPositionUpdate::Unlocked(UpdateType::Increment(Uint256::one())).default_amount(),
        VaultPositionAmount::Unlocked(a) if a.0 == Uint256::zero()
    ));
    for update in [
        VaultPositionUpdate::Locked(UpdateType::Decrement(Uint256::one())),
        VaultPositionUpdate::Unlocking(UnlockingChange::Decrement { id: 1, amount: Uint256::one() }),
    ] {
        match update.default_amount() {
            VaultPositionAmount::Locking(l) => {
                assert_eq!(l.locked.0, Uint256::zero());
                assert!(l.unlocking.0.is_empty());
            }
            other => panic!("unexpected {other:?}"),
        }
    }
}

#[test]
fn total_value_of_coins() {
    let oracle: OracleUnchecked = OracleBase::new("oracle".to_string());
    assert_eq!(oracle.address(), "oracle");
    let coins = vec![coin(100, "uatom"), coin(10, "uosmo")];
    let prices = vec![Ok(dec(2_500_000_000_000_000_000)), Ok(dec(ONE / 10))];
    assert_eq!(oracle.query_total_value(&coins, &prices), Ok(251));
    assert_eq!(oracle.query_total_value(&[], &[]), Ok(0));

    let prices = vec![Ok(dec(ONE)), Err("no price for uosmo".to_string())];
    assert_eq!(
        oracle.query_total_value(&coins, &prices),
        Err(CreditError::Std("no price for uosmo".to_string()))
    );

    let coins = vec![coin(u128::MAX, "uatom")];
    assert_eq!(
        oracle.query_total_value(&coins, &[Ok(dec(2 * ONE))]),
        Err(CreditError::DecimalMath(DecimalMathError::ConversionOverflowError(ConversionOverflowError {})))
    );
}

#[test]
fn handles_and_prices() {
    let l = LiquidationContractBase::new("liq".to_string());
    assert_eq!(l.address(), "liq");
    let p = MarsParamsBase::new("params".to_string());
    assert_eq!(p.address(), "params");
    let v = VaultBase::new("vault".to_string());
    assert_eq!(v.address(), "vault");
    let res = PriceResponse::from_decimal_price(PriceResponse { denom: "uatom".to_string(), price: Decimal { atomics: 3 * ONE } });
    assert_eq!(res, PriceResponse { denom: "uatom".to_string(), price: dec(3 * ONE) });
}

#[test]
fn total_values_that_fit() {
    let oracle: OracleUnchecked = OracleBase::new("oracle".to_string());
    let coins = vec![coin(u128::MAX, "uatom"), coin(1, "uosmo")];
    assert!(!oracle.total_value_fits(&coins, &[Ok(dec(ONE)), Ok(dec(ONE))]));
    assert!(oracle.total_value_fits(&coins, &[Ok(dec(ONE)), Ok(dec(0))]));
    // A failed valuation is reported before any sum is taken.
    assert!(oracle.total_value_fits(&coins, &[Ok(dec(ONE)), Err("no price".to_string())]));
    assert_eq!(
        oracle.query_total_value(&coins, &[Ok(dec(ONE)), Ok(dec(0))]),
        Ok(u128::MAX)
    );
}
