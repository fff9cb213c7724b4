//! Account health: the value of collateral and debt, adjusted by each asset's
//! max loan-to-value and liquidation threshold, and the two health factors.

use vstd::prelude::*;
use vstd::string::StringExecFns;

use crate::coin::Coin256;
use crate::format::{decimal256_text, decimal_text};
use crate::uint::{
    decimal_fractional, lemma_uint256_bound, mul_ratio_floor, u256_max, CheckedFromRatioError,
    CheckedMultiplyRatioError, Decimal256, Uint256, Uint512,
};

verus! {

/// One asset held or owed by an account, with its price and risk parameters.
#[derive(Clone, Debug, PartialEq, Eq)]
pub struct Position {
    pub denom: String,
    pub price: Decimal256,
    pub collateral_amount: Uint256,
    pub debt_amount: Uint256,
    pub max_ltv: Decimal256,
    pub liquidation_threshold: Decimal256,
}

/// The health of an account.
#[derive(Clone, Debug, PartialEq, Eq)]
pub struct Health {
    /// The sum of the value of all debts
    pub total_debt_value: Uint256,
    /// The sum of the value of all collaterals
    pub total_collateral_value: Uint256,
    /// The sum of the value of all collaterals adjusted by their Max LTV
    pub max_ltv_adjusted_collateral: Uint256,
    /// The sum of the value of all collaterals adjusted by their Liquidation Threshold
    pub liquidation_threshold_adjusted_collateral: Uint256,
    /// The sum of the value of all collaterals multiplied by their max LTV, over the total value of debt
    pub max_ltv_health_factor: Option<Decimal256>,
    /// The sum of the value of all collaterals multiplied by their liquidation threshold over the total value of debt
    pub liquidation_health_factor: Option<Decimal256>,
}

/// Why the health could not be computed.
#[derive(Clone, Debug, PartialEq, Eq)]
pub enum HealthError {
    CheckedFromRatioError(CheckedFromRatioError),
    CheckedMultiplyRatioError(CheckedMultiplyRatioError),
    /// A query for a price or a market failed.
    Std(String),
}

/// The four running sums of a health computation.
pub struct Totals {
    pub debt: nat,
    pub collateral: nat,
    pub max_ltv_adjusted: nat,
    pub liquidation_threshold_adjusted: nat,
}

/// Where a health computation stands after some positions.
pub enum Tally {
    /// All sums computed so far.
    Summed(Totals),
    /// A value did not fit in 256 bits.
    Failed(CheckedMultiplyRatioError),
    /// A running sum did not fit in 256 bits (the computation panics).
    SumOverflow,
}

/// The value of `amount` at `price`.
pub open spec fn value_at(amount: nat, price: nat) -> nat {
    mul_ratio_floor(amount, price, decimal_fractional())
}

/// One position added to the running sums, in the order the computation
/// performs its steps.
pub open spec fn tally_step(t: Totals, p: Position) -> Tally {
    let collateral_value = value_at(p.collateral_amount@, p.price@);
    let debt_value = value_at(p.debt_amount@, p.price@);
    let ltv_value = value_at(collateral_value, p.max_ltv@);
    let lt_value = value_at(collateral_value, p.liquidation_threshold@);
    if collateral_value > u256_max() {
        Tally::Failed(CheckedMultiplyRatioError::Overflow)
    } else if debt_value > u256_max() {
        Tally::Failed(CheckedMultiplyRatioError::Overflow)
    } else if t.debt + debt_value > u256_max() || t.collateral + collateral_value > u256_max() {
        Tally::SumOverflow
    } else if ltv_value > u256_max() {
        Tally::Failed(CheckedMultiplyRatioError::Overflow)
    } else if t.max_ltv_adjusted + ltv_value > u256_max() {
        Tally::SumOverflow
    } else if lt_value > u256_max() {
        Tally::Failed(CheckedMultiplyRatioError::Overflow)
    } else if t.liquidation_threshold_adjusted + lt_value > u256_max() {
        Tally::SumOverflow
    } else {
        Tally::Summed(
            Totals {
                debt: t.debt + debt_value,
                collateral: t.collateral + collateral_value,
                max_ltv_adjusted: t.max_ltv_adjusted + ltv_value,
                liquidation_threshold_adjusted: t.liquidation_threshold_adjusted + lt_value,
            },
        )
    }
}

/// The running sums over all positions, in order.
pub open spec fn tally(ps: Seq<Position>) -> Tally
    decreases ps.len(),
{
    if ps.len() == 0 {
        Tally::Summed(Totals { debt: 0, collateral: 0, max_ltv_adjusted: 0, liquidation_threshold_adjusted: 0 })
    } else {
        match tally(ps.drop_last()) {
            Tally::Summed(t) => tally_step(t, ps.last()),
            other => other,
        }
    }
}

/// Once the running sums have failed on a prefix, they fail the same way on the whole.
proof fn lemma_tally_stuck(ps: Seq<Position>, i: int)
    requires
        0 <= i <= ps.len(),
        !(tally(ps.take(i)) is Summed),
    ensures
        tally(ps) == tally(ps.take(i)),
    decreases ps.len() - i,
{
    if i < ps.len() {
        assert(ps.take(i + 1).drop_last() =~= ps.take(i));
        lemma_tally_stuck(ps, i + 1);
    } else {
        assert(ps.take(i) =~= ps);
    }
}

/// `Some(x)` is the decimal `x`: the views of two optional decimals agree.
pub open spec fn opt_decimal_is(d: Option<Decimal256>, v: Option<nat>) -> bool {
    match (d, v) {
        (Some(x), Some(y)) => x@ == y,
        (None, None) => true,
        _ => false,
    }
}

/// The health factor `adjusted / debt`, as the atomics of an 18-digit decimal.
pub open spec fn factor(adjusted: nat, debt: nat) -> nat {
    mul_ratio_floor(adjusted, decimal_fractional(), debt)
}

/// A health holds the given sums and factors.
pub open spec fn health_is(h: Health, t: Totals, max_ltv_factor: Option<nat>, liquidation_factor: Option<nat>) -> bool {
    &&& h.total_debt_value@ == t.debt
    &&& h.total_collateral_value@ == t.collateral
    &&& h.max_ltv_adjusted_collateral@ == t.max_ltv_adjusted
    &&& h.liquidation_threshold_adjusted_collateral@ == t.liquidation_threshold_adjusted
    &&& opt_decimal_is(h.max_ltv_health_factor, max_ltv_factor)
    &&& opt_decimal_is(h.liquidation_health_factor, liquidation_factor)
}

/// Everything `compute_health` promises about its result for given positions.
pub open spec fn compute_health_post(ps: Seq<Position>, r: Result<Health, HealthError>) -> bool {
    match tally(ps) {
        Tally::Failed(e) => r == Err::<Health, HealthError>(HealthError::CheckedMultiplyRatioError(e)),
        Tally::SumOverflow => false,
        Tally::Summed(t) => if t.debt == 0 {
            r is Ok && health_is(r->Ok_0, t, None, None)
        } else if factor(t.max_ltv_adjusted, t.debt) > u256_max() || factor(t.liquidation_threshold_adjusted, t.debt) > u256_max() {
            r == Err::<Health, HealthError>(HealthError::CheckedFromRatioError(CheckedFromRatioError::Overflow))
        } else {
            r is Ok && health_is(
                r->Ok_0,
                t,
                Some(factor(t.max_ltv_adjusted, t.debt)),
                Some(factor(t.liquidation_threshold_adjusted, t.debt)),
            )
        },
    }
}

impl Health {
    /// Compute the health for a list of positions.
    ///
    /// Each position's collateral and debt are valued at its price; the
    /// collateral value is further adjusted by the max LTV and by the
    /// liquidation threshold. The health factors are the adjusted sums over the
    /// total debt value, and are only present when there is debt. A running sum
    /// beyond 256 bits panics, so such positions are excluded.
    pub fn compute_health(positions: &[Position]) -> (r: Result<Health, HealthError>)
        requires
            !(tally(positions@) is SumOverflow),
        ensures
            compute_health_post(positions@, r),
    {
        let mut health = Health {
            total_debt_value: Uint256::zero(),
            total_collateral_value: Uint256::zero(),
            max_ltv_adjusted_collateral: Uint256::zero(),
            liquidation_threshold_adjusted_collateral: Uint256::zero(),
            max_ltv_health_factor: None,
            liquidation_health_factor: None,
        };
        let n = positions.len();
        let mut i: usize = 0;
        assert(positions@.take(0) =~= Seq::<Position>::empty());
        while i < n
            invariant
                n == positions@.len(),
                0 <= i <= n,
                !(tally(positions@) is SumOverflow),
                tally(positions@.take(i as int)) is Summed,
                health_is(health, tally(positions@.take(i as int))->Summed_0, None, None),
            decreases n - i,
        {
            let p = &positions[i];
            let ghost t = tally(positions@.take(i as int))->Summed_0;
            let ghost next = positions@.take(i + 1);
            assert(next.drop_last() =~= positions@.take(i as int));
            assert(next.last() == positions@[i as int]);
            let collateral_value = match p.collateral_amount.checked_multiply_ratio(p.price.numerator(), p.price.denominator()) {
                Ok(v) => v,
                Err(e) => {
                    proof {
                        lemma_tally_stuck(positions@, i + 1);
                    }
                    return Err(HealthError::CheckedMultiplyRatioError(e));
                },
            };
            let debt_value = match p.debt_amount.checked_multiply_ratio(p.price.numerator(), p.price.denominator()) {
                Ok(v) => v,
                Err(e) => {
                    proof {
                        lemma_tally_stuck(positions@, i + 1);
                    }
                    return Err(HealthError::CheckedMultiplyRatioError(e));
                },
            };
            proof {
                if t.debt + debt_value@ > u256_max() || t.collateral + collateral_value@ > u256_max() {
                    lemma_tally_stuck(positions@, i + 1);
                }
            }
            health.total_debt_value = health.total_debt_value.add(&debt_value);
            health.total_collateral_value = health.total_collateral_value.add(&collateral_value);
            let ltv_value = match collateral_value.checked_multiply_ratio(p.max_ltv.numerator(), p.max_ltv.denominator()) {
                Ok(v) => v,
                Err(e) => {
                    proof {
                        lemma_tally_stuck(positions@, i + 1);
                    }
                    return Err(HealthError::CheckedMultiplyRatioError(e));
                },
            };
            proof {
                if t.max_ltv_adjusted + ltv_value@ > u256_max() {
                    lemma_tally_stuck(positions@, i + 1);
                }
            }
            health.max_ltv_adjusted_collateral = health.max_ltv_adjusted_collateral.add(&ltv_value);
            let lt_value = match collateral_value.checked_multiply_ratio(
                p.liquidation_threshold.numerator(),
                p.liquidation_threshold.denominator(),
            ) {
                Ok(v) => v,
                Err(e) => {
                    proof {
                        lemma_tally_stuck(positions@, i + 1);
                    }
                    return Err(HealthError::CheckedMultiplyRatioError(e));
                },
            };
            proof {
                if t.liquidation_threshold_adjusted + lt_value@ > u256_max() {
                    lemma_tally_stuck(positions@, i + 1);
                }
            }
            health.liquidation_threshold_adjusted_collateral = health.liquidation_threshold_adjusted_collateral.add(&lt_value);
            i = i + 1;
        }
        assert(positions@.take(n as int) =~= positions@);
        // Without debts a health factor cannot be computed (division by zero).
        if !health.total_debt_value.is_zero() {
            let max_ltv_factor = match Decimal256::checked_from_ratio(health.max_ltv_adjusted_collateral, health.total_debt_value) {
                Ok(d) => d,
                Err(e) => {
                    return Err(HealthError::CheckedFromRatioError(e));
                },
            };
            let liquidation_factor = match Decimal256::checked_from_ratio(
                health.liquidation_threshold_adjusted_collateral,
                health.total_debt_value,
            ) {
                Ok(d) => d,
                Err(e) => {
                    return Err(HealthError::CheckedFromRatioError(e));
                },
            };
            health.max_ltv_health_factor = Some(max_ltv_factor);
            health.liquidation_health_factor = Some(liquidation_factor);
        }
        Ok(health)
    }

    /// Whether the account can be liquidated: its liquidation health factor
    /// is one or below. Without debt it cannot.
    pub fn is_liquidatable(&self) -> (b: bool)
        ensures
            b == (self.liquidation_health_factor is Some && self.liquidation_health_factor->0@ <= decimal_fractional()),
    {
        match &self.liquidation_health_factor {
            Some(hf) => !Decimal256::one().lt(hf),
            None => false,
        }
    }

    /// Whether the account is above its max loan-to-value: its max-LTV health
    /// factor is one or below. Without debt it is not.
    pub fn is_above_max_ltv(&self) -> (b: bool)
        ensures
            b == (self.max_ltv_health_factor is Some && self.max_ltv_health_factor->0@ <= decimal_fractional()),
    {
        match &self.max_ltv_health_factor {
            Some(hf) => !Decimal256::one().lt(hf),
            None => false,
        }
    }
}


/// The price and risk parameters of one denomination, as the oracle and the
/// money market report them.
#[derive(Clone, Copy, Debug, PartialEq, Eq)]
pub struct MarketQuote {
    pub price: Decimal256,
    pub max_ltv: Decimal256,
    pub liquidation_threshold: Decimal256,
}

/// The denominations of a list of coins, each once, in order of first appearance.
pub open spec fn denoms_of(coins: Seq<Coin256>) -> Seq<Seq<char>>
    decreases coins.len(),
{
    if coins.len() == 0 {
        Seq::empty()
    } else {
        let d = denoms_of(coins.drop_last());
        if d.contains(coins.last().denom@) {
            d
        } else {
            d.push(coins.last().denom@)
        }
    }
}

/// The total amount of `denom` in a list of coins.
pub open spec fn amount_of(coins: Seq<Coin256>, denom: Seq<char>) -> nat
    decreases coins.len(),
{
    if coins.len() == 0 {
        0
    } else {
        amount_of(coins.drop_last(), denom) + if coins.last().denom@ == denom {
            coins.last().amount@
        } else {
            0
        }
    }
}

/// No denomination is listed twice.
pub proof fn lemma_denoms_distinct(coins: Seq<Coin256>)
    ensures
        denoms_of(coins).no_duplicates(),
    decreases coins.len(),
{
    if coins.len() > 0 {
        lemma_denoms_distinct(coins.drop_last());
    }
}

/// Adding a coin lists its denomination, if it was not listed yet.
proof fn lemma_denoms_grow(coins: Seq<Coin256>)
    requires
        coins.len() > 0,
    ensures
        forall|x: Seq<char>| #[trigger] denoms_of(coins).contains(x) <==> (denoms_of(coins.drop_last()).contains(x) || coins.last().denom@ == x),
        forall|k: int| 0 <= k < denoms_of(coins.drop_last()).len() ==> #[trigger] denoms_of(coins)[k] == denoms_of(coins.drop_last())[k],
        denoms_of(coins.drop_last()).len() <= denoms_of(coins).len(),
{
    let d = denoms_of(coins.drop_last());
    let last = coins.last().denom@;
    if !d.contains(last) {
        let e = d.push(last);
        assert(e == denoms_of(coins));
        assert forall|x: Seq<char>| #[trigger] e.contains(x) <==> (d.contains(x) || last == x) by {
            if d.contains(x) {
                let j = d.index_of(x);
                assert(e[j] == x);
            }
            if last == x {
                assert(e[d.len() as int] == x);
            }
            if e.contains(x) {
                let j = e.index_of(x);
                if j < d.len() {
                    assert(d[j] == x);
                }
            }
        }
    }
}

/// A denomination is listed exactly when some coin has it.
pub proof fn lemma_denoms_complete(coins: Seq<Coin256>, denom: Seq<char>)
    ensures
        denoms_of(coins).contains(denom) <==> exists|k: int| 0 <= k < coins.len() && #[trigger] coins[k].denom@ == denom,
    decreases coins.len(),
{
    if coins.len() > 0 {
        let init = coins.drop_last();
        lemma_denoms_complete(init, denom);
        lemma_denoms_grow(coins);
        if exists|k: int| 0 <= k < init.len() && #[trigger] init[k].denom@ == denom {
            let k = choose|k: int| 0 <= k < init.len() && #[trigger] init[k].denom@ == denom;
            assert(coins[k] == init[k]);
        }
        if exists|k: int| 0 <= k < coins.len() && #[trigger] coins[k].denom@ == denom {
            let k = choose|k: int| 0 <= k < coins.len() && #[trigger] coins[k].denom@ == denom;
            if k < init.len() {
                assert(init[k] == coins[k]);
            }
        }
        if coins.last().denom@ == denom {
            assert(coins[coins.len() - 1].denom@ == denom);
        }
    } else {
        assert(denoms_of(coins) =~= Seq::<Seq<char>>::empty());
    }
}

/// The denominations of a list of coins, in the form the callers use: no two
/// are the same, every coin's denomination is listed, and every listed one is
/// some coin's.
proof fn lemma_denoms_listed(coins: Seq<Coin256>)
    ensures
        forall|i: int, j: int| 0 <= i < j < denoms_of(coins).len() ==> denoms_of(coins)[i] != denoms_of(coins)[j],
        forall|k: int| #![trigger coins[k]] 0 <= k < coins.len() ==> exists|j: int| #![trigger denoms_of(coins)[j]] 0 <= j < denoms_of(coins).len() && denoms_of(coins)[j] == coins[k].denom@,
        forall|j: int| #![trigger denoms_of(coins)[j]] 0 <= j < denoms_of(coins).len() ==> exists|k: int| #![trigger coins[k]] 0 <= k < coins.len() && coins[k].denom@ == denoms_of(coins)[j],
{
    let ds = denoms_of(coins);
    lemma_denoms_distinct(coins);
    assert forall|k: int| #![trigger coins[k]] 0 <= k < coins.len() implies exists|j: int| #![trigger ds[j]] 0 <= j < ds.len() && ds[j] == coins[k].denom@ by {
        lemma_denoms_complete(coins, coins[k].denom@);
        let j = ds.index_of(coins[k].denom@);
        assert(ds[j] == coins[k].denom@);
    }
    assert forall|j: int| #![trigger ds[j]] 0 <= j < ds.len() implies exists|k: int| #![trigger coins[k]] 0 <= k < coins.len() && coins[k].denom@ == ds[j] by {
        assert(ds.contains(ds[j]));
        lemma_denoms_complete(coins, ds[j]);
    }
}

/// A list of names that spells out the denominations of some coins has no
/// name twice, names every coin's denomination, and names only those.
proof fn lemma_listed_names(names: Seq<String>, coins: Seq<Coin256>)
    requires
        names.len() == denoms_of(coins).len(),
        forall|k: int| 0 <= k < names.len() ==> #[trigger] names[k]@ == denoms_of(coins)[k],
    ensures
        forall|i: int, j: int| 0 <= i < j < names.len() ==> names[i]@ != names[j]@,
        forall|k: int| #![trigger coins[k]] 0 <= k < coins.len()
            ==> exists|j: int| #![trigger names[j]] 0 <= j < names.len() && names[j]@ == coins[k].denom@,
        forall|j: int| #![trigger names[j]] 0 <= j < names.len()
            ==> exists|k: int| #![trigger coins[k]] 0 <= k < coins.len() && coins[k].denom@ == names[j]@,
{
    let ds = denoms_of(coins);
    lemma_denoms_listed(coins);
    assert forall|k: int| #![trigger coins[k]] 0 <= k < coins.len() implies exists|j: int| #![trigger names[j]] 0 <= j < names.len() && names[j]@ == coins[k].denom@ by {
        let j = choose|j: int| #![trigger ds[j]] 0 <= j < ds.len() && ds[j] == coins[k].denom@;
        assert(names[j]@ == ds[j]);
    }
    assert forall|j: int| #![trigger names[j]] 0 <= j < names.len() implies exists|k: int| #![trigger coins[k]] 0 <= k < coins.len() && coins[k].denom@ == names[j]@ by {
        assert(names[j]@ == ds[j]);
    }
    assert forall|i: int, j: int| 0 <= i < j < names.len() implies names[i]@ != names[j]@ by {
        assert(names[i]@ == ds[i]);
        assert(names[j]@ == ds[j]);
    }
}

/// Positions built one per denomination have no denomination twice, one for
/// every coin's denomination, and only those.
proof fn lemma_listed_positions(ps: Seq<Position>, seen: Seq<Coin256>, collateral: Seq<Coin256>, debt: Seq<Coin256>, quotes: Seq<MarketQuote>)
    requires
        positions_match(ps, seen, collateral, debt, quotes),
    ensures
        forall|i: int, j: int| 0 <= i < j < ps.len() ==> ps[i].denom@ != ps[j].denom@,
        forall|k: int| #![trigger seen[k]] 0 <= k < seen.len()
            ==> exists|j: int| #![trigger ps[j]] 0 <= j < ps.len() && ps[j].denom@ == seen[k].denom@,
        forall|j: int| #![trigger ps[j]] 0 <= j < ps.len()
            ==> exists|k: int| #![trigger seen[k]] 0 <= k < seen.len() && seen[k].denom@ == ps[j].denom@,
{
    let ds = denoms_of(seen);
    lemma_denoms_listed(seen);
    assert forall|k: int| #![trigger seen[k]] 0 <= k < seen.len() implies exists|j: int| #![trigger ps[j]] 0 <= j < ps.len() && ps[j].denom@ == seen[k].denom@ by {
        let j = choose|j: int| #![trigger ds[j]] 0 <= j < ds.len() && ds[j] == seen[k].denom@;
        assert(ps[j].denom@ == ds[j]);
    }
    assert forall|j: int| #![trigger ps[j]] 0 <= j < ps.len() implies exists|k: int| #![trigger seen[k]] 0 <= k < seen.len() && seen[k].denom@ == ps[j].denom@ by {
        assert(ps[j].denom@ == ds[j]);
    }
    assert forall|i: int, j: int| 0 <= i < j < ps.len() implies ps[i].denom@ != ps[j].denom@ by {
        assert(ps[i].denom@ == ds[i]);
        assert(ps[j].denom@ == ds[j]);
    }
}

/// A denomination that no coin has adds up to nothing.
proof fn lemma_amount_absent(coins: Seq<Coin256>, denom: Seq<char>)
    requires
        !denoms_of(coins).contains(denom),
    ensures
        amount_of(coins, denom) == 0,
    decreases coins.len(),
{
    if coins.len() > 0 {
        lemma_denoms_grow(coins);
        assert(!denoms_of(coins.drop_last()).contains(denom));
        lemma_amount_absent(coins.drop_last(), denom);
    }
}

/// The denominations of a list extend those of each of its prefixes.
proof fn lemma_denoms_prefix(coins: Seq<Coin256>, i: int)
    requires
        0 <= i <= coins.len(),
    ensures
        denoms_of(coins.take(i)).len() <= denoms_of(coins).len(),
        forall|k: int| 0 <= k < denoms_of(coins.take(i)).len() ==> #[trigger] denoms_of(coins.take(i))[k] == denoms_of(coins)[k],
    decreases coins.len() - i,
{
    if i < coins.len() {
        lemma_denoms_prefix(coins, i + 1);
        assert(coins.take(i + 1).drop_last() =~= coins.take(i));
        lemma_denoms_grow(coins.take(i + 1));
        assert forall|k: int| 0 <= k < denoms_of(coins.take(i)).len() implies #[trigger] denoms_of(coins.take(i))[k] == denoms_of(coins)[k] by {
            assert(denoms_of(coins.take(i + 1))[k] == denoms_of(coins.take(i))[k]);
        }
    } else {
        assert(coins.take(i) =~= coins);
    }
}

/// The amount of a denomination over a prefix is at most that over the whole.
proof fn lemma_amount_prefix(coins: Seq<Coin256>, i: int, denom: Seq<char>)
    requires
        0 <= i <= coins.len(),
    ensures
        amount_of(coins.take(i), denom) <= amount_of(coins, denom),
    decreases coins.len() - i,
{
    if i < coins.len() {
        lemma_amount_prefix(coins, i + 1, denom);
        assert(coins.take(i + 1).drop_last() =~= coins.take(i));
    } else {
        assert(coins.take(i) =~= coins);
    }
}

/// The positions built so far: one per denomination of `seen`, holding the
/// amounts of `collateral` and `debt`, with the quote of its rank.
pub open spec fn positions_match(
    ps: Seq<Position>,
    seen: Seq<Coin256>,
    collateral: Seq<Coin256>,
    debt: Seq<Coin256>,
    quotes: Seq<MarketQuote>,
) -> bool {
    &&& ps.len() == denoms_of(seen).len()
    &&& forall|k: int| 0 <= k < ps.len() ==> {
        &&& (#[trigger] ps[k]).denom@ == denoms_of(seen)[k]
        &&& ps[k].collateral_amount@ == amount_of(collateral, denoms_of(seen)[k])
        &&& ps[k].debt_amount@ == amount_of(debt, denoms_of(seen)[k])
        &&& ps[k].price == quotes[k].price
        &&& ps[k].max_ltv == quotes[k].max_ltv
        &&& ps[k].liquidation_threshold == quotes[k].liquidation_threshold
    }
}

/// The index of the position of `denom`, if there is one.
fn find_position(ps: &Vec<Position>, denom: &String) -> (r: Option<usize>)
    ensures
        r is Some ==> r->0 < ps.len() && ps@[r->0 as int].denom@ == denom@,
        r is None ==> forall|k: int| 0 <= k < ps.len() ==> ps@[k].denom@ != denom@,
{
    let mut k: usize = 0;
    while k < ps.len()
        invariant
            0 <= k <= ps.len(),
            forall|j: int| 0 <= j < k ==> ps@[j].denom@ != denom@,
        decreases ps.len() - k,
    {
        if ps[k].denom == *denom {
            return Some(k);
        }
        k = k + 1;
    }
    None
}

impl Health {
    /// The denominations of collateral and debt, each once, in order of first
    /// appearance (collateral first): the assets whose market and price the
    /// health computation needs.
    pub fn denoms_to_quote(collateral: &[Coin256], debt: &[Coin256]) -> (r: Vec<String>)
        ensures
            r@.len() == denoms_of(collateral@ + debt@).len(),
            forall|k: int| 0 <= k < r@.len() ==> #[trigger] r@[k]@ == denoms_of(collateral@ + debt@)[k],
            forall|i: int, j: int| 0 <= i < j < r@.len() ==> r@[i]@ != r@[j]@,
            forall|k: int| #![trigger (collateral@ + debt@)[k]] 0 <= k < (collateral@ + debt@).len()
                ==> exists|j: int| #![trigger r@[j]] 0 <= j < r@.len() && r@[j]@ == (collateral@ + debt@)[k].denom@,
            forall|j: int| #![trigger r@[j]] 0 <= j < r@.len()
                ==> exists|k: int| #![trigger (collateral@ + debt@)[k]] 0 <= k < (collateral@ + debt@).len() && (collateral@ + debt@)[k].denom@ == r@[j]@,
    {
        let mut r: Vec<String> = Vec::new();
        let ghost all = collateral@ + debt@;
        let mut i: usize = 0;
        assert(all.take(0) =~= Seq::<Coin256>::empty());
        while i < collateral.len()
            invariant
                all == collateral@ + debt@,
                0 <= i <= collateral@.len(),
                r@.len() == denoms_of(all.take(i as int)).len(),
                forall|k: int| 0 <= k < r@.len() ==> #[trigger] r@[k]@ == denoms_of(all.take(i as int))[k],
            decreases collateral@.len() - i,
        {
            assert(collateral[i as int] == all[i as int]);
            Self::add_denom(&mut r, &collateral[i], Ghost(all), Ghost(i as int));
            i = i + 1;
        }
        let mut j: usize = 0;
        while j < debt.len()
            invariant
                all == collateral@ + debt@,
                0 <= j <= debt@.len(),
                r@.len() == denoms_of(all.take(collateral@.len() + j)).len(),
                forall|k: int| 0 <= k < r@.len() ==> #[trigger] r@[k]@ == denoms_of(all.take(collateral@.len() + j))[k],
            decreases debt@.len() - j,
        {
            assert(debt[j as int] == all[collateral@.len() + j]);
            Self::add_denom(&mut r, &debt[j], Ghost(all), Ghost(collateral@.len() + j));
            j = j + 1;
        }
        assert(all.take(all.len() as int) =~= all);
        proof {
            lemma_listed_names(r@, all);
        }
        r
    }

    /// Lists the denomination of `c`, the coin at `i` in `all`, unless it is listed.
    fn add_denom(r: &mut Vec<String>, c: &Coin256, Ghost(all): Ghost<Seq<Coin256>>, Ghost(i): Ghost<int>)
        requires
            0 <= i < all.len(),
            *c == all[i],
            old(r)@.len() == denoms_of(all.take(i)).len(),
            forall|k: int| 0 <= k < old(r)@.len() ==> #[trigger] old(r)@[k]@ == denoms_of(all.take(i))[k],
        ensures
            final(r)@.len() == denoms_of(all.take(i + 1)).len(),
            forall|k: int| 0 <= k < final(r)@.len() ==> #[trigger] final(r)@[k]@ == denoms_of(all.take(i + 1))[k],
    {
        assert(all.take(i + 1).drop_last() =~= all.take(i));
        assert(all.take(i + 1).last() == *c);
        let ghost d = denoms_of(all.take(i));
        let mut found = false;
        let mut k: usize = 0;
        while k < r.len()
            invariant
                0 <= k <= r@.len(),
                r@.len() == d.len(),
                forall|j: int| 0 <= j < r@.len() ==> #[trigger] r@[j]@ == d[j],
                found ==> d.contains(c.denom@),
                !found ==> forall|j: int| 0 <= j < k ==> d[j] != c.denom@,
            decreases r@.len() - k,
        {
            if r[k] == c.denom {
                found = true;
                assert(d[k as int] == c.denom@);
            }
            k = k + 1;
        }
        if !found {
            r.push(c.denom.clone());
        }
    }

    /// Gather collateral and debt coins into one position per denomination,
    /// in order of first appearance (collateral first). `quotes[k]` holds the
    /// price and risk parameters of the `k`-th denomination, as listed by
    /// `denoms_to_quote`. Amounts of one denomination add up; a sum beyond
    /// 256 bits panics, so such coins are excluded.
    pub fn positions_from_coins(collateral: &[Coin256], debt: &[Coin256], quotes: &[MarketQuote]) -> (r: Vec<Position>)
        requires
            quotes@.len() == denoms_of(collateral@ + debt@).len(),
            forall|d: Seq<char>| #[trigger] amount_of(collateral@, d) <= u256_max(),
            forall|d: Seq<char>| #[trigger] amount_of(debt@, d) <= u256_max(),
        ensures
            positions_match(r@, collateral@ + debt@, collateral@, debt@, quotes@),
            forall|i: int, j: int| 0 <= i < j < r@.len() ==> r@[i].denom@ != r@[j].denom@,
            forall|k: int| #![trigger (collateral@ + debt@)[k]] 0 <= k < (collateral@ + debt@).len()
                ==> exists|j: int| #![trigger r@[j]] 0 <= j < r@.len() && r@[j].denom@ == (collateral@ + debt@)[k].denom@,
            forall|j: int| #![trigger r@[j]] 0 <= j < r@.len()
                ==> exists|k: int| #![trigger (collateral@ + debt@)[k]] 0 <= k < (collateral@ + debt@).len() && (collateral@ + debt@)[k].denom@ == r@[j].denom@,
    {
        let mut ps: Vec<Position> = Vec::new();
        let mut i: usize = 0;
        proof {
            lemma_denoms_prefix(collateral@ + debt@, collateral@.len() as int);
            assert((collateral@ + debt@).take(collateral@.len() as int) =~= collateral@);
        }
        assert(collateral@.take(0) =~= Seq::<Coin256>::empty());
        while i < collateral.len()
            invariant
                0 <= i <= collateral@.len(),
                quotes@.len() == denoms_of(collateral@ + debt@).len(),
                denoms_of(collateral@).len() <= denoms_of(collateral@ + debt@).len(),
                forall|d: Seq<char>| #[trigger] amount_of(collateral@, d) <= u256_max(),
                positions_match(ps@, collateral@.take(i as int), collateral@.take(i as int), Seq::empty(), quotes@),
            decreases collateral@.len() - i,
        {
            let c = &collateral[i];
            let ghost prev = collateral@.take(i as int);
            let ghost next = collateral@.take(i + 1);
            assert(next.drop_last() =~= prev);
            assert(next.last() == *c);
            proof {
                lemma_denoms_distinct(prev);
                lemma_denoms_prefix(collateral@, i + 1);
                lemma_denoms_grow(next);
                lemma_amount_prefix(collateral@, i + 1, c.denom@);
                assert(amount_of(next, c.denom@) == amount_of(prev, c.denom@) + c.amount@);
            }
            match find_position(&ps, &c.denom) {
                Some(k) => {
                    let old = &ps[k];
                    assert(denoms_of(prev).contains(c.denom@)) by {
                        assert(denoms_of(prev)[k as int] == c.denom@);
                    }
                    let p = Position {
                        denom: old.denom.clone(),
                        price: old.price,
                        collateral_amount: old.collateral_amount.add(&c.amount),
                        debt_amount: old.debt_amount,
                        max_ltv: old.max_ltv,
                        liquidation_threshold: old.liquidation_threshold,
                    };
                    ps.set(k, p);
                    assert forall|j: int| 0 <= j < ps@.len() && j != k implies #[trigger] ps@[j].denom@ != c.denom@ by {
                        assert(denoms_of(prev)[j] != denoms_of(prev)[k as int]);
                    }
                },
                None => {
                    proof {
                        if denoms_of(prev).contains(c.denom@) {
                            let j = denoms_of(prev).index_of(c.denom@);
                            assert(ps@[j].denom@ == c.denom@);
                        }
                        lemma_amount_absent(prev, c.denom@);
                    }
                    let q = quotes[ps.len()];
                    ps.push(Position {
                        denom: c.denom.clone(),
                        price: q.price,
                        collateral_amount: c.amount,
                        debt_amount: Uint256::zero(),
                        max_ltv: q.max_ltv,
                        liquidation_threshold: q.liquidation_threshold,
                    });
                },
            }
            i = i + 1;
        }
        assert(collateral@.take(collateral@.len() as int) =~= collateral@);
        let mut j: usize = 0;
        assert(collateral@ + debt@.take(0) =~= collateral@);
        assert(debt@.take(0) =~= Seq::<Coin256>::empty());
        while j < debt.len()
            invariant
                0 <= j <= debt@.len(),
                quotes@.len() == denoms_of(collateral@ + debt@).len(),
                forall|d: Seq<char>| #[trigger] amount_of(debt@, d) <= u256_max(),
                positions_match(ps@, collateral@ + debt@.take(j as int), collateral@, debt@.take(j as int), quotes@),
            decreases debt@.len() - j,
        {
            let c = &debt[j];
            let ghost prev = collateral@ + debt@.take(j as int);
            let ghost next = collateral@ + debt@.take(j + 1);
            assert(next.drop_last() =~= prev);
            assert(next.last() == *c);
            assert(debt@.take(j + 1).drop_last() =~= debt@.take(j as int));
            assert(debt@.take(j + 1).last() == *c);
            proof {
                lemma_denoms_distinct(prev);
                assert((collateral@ + debt@).take(collateral@.len() + j + 1) =~= next);
                lemma_denoms_prefix(collateral@ + debt@, collateral@.len() + j + 1);
                lemma_denoms_grow(next);
                lemma_amount_prefix(debt@, j + 1, c.denom@);
                assert(amount_of(debt@.take(j + 1), c.denom@) == amount_of(debt@.take(j as int), c.denom@) + c.amount@);
            }
            match find_position(&ps, &c.denom) {
                Some(k) => {
                    let old = &ps[k];
                    assert(denoms_of(prev).contains(c.denom@)) by {
                        assert(denoms_of(prev)[k as int] == c.denom@);
                    }
                    let p = Position {
                        denom: old.denom.clone(),
                        price: old.price,
                        debt_amount: old.debt_amount.add(&c.amount),
                        collateral_amount: old.collateral_amount,
                        max_ltv: old.max_ltv,
                        liquidation_threshold: old.liquidation_threshold,
                    };
                    ps.set(k, p);
                    assert forall|m: int| 0 <= m < ps@.len() && m != k implies #[trigger] ps@[m].denom@ != c.denom@ by {
                        assert(denoms_of(prev)[m] != denoms_of(prev)[k as int]);
                    }
                },
                None => {
                    proof {
                        if denoms_of(prev).contains(c.denom@) {
                            let m = denoms_of(prev).index_of(c.denom@);
                            assert(ps@[m].denom@ == c.denom@);
                        }
                        assert(!denoms_of(debt@.take(j as int)).contains(c.denom@)) by {
                            let dt = debt@.take(j as int);
                            lemma_denoms_complete(dt, c.denom@);
                            lemma_denoms_complete(prev, c.denom@);
                            if denoms_of(dt).contains(c.denom@) {
                                let k = choose|k: int| 0 <= k < dt.len() && #[trigger] dt[k].denom@ == c.denom@;
                                assert(prev[collateral@.len() + k] == dt[k]);
                            }
                        }
                        lemma_amount_absent(debt@.take(j as int), c.denom@);
                        assert(!denoms_of(collateral@).contains(c.denom@)) by {
                            lemma_denoms_complete(collateral@, c.denom@);
                            lemma_denoms_complete(prev, c.denom@);
                            if denoms_of(collateral@).contains(c.denom@) {
                                let k = choose|k: int| 0 <= k < collateral@.len() && #[trigger] collateral@[k].denom@ == c.denom@;
                                assert(prev[k] == collateral@[k]);
                            }
                        }
                        lemma_amount_absent(collateral@, c.denom@);
                    }
                    let q = quotes[ps.len()];
                    ps.push(Position {
                        denom: c.denom.clone(),
                        price: q.price,
                        collateral_amount: Uint256::zero(),
                        debt_amount: c.amount,
                        max_ltv: q.max_ltv,
                        liquidation_threshold: q.liquidation_threshold,
                    });
                },
            }
            j = j + 1;
        }
        assert(debt@.take(debt@.len() as int) =~= debt@);
        proof {
            lemma_listed_positions(ps@, collateral@ + debt@, collateral@, debt@, quotes@);
        }
        ps
    }
}


/// `a + b`, when it fits in 256 bits.
fn checked_add_256(a: Uint256, b: Uint256) -> (r: Option<Uint256>)
    ensures
        a@ + b@ <= u256_max() ==> r is Some && r->0@ == a@ + b@,
        a@ + b@ > u256_max() ==> r is None,
{
    proof {
        lemma_uint256_bound(a);
        lemma_uint256_bound(b);
    }
    let s = Uint512::from_uint256(a).add(&Uint512::from_uint256(b));
    match s.try_into_uint256() {
        Ok(v) => Some(v),
        Err(_) => None,
    }
}

/// Whether the amounts of each denomination in `coins` add up within 256 bits.
fn amounts_fit(coins: &[Coin256]) -> (b: bool)
    ensures
        b == (forall|d: Seq<char>| #[trigger] amount_of(coins@, d) <= u256_max()),
{
    let mut i: usize = 0;
    while i < coins.len()
        invariant
            0 <= i <= coins@.len(),
            forall|k: int| 0 <= k < i ==> amount_of(coins@, #[trigger] coins@[k].denom@) <= u256_max(),
        decreases coins@.len() - i,
    {
        let d = &coins[i].denom;
        let mut acc = Uint256::zero();
        let mut j: usize = 0;
        assert(coins@.take(0) =~= Seq::<Coin256>::empty());
        while j < coins.len()
            invariant
                0 <= j <= coins@.len(),
                i < coins@.len(),
                d@ == coins@[i as int].denom@,
                acc@ == amount_of(coins@.take(j as int), d@),
            decreases coins@.len() - j,
        {
            assert(coins@.take(j + 1).drop_last() =~= coins@.take(j as int));
            assert(coins@.take(j + 1).last() == coins@[j as int]);
            if coins[j].denom == *d {
                match checked_add_256(acc, coins[j].amount) {
                    Some(v) => {
                        acc = v;
                    },
                    None => {
                        proof {
                            lemma_amount_prefix(coins@, j + 1, d@);
                            assert(amount_of(coins@, d@) > u256_max());
                        }
                        return false;
                    },
                }
            }
            j = j + 1;
        }
        assert(coins@.take(coins@.len() as int) =~= coins@);
        proof {
            lemma_uint256_bound(acc);
        }
        i = i + 1;
    }
    assert forall|d: Seq<char>| #[trigger] amount_of(coins@, d) <= u256_max() by {
        lemma_denoms_complete(coins@, d);
        if denoms_of(coins@).contains(d) {
            let k = choose|k: int| 0 <= k < coins@.len() && #[trigger] coins@[k].denom@ == d;
            assert(amount_of(coins@, coins@[k].denom@) <= u256_max());
        } else {
            lemma_amount_absent(coins@, d);
        }
    }
    true
}

impl Health {
    /// Whether the amounts of each denomination add up within 256 bits, in
    /// the collateral and in the debt: the coins `positions_from_coins`
    /// accepts.
    pub fn coin_amounts_fit(collateral: &[Coin256], debt: &[Coin256]) -> (b: bool)
        ensures
            b == ((forall|d: Seq<char>| #[trigger] amount_of(collateral@, d) <= u256_max())
                && (forall|d: Seq<char>| #[trigger] amount_of(debt@, d) <= u256_max())),
    {
        amounts_fit(collateral) && amounts_fit(debt)
    }

    /// Whether the running sums of a health computation stay within 256 bits:
    /// the positions `compute_health` accepts.
    pub fn sums_fit(positions: &[Position]) -> (b: bool)
        ensures
            b == !(tally(positions@) is SumOverflow),
    {
        let mut debt = Uint256::zero();
        let mut collateral = Uint256::zero();
        let mut ltv_adjusted = Uint256::zero();
        let mut lt_adjusted = Uint256::zero();
        let n = positions.len();
        let mut i: usize = 0;
        assert(positions@.take(0) =~= Seq::<Position>::empty());
        while i < n
            invariant
                n == positions@.len(),
                0 <= i <= n,
                tally(positions@.take(i as int)) is Summed,
                tally(positions@.take(i as int))->Summed_0 == (Totals {
                    debt: debt@,
                    collateral: collateral@,
                    max_ltv_adjusted: ltv_adjusted@,
                    liquidation_threshold_adjusted: lt_adjusted@,
                }),
            decreases n - i,
        {
            let p = &positions[i];
            let ghost next = positions@.take(i + 1);
            assert(next.drop_last() =~= positions@.take(i as int));
            assert(next.last() == positions@[i as int]);
            let collateral_value = match p.collateral_amount.checked_multiply_ratio(p.price.numerator(), p.price.denominator()) {
                Ok(v) => v,
                Err(_) => {
                    proof {
                        lemma_tally_stuck(positions@, i + 1);
                    }
                    return true;
                },
            };
            let debt_value = match p.debt_amount.checked_multiply_ratio(p.price.numerator(), p.price.denominator()) {
                Ok(v) => v,
                Err(_) => {
                    proof {
                        lemma_tally_stuck(positions@, i + 1);
                    }
                    return true;
                },
            };
            let new_debt = checked_add_256(debt, debt_value);
            let new_collateral = checked_add_256(collateral, collateral_value);
            if new_debt.is_none() || new_collateral.is_none() {
                proof {
                    lemma_tally_stuck(positions@, i + 1);
                }
                return false;
            }
            debt = new_debt.unwrap();
            collateral = new_collateral.unwrap();
            let ltv_value = match collateral_value.checked_multiply_ratio(p.max_ltv.numerator(), p.max_ltv.denominator()) {
                Ok(v) => v,
                Err(_) => {
                    proof {
                        lemma_tally_stuck(positions@, i + 1);
                    }
                    return true;
                },
            };
            ltv_adjusted = match checked_add_256(ltv_adjusted, ltv_value) {
                Some(v) => v,
                None => {
                    proof {
                        lemma_tally_stuck(positions@, i + 1);
                    }
                    return false;
                },
            };
            let lt_value = match collateral_value.checked_multiply_ratio(
                p.liquidation_threshold.numerator(),
                p.liquidation_threshold.denominator(),
            ) {
                Ok(v) => v,
                Err(_) => {
                    proof {
                        lemma_tally_stuck(positions@, i + 1);
                    }
                    return true;
                },
            };
            lt_adjusted = match checked_add_256(lt_adjusted, lt_value) {
                Some(v) => v,
                None => {
                    proof {
                        lemma_tally_stuck(positions@, i + 1);
                    }
                    return false;
                },
            };
            i = i + 1;
        }
        assert(positions@.take(n as int) =~= positions@);
        true
    }
}

/// The text of an optional health factor: its decimal text, or "n/a".
pub open spec fn factor_text(f: Option<Decimal256>) -> Seq<char> {
    match f {
        Some(x) => decimal256_text(x@),
        None => "n/a"@,
    }
}

/// The description of a health.
pub open spec fn health_text(h: Health) -> Seq<char> {
    "(total_debt_value: "@ + decimal_text(h.total_debt_value@)
        + ", total_collateral_value: "@ + decimal_text(h.total_collateral_value@)
        + ",  max_ltv_adjusted_collateral: "@ + decimal_text(h.max_ltv_adjusted_collateral@)
        + ", lqdt_threshold_adjusted_collateral: "@ + decimal_text(h.liquidation_threshold_adjusted_collateral@)
        + ", max_ltv_health_factor: "@ + factor_text(h.max_ltv_health_factor)
        + ", liquidation_health_factor: "@ + factor_text(h.liquidation_health_factor)
        + ")"@
}

fn factor_to_string(f: &Option<Decimal256>) -> (r: String)
    ensures
        r@ == factor_text(*f),
{
    match f {
        Some(x) => x.to_string(),
        None => String::from_str("n/a"),
    }
}

impl Health {
    /// The sums and the health factors, "n/a" for a factor that is absent.
    pub fn to_string(&self) -> (r: String)
        ensures
            r@ == health_text(*self),
    {
        let mut r = String::from_str("(total_debt_value: ");
        r.append(self.total_debt_value.to_string().as_str());
        r.append(", total_collateral_value: ");
        r.append(self.total_collateral_value.to_string().as_str());
        r.append(",  max_ltv_adjusted_collateral: ");
        r.append(self.max_ltv_adjusted_collateral.to_string().as_str());
        r.append(", lqdt_threshold_adjusted_collateral: ");
        r.append(self.liquidation_threshold_adjusted_collateral.to_string().as_str());
        r.append(", max_ltv_health_factor: ");
        r.append(factor_to_string(&self.max_ltv_health_factor).as_str());
        r.append(", liquidation_health_factor: ");
        r.append(factor_to_string(&self.liquidation_health_factor).as_str());
        r.append(")");
        r
    }
}

/// Valuing at a higher ratio never gives less.
proof fn lemma_value_monotone(amount: nat, lo: nat, hi: nat)
    requires
        lo <= hi,
    ensures
        value_at(amount, lo) <= value_at(amount, hi),
{
    assert(amount * lo <= amount * hi) by (nonlinear_arith)
        requires
            lo <= hi,
    ;
    vstd::arithmetic::div_mod::lemma_div_is_ordered((amount * lo) as int, (amount * hi) as int, decimal_fractional() as int);
}

/// When no position's max LTV exceeds its liquidation threshold, the max-LTV
/// adjusted sum never exceeds the liquidation-threshold adjusted sum; when no
/// liquidation threshold exceeds one either, that sum never exceeds the
/// collateral value.
proof fn lemma_tally_ltv_below_threshold(ps: Seq<Position>)
    requires
        forall|k: int| 0 <= k < ps.len() ==> (#[trigger] ps[k]).max_ltv@ <= ps[k].liquidation_threshold@,
    ensures
        tally(ps) is Summed ==> tally(ps)->Summed_0.max_ltv_adjusted <= tally(ps)->Summed_0.liquidation_threshold_adjusted,
        (forall|k: int| 0 <= k < ps.len() ==> (#[trigger] ps[k]).liquidation_threshold@ <= decimal_fractional())
            ==> (tally(ps) is Summed ==> tally(ps)->Summed_0.liquidation_threshold_adjusted <= tally(ps)->Summed_0.collateral),
    decreases ps.len(),
{
    if ps.len() > 0 {
        let init = ps.drop_last();
        assert forall|k: int| 0 <= k < init.len() implies (#[trigger] init[k]).max_ltv@ <= init[k].liquidation_threshold@ by {
            assert(init[k] == ps[k]);
        }
        lemma_tally_ltv_below_threshold(init);
        let p = ps.last();
        assert(p == ps[ps.len() - 1]);
        let c = value_at(p.collateral_amount@, p.price@);
        lemma_value_monotone(c, p.max_ltv@, p.liquidation_threshold@);
        if (forall|k: int| 0 <= k < ps.len() ==> (#[trigger] ps[k]).liquidation_threshold@ <= decimal_fractional()) {
            assert forall|k: int| 0 <= k < init.len() implies (#[trigger] init[k]).liquidation_threshold@ <= decimal_fractional() by {
                assert(init[k] == ps[k]);
            }
            lemma_value_monotone(c, p.liquidation_threshold@, decimal_fractional());
            vstd::arithmetic::div_mod::lemma_div_multiples_vanish(c as int, decimal_fractional() as int);
            assert(c * decimal_fractional() == decimal_fractional() * c) by (nonlinear_arith);
            assert(value_at(c, decimal_fractional()) == c);
        }
    }
}

/// The adjusted sums of a health are ordered as the risk parameters are: when
/// no position's max LTV exceeds its liquidation threshold, the max-LTV
/// adjusted collateral is at most the liquidation-threshold adjusted
/// collateral; when no liquidation threshold exceeds one either (every valid
/// vault configuration ensures both), that is at most the collateral value.
pub proof fn lemma_adjusted_collateral_ordered(ps: Seq<Position>, h: Health)
    requires
        forall|k: int| 0 <= k < ps.len() ==> (#[trigger] ps[k]).max_ltv@ <= ps[k].liquidation_threshold@,
        compute_health_post(ps, Ok(h)),
    ensures
        h.max_ltv_adjusted_collateral@ <= h.liquidation_threshold_adjusted_collateral@,
        (forall|k: int| 0 <= k < ps.len() ==> (#[trigger] ps[k]).liquidation_threshold@ <= decimal_fractional())
            ==> h.liquidation_threshold_adjusted_collateral@ <= h.total_collateral_value@,
{
    lemma_tally_ltv_below_threshold(ps);
}

/// A liquidatable account is also above its max loan-to-value, as long as no
/// position's max LTV exceeds its liquidation threshold (which every valid
/// vault configuration ensures).
pub proof fn lemma_liquidatable_implies_above_max_ltv(ps: Seq<Position>, h: Health)
    requires
        forall|k: int| 0 <= k < ps.len() ==> (#[trigger] ps[k]).max_ltv@ <= ps[k].liquidation_threshold@,
        compute_health_post(ps, Ok(h)),
    ensures
        (h.liquidation_health_factor is Some && h.liquidation_health_factor->0@ <= decimal_fractional())
            ==> (h.max_ltv_health_factor is Some && h.max_ltv_health_factor->0@ <= decimal_fractional()),
{
    lemma_tally_ltv_below_threshold(ps);
    if tally(ps) is Summed {
        let t = tally(ps)->Summed_0;
        if t.debt != 0 {
            assert(t.max_ltv_adjusted * decimal_fractional() <= t.liquidation_threshold_adjusted * decimal_fractional()) by (nonlinear_arith)
                requires
                    t.max_ltv_adjusted <= t.liquidation_threshold_adjusted,
            ;
            vstd::arithmetic::div_mod::lemma_div_is_ordered(
                (t.max_ltv_adjusted * decimal_fractional()) as int,
                (t.liquidation_threshold_adjusted * decimal_fractional()) as int,
                t.debt as int,
            );
        }
    }
}

/// Without debt there are no health factors: the account is neither
/// liquidatable nor above its max loan-to-value.
pub proof fn lemma_no_debt_is_healthy(ps: Seq<Position>, h: Health)
    requires
        compute_health_post(ps, Ok(h)),
        h.total_debt_value@ == 0,
    ensures
        h.max_ltv_health_factor is None,
        h.liquidation_health_factor is None,
{
}


/// One position's values added to the four sums, without any bound.
pub open spec fn add_position(t: Totals, p: Position) -> Totals {
    let collateral_value = value_at(p.collateral_amount@, p.price@);
    Totals {
        debt: t.debt + value_at(p.debt_amount@, p.price@),
        collateral: t.collateral + collateral_value,
        max_ltv_adjusted: t.max_ltv_adjusted + value_at(collateral_value, p.max_ltv@),
        liquidation_threshold_adjusted: t.liquidation_threshold_adjusted + value_at(collateral_value, p.liquidation_threshold@),
    }
}

/// The four sums over all positions, without any bound.
pub open spec fn full_sums(ps: Seq<Position>) -> Totals {
    ps.fold_left(
        Totals { debt: 0, collateral: 0, max_ltv_adjusted: 0, liquidation_threshold_adjusted: 0 },
        |t: Totals, p: Position| add_position(t, p),
    )
}

/// Each of a position's values fits in 256 bits.
pub open spec fn values_fit(p: Position) -> bool {
    let collateral_value = value_at(p.collateral_amount@, p.price@);
    &&& collateral_value <= u256_max()
    &&& value_at(p.debt_amount@, p.price@) <= u256_max()
    &&& value_at(collateral_value, p.max_ltv@) <= u256_max()
    &&& value_at(collateral_value, p.liquidation_threshold@) <= u256_max()
}

/// Each of the four sums fits in 256 bits.
pub open spec fn totals_fit(t: Totals) -> bool {
    t.debt <= u256_max() && t.collateral <= u256_max() && t.max_ltv_adjusted <= u256_max()
        && t.liquidation_threshold_adjusted <= u256_max()
}

/// The running sums succeed exactly when every value and every full sum fits,
/// and then they are the full sums.
proof fn lemma_tally_summed(ps: Seq<Position>)
    ensures
        tally(ps) is Summed <==> ((forall|k: int| 0 <= k < ps.len() ==> values_fit(#[trigger] ps[k])) && totals_fit(full_sums(ps))),
        tally(ps) is Summed ==> tally(ps)->Summed_0 == full_sums(ps),
    decreases ps.len(),
{
    if ps.len() > 0 {
        let init = ps.drop_last();
        let p = ps.last();
        lemma_tally_summed(init);
        assert(full_sums(ps) == add_position(full_sums(init), p));
        assert(p == ps[ps.len() - 1]);
        assert(forall|k: int| 0 <= k < init.len() ==> #[trigger] init[k] == ps[k]);
        if (forall|k: int| 0 <= k < ps.len() ==> values_fit(#[trigger] ps[k])) {
            assert forall|k: int| 0 <= k < init.len() implies values_fit(#[trigger] init[k]) by {
                assert(init[k] == ps[k]);
            }
        }
        if !(forall|k: int| 0 <= k < init.len() ==> values_fit(#[trigger] init[k])) {
            let k = choose|k: int| 0 <= k < init.len() && !values_fit(#[trigger] init[k]);
            assert(!values_fit(ps[k]));
        }
        if (forall|k: int| 0 <= k < init.len() ==> values_fit(#[trigger] init[k])) && values_fit(p) {
            assert forall|k: int| 0 <= k < ps.len() implies values_fit(#[trigger] ps[k]) by {
                if k < init.len() {
                    assert(init[k] == ps[k]);
                }
            }
        }
    } else {
        assert(full_sums(ps) == (Totals { debt: 0, collateral: 0, max_ltv_adjusted: 0, liquidation_threshold_adjusted: 0 }));
    }
}

/// The health of an account does not depend on the order of its positions:
/// when the health of some positions is computed, any reordering of them gives
/// the same health.
pub proof fn lemma_health_ignores_order(ps: Seq<Position>, reordered: Seq<Position>, h: Health)
    requires
        reordered.to_multiset() == ps.to_multiset(),
        compute_health_post(ps, Ok(h)),
    ensures
        !(tally(reordered) is SumOverflow),
        compute_health_post(reordered, Ok(h)),
{
    let f = |t: Totals, p: Position| add_position(t, p);
    assert(vstd::seq_lib::commutative_foldl(f)) by {
        assert forall|x: Position, y: Position, v: Totals| #[trigger] f(f(v, x), y) == f(f(v, y), x) by {}
    }
    let zero = Totals { debt: 0, collateral: 0, max_ltv_adjusted: 0, liquidation_threshold_adjusted: 0 };
    vstd::seq_lib::lemma_fold_left_permutation(ps, reordered, f, zero);
    assert(full_sums(ps) == full_sums(reordered));
    lemma_tally_summed(ps);
    lemma_tally_summed(reordered);
    assert forall|k: int| 0 <= k < reordered.len() implies values_fit(#[trigger] reordered[k]) by {
        let x = reordered[k];
        vstd::seq_lib::to_multiset_contains(reordered, x);
        vstd::seq_lib::to_multiset_contains(ps, x);
        assert(reordered.contains(x));
        let j = ps.index_of(x);
        assert(ps[j] == x);
    }
}


/// Adding up the amounts of `denom`, one coin at a time.
pub open spec fn amount_step(denom: Seq<char>) -> spec_fn(int, Coin256) -> int {
    |acc: int, c: Coin256| acc + if c.denom@ == denom { c.amount@ as int } else { 0 }
}

/// The amount of a denomination is a fold over the coins.
proof fn lemma_amount_fold(coins: Seq<Coin256>, denom: Seq<char>)
    ensures
        amount_of(coins, denom) as int == coins.fold_left(0int, amount_step(denom)),
    decreases coins.len(),
{
    if coins.len() > 0 {
        lemma_amount_fold(coins.drop_last(), denom);
    }
}

/// The amount of a denomination over two lists of coins adds up.
proof fn lemma_amount_concat(s1: Seq<Coin256>, s2: Seq<Coin256>, denom: Seq<char>)
    ensures
        amount_of(s1 + s2, denom) == amount_of(s1, denom) + amount_of(s2, denom),
    decreases s2.len(),
{
    if s2.len() == 0 {
        assert(s1 + s2 =~= s1);
    } else {
        assert((s1 + s2).drop_last() =~= s1 + s2.drop_last());
        assert((s1 + s2).last() == s2.last());
        lemma_amount_concat(s1, s2.drop_last(), denom);
    }
}

/// A denomination is listed for two lists of coins exactly when it is listed
/// for one of them.
proof fn lemma_denoms_concat(s1: Seq<Coin256>, s2: Seq<Coin256>, denom: Seq<char>)
    ensures
        denoms_of(s1 + s2).contains(denom) <==> (denoms_of(s1).contains(denom) || denoms_of(s2).contains(denom)),
{
    lemma_denoms_complete(s1 + s2, denom);
    lemma_denoms_complete(s1, denom);
    lemma_denoms_complete(s2, denom);
    if denoms_of(s1 + s2).contains(denom) {
        let k = choose|k: int| 0 <= k < (s1 + s2).len() && #[trigger] (s1 + s2)[k].denom@ == denom;
        if k < s1.len() {
            assert(s1[k] == (s1 + s2)[k]);
        } else {
            assert(s2[k - s1.len()] == (s1 + s2)[k]);
        }
    }
    if denoms_of(s1).contains(denom) {
        let k = choose|k: int| 0 <= k < s1.len() && #[trigger] s1[k].denom@ == denom;
        assert((s1 + s2)[k] == s1[k]);
    }
    if denoms_of(s2).contains(denom) {
        let k = choose|k: int| 0 <= k < s2.len() && #[trigger] s2[k].denom@ == denom;
        assert((s1 + s2)[s1.len() + k] == s2[k]);
    }
}

/// The amount of each denomination, and which denominations there are, do
/// not depend on the order of the coins.
pub proof fn lemma_coins_ignore_order(coins: Seq<Coin256>, reordered: Seq<Coin256>)
    requires
        reordered.to_multiset() == coins.to_multiset(),
    ensures
        forall|d: Seq<char>| #[trigger] amount_of(reordered, d) == amount_of(coins, d),
        forall|d: Seq<char>| #[trigger] denoms_of(reordered).contains(d) <==> denoms_of(coins).contains(d),
{
    assert forall|d: Seq<char>| #[trigger] amount_of(reordered, d) == amount_of(coins, d) by {
        let f = amount_step(d);
        assert(vstd::seq_lib::commutative_foldl(f)) by {
            assert forall|x: Coin256, y: Coin256, v: int| #[trigger] f(f(v, x), y) == f(f(v, y), x) by {}
        }
        vstd::seq_lib::lemma_fold_left_permutation(coins, reordered, f, 0int);
        lemma_amount_fold(coins, d);
        lemma_amount_fold(reordered, d);
    }
    assert forall|d: Seq<char>| #[trigger] denoms_of(reordered).contains(d) <==> denoms_of(coins).contains(d) by {
        lemma_denoms_complete(coins, d);
        lemma_denoms_complete(reordered, d);
        if denoms_of(reordered).contains(d) {
            let k = choose|k: int| 0 <= k < reordered.len() && #[trigger] reordered[k].denom@ == d;
            let x = reordered[k];
            vstd::seq_lib::to_multiset_contains(reordered, x);
            vstd::seq_lib::to_multiset_contains(coins, x);
            assert(reordered.contains(x));
            let j = coins.index_of(x);
            assert(coins[j].denom@ == d);
        }
        if denoms_of(coins).contains(d) {
            let k = choose|k: int| 0 <= k < coins.len() && #[trigger] coins[k].denom@ == d;
            let x = coins[k];
            vstd::seq_lib::to_multiset_contains(reordered, x);
            vstd::seq_lib::to_multiset_contains(coins, x);
            assert(coins.contains(x));
            let j = reordered.index_of(x);
            assert(reordered[j].denom@ == d);
        }
    }
}

/// The coins with the coin at `i` split into `a` and `b` of its denomination,
/// whose amounts add up to its amount.
pub open spec fn coins_split(coins: Seq<Coin256>, i: int, a: Coin256, b: Coin256) -> Seq<Coin256> {
    coins.take(i) + seq![a, b] + coins.skip(i + 1)
}

/// The amount of each denomination, and the denominations in their order of
/// first appearance, do not change when a coin is split in two.
pub proof fn lemma_coins_ignore_splits(coins: Seq<Coin256>, i: int, a: Coin256, b: Coin256)
    requires
        0 <= i < coins.len(),
        a.denom@ == coins[i].denom@,
        b.denom@ == coins[i].denom@,
        a.amount@ + b.amount@ == coins[i].amount@,
    ensures
        forall|d: Seq<char>| #[trigger] amount_of(coins_split(coins, i, a, b), d) == amount_of(coins, d),
        forall|d: Seq<char>| #[trigger] denoms_of(coins_split(coins, i, a, b)).contains(d) <==> denoms_of(coins).contains(d),
{
    let split = coins_split(coins, i, a, b);
    let head = coins.take(i);
    let tail = coins.skip(i + 1);
    assert(coins =~= head + seq![coins[i]] + tail);
    assert forall|d: Seq<char>| #[trigger] amount_of(split, d) == amount_of(coins, d) by {
        lemma_amount_concat(head + seq![a, b], tail, d);
        lemma_amount_concat(head, seq![a, b], d);
        lemma_amount_concat(head + seq![coins[i]], tail, d);
        lemma_amount_concat(head, seq![coins[i]], d);
        let ab = seq![a, b];
        let c = seq![coins[i]];
        assert(ab.drop_last() =~= seq![a]);
        assert(seq![a].drop_last() =~= Seq::<Coin256>::empty());
        assert(c.drop_last() =~= Seq::<Coin256>::empty());
        assert(ab.last() == b);
        assert(seq![a].last() == a);
        assert(c.last() == coins[i]);
        assert(amount_of(Seq::<Coin256>::empty(), d) == 0);
        assert(amount_of(seq![a], d) == amount_of(Seq::<Coin256>::empty(), d) + if a.denom@ == d { a.amount@ } else { 0 });
        assert(amount_of(ab, d) == amount_of(seq![a], d) + if b.denom@ == d { b.amount@ } else { 0 });
        assert(amount_of(c, d) == amount_of(Seq::<Coin256>::empty(), d) + if coins[i].denom@ == d { coins[i].amount@ } else { 0 });
    }
    assert forall|d: Seq<char>| #[trigger] denoms_of(split).contains(d) <==> denoms_of(coins).contains(d) by {
        lemma_denoms_concat(head + seq![a, b], tail, d);
        lemma_denoms_concat(head, seq![a, b], d);
        lemma_denoms_concat(head + seq![coins[i]], tail, d);
        lemma_denoms_concat(head, seq![coins[i]], d);
        let ab = seq![a, b];
        let c = seq![coins[i]];
        lemma_denoms_complete(ab, d);
        lemma_denoms_complete(c, d);
        if denoms_of(ab).contains(d) {
            let k = choose|k: int| 0 <= k < ab.len() && #[trigger] ab[k].denom@ == d;
            assert(c[0].denom@ == d);
        }
        if denoms_of(c).contains(d) {
            assert(ab[0].denom@ == d);
        }
    }
}


/// Two positions hold the same denomination, amounts, price and risk parameters.
pub open spec fn same_position(p: Position, q: Position) -> bool {
    &&& p.denom@ == q.denom@
    &&& p.collateral_amount@ == q.collateral_amount@
    &&& p.debt_amount@ == q.debt_amount@
    &&& p.price == q.price
    &&& p.max_ltv == q.max_ltv
    &&& p.liquidation_threshold == q.liquidation_threshold
}

/// Some position of `ps` is the same as `p`.
pub open spec fn has_same_position(ps: Seq<Position>, p: Position) -> bool {
    exists|j: int| 0 <= j < ps.len() && #[trigger] same_position(p, ps[j])
}

/// Positions depend on the coins only through the amount of each
/// denomination: coins with the same denominations and the same amount of
/// each, quoted the same for each denomination, give the same positions, up
/// to their order. With `lemma_coins_ignore_order` and
/// `lemma_coins_ignore_splits`, reordering the coins or splitting a coin in
/// two leaves the positions as they are.
pub proof fn lemma_positions_follow_amounts(
    ps: Seq<Position>,
    collateral: Seq<Coin256>,
    debt: Seq<Coin256>,
    quotes: Seq<MarketQuote>,
    ps2: Seq<Position>,
    collateral2: Seq<Coin256>,
    debt2: Seq<Coin256>,
    quotes2: Seq<MarketQuote>,
)
    requires
        positions_match(ps, collateral + debt, collateral, debt, quotes),
        positions_match(ps2, collateral2 + debt2, collateral2, debt2, quotes2),
        forall|d: Seq<char>| #[trigger] amount_of(collateral2, d) == amount_of(collateral, d),
        forall|d: Seq<char>| #[trigger] amount_of(debt2, d) == amount_of(debt, d),
        forall|d: Seq<char>| #[trigger] denoms_of(collateral2).contains(d) <==> denoms_of(collateral).contains(d),
        forall|d: Seq<char>| #[trigger] denoms_of(debt2).contains(d) <==> denoms_of(debt).contains(d),
        quotes.len() == denoms_of(collateral + debt).len(),
        quotes2.len() == denoms_of(collateral2 + debt2).len(),
        forall|k: int, j: int|
            0 <= k < quotes.len() && 0 <= j < quotes2.len() && denoms_of(collateral + debt)[k] == denoms_of(collateral2 + debt2)[j]
                ==> #[trigger] quotes[k] == #[trigger] quotes2[j],
    ensures
        ps2.len() == ps.len(),
        forall|k: int| 0 <= k < ps.len() ==> has_same_position(ps2, #[trigger] ps[k]),
{
    let all = collateral + debt;
    let all2 = collateral2 + debt2;
    let ds = denoms_of(all);
    let ds2 = denoms_of(all2);
    assert forall|d: Seq<char>| #[trigger] ds.contains(d) <==> ds2.contains(d) by {
        lemma_denoms_concat(collateral, debt, d);
        lemma_denoms_concat(collateral2, debt2, d);
    }
    lemma_denoms_distinct(all);
    lemma_denoms_distinct(all2);
    assert(ds.to_set() =~= ds2.to_set());
    ds.unique_seq_to_set();
    ds2.unique_seq_to_set();
    assert forall|k: int| 0 <= k < ps.len() implies has_same_position(ps2, #[trigger] ps[k]) by {
        let d = ds[k];
        assert(ds.contains(d));
        assert(ds2.contains(d));
        let j = ds2.index_of(d);
        assert(ds2[j] == d);
        assert(quotes[k] == quotes2[j]);
        assert(amount_of(collateral2, d) == amount_of(collateral, d));
        assert(amount_of(debt2, d) == amount_of(debt, d));
        assert(same_position(ps[k], ps2[j]));
    }
}


/// The value of all collaterals: each amount at its price, rounded down, summed.
pub open spec fn collateral_value_sum(ps: Seq<Position>) -> nat
    decreases ps.len(),
{
    if ps.len() == 0 {
        0
    } else {
        collateral_value_sum(ps.drop_last()) + mul_ratio_floor(ps.last().collateral_amount@, ps.last().price@, decimal_fractional())
    }
}

/// The value of all debts: each amount at its price, rounded down, summed.
pub open spec fn debt_value_sum(ps: Seq<Position>) -> nat
    decreases ps.len(),
{
    if ps.len() == 0 {
        0
    } else {
        debt_value_sum(ps.drop_last()) + mul_ratio_floor(ps.last().debt_amount@, ps.last().price@, decimal_fractional())
    }
}

/// The value of each collateral times its max LTV, summed; debts play no part.
pub open spec fn max_ltv_collateral_sum(ps: Seq<Position>) -> nat
    decreases ps.len(),
{
    if ps.len() == 0 {
        0
    } else {
        let p = ps.last();
        max_ltv_collateral_sum(ps.drop_last()) + mul_ratio_floor(
            mul_ratio_floor(p.collateral_amount@, p.price@, decimal_fractional()),
            p.max_ltv@,
            decimal_fractional(),
        )
    }
}

/// The value of each collateral times its liquidation threshold, summed;
/// debts play no part.
pub open spec fn threshold_collateral_sum(ps: Seq<Position>) -> nat
    decreases ps.len(),
{
    if ps.len() == 0 {
        0
    } else {
        let p = ps.last();
        threshold_collateral_sum(ps.drop_last()) + mul_ratio_floor(
            mul_ratio_floor(p.collateral_amount@, p.price@, decimal_fractional()),
            p.liquidation_threshold@,
            decimal_fractional(),
        )
    }
}

/// The running sums, when they succeed, are the four sums over all positions.
proof fn lemma_tally_is_the_sums(ps: Seq<Position>)
    ensures
        tally(ps) is Summed ==> {
            let t = tally(ps)->Summed_0;
            &&& t.collateral == collateral_value_sum(ps)
            &&& t.debt == debt_value_sum(ps)
            &&& t.max_ltv_adjusted == max_ltv_collateral_sum(ps)
            &&& t.liquidation_threshold_adjusted == threshold_collateral_sum(ps)
        },
    decreases ps.len(),
{
    if ps.len() > 0 {
        lemma_tally_is_the_sums(ps.drop_last());
    }
}

/// What a computed health holds: the value of all collaterals and of all
/// debts; the collateral value of every position adjusted by its max LTV and
/// by its liquidation threshold, whatever its debt; and, when there is debt,
/// the two adjusted sums over the debt value as the health factors.
pub proof fn lemma_health_is_the_sums(ps: Seq<Position>, h: Health)
    requires
        compute_health_post(ps, Ok(h)),
    ensures
        h.total_collateral_value@ == collateral_value_sum(ps),
        h.total_debt_value@ == debt_value_sum(ps),
        h.max_ltv_adjusted_collateral@ == max_ltv_collateral_sum(ps),
        h.liquidation_threshold_adjusted_collateral@ == threshold_collateral_sum(ps),
        debt_value_sum(ps) == 0 ==> h.max_ltv_health_factor is None && h.liquidation_health_factor is None,
        debt_value_sum(ps) != 0 ==> (h.max_ltv_health_factor matches Some(f)
            && f@ == mul_ratio_floor(max_ltv_collateral_sum(ps), decimal_fractional(), debt_value_sum(ps))),
        debt_value_sum(ps) != 0 ==> (h.liquidation_health_factor matches Some(f)
            && f@ == mul_ratio_floor(threshold_collateral_sum(ps), decimal_fractional(), debt_value_sum(ps))),
{
    lemma_tally_is_the_sums(ps);
}

/// The collateral sums of positions that differ at most in their debts.
proof fn lemma_collateral_sums_ignore_debt(ps: Seq<Position>, ps2: Seq<Position>)
    requires
        ps.len() == ps2.len(),
        forall|k: int| 0 <= k < ps.len() ==> (#[trigger] ps2[k]).collateral_amount == ps[k].collateral_amount
            && ps2[k].price == ps[k].price && ps2[k].max_ltv == ps[k].max_ltv
            && ps2[k].liquidation_threshold == ps[k].liquidation_threshold,
    ensures
        collateral_value_sum(ps2) == collateral_value_sum(ps),
        max_ltv_collateral_sum(ps2) == max_ltv_collateral_sum(ps),
        threshold_collateral_sum(ps2) == threshold_collateral_sum(ps),
    decreases ps.len(),
{
    if ps.len() > 0 {
        let a = ps.drop_last();
        let b = ps2.drop_last();
        assert forall|k: int| 0 <= k < a.len() implies (#[trigger] b[k]).collateral_amount == a[k].collateral_amount
            && b[k].price == a[k].price && b[k].max_ltv == a[k].max_ltv
            && b[k].liquidation_threshold == a[k].liquidation_threshold by {
            assert(b[k] == ps2[k] && a[k] == ps[k]);
        }
        lemma_collateral_sums_ignore_debt(a, b);
        assert(ps2.last() == ps2[ps.len() - 1]);
        assert(ps.last() == ps[ps.len() - 1]);
    }
}

/// Debt does not change the collateral side of a health: positions that
/// differ only in their debts have the same collateral value and the same
/// adjusted collateral, so adding a debt never lowers the adjusted collateral.
pub proof fn lemma_debt_leaves_collateral_alone(ps: Seq<Position>, ps2: Seq<Position>, h: Health, h2: Health)
    requires
        ps.len() == ps2.len(),
        forall|k: int| 0 <= k < ps.len() ==> (#[trigger] ps2[k]).collateral_amount == ps[k].collateral_amount
            && ps2[k].price == ps[k].price && ps2[k].max_ltv == ps[k].max_ltv
            && ps2[k].liquidation_threshold == ps[k].liquidation_threshold,
        compute_health_post(ps, Ok(h)),
        compute_health_post(ps2, Ok(h2)),
    ensures
        h2.total_collateral_value@ == h.total_collateral_value@,
        h2.max_ltv_adjusted_collateral@ == h.max_ltv_adjusted_collateral@,
        h2.liquidation_threshold_adjusted_collateral@ == h.liquidation_threshold_adjusted_collateral@,
{
    lemma_health_is_the_sums(ps, h);
    lemma_health_is_the_sums(ps2, h2);
    lemma_collateral_sums_ignore_debt(ps, ps2);
}

} // verus!
