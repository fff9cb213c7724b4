//! Handles on the contracts the credit manager talks to: vaults, the params
//! contract, the liquidation contract and the oracle; vault configuration.

use vstd::prelude::*;
use vstd::string::StringExecFns;

use crate::coin::{Coin, Coin256};
use crate::error::ContractError;
use crate::math::{ratio_to_u128_spec, DecimalMathError, MulDecimal256};
use crate::text::{join, joined};
use crate::uint::{decimal_fractional, u128_max, Decimal, Decimal256, Uint256};
use crate::attribute::text;
use crate::format::{bool_text, bool_to_string, decimal256_text, decimal_text};

verus! {

/// The liquidation contract at an address.
#[derive(Clone, Debug, PartialEq, Eq)]
pub struct LiquidationContractBase<T>(pub T);

pub type LiquidationContractUnchecked = LiquidationContractBase<String>;

impl<T> LiquidationContractBase<T> {
    pub fn new(address: T) -> (r: LiquidationContractBase<T>)
        ensures
            r.0 == address,
    {
        LiquidationContractBase(address)
    }

    pub fn address(&self) -> (r: &T)
        ensures
            *r == self.0,
    {
        &self.0
    }
}

/// The params contract at an address.
#[derive(Clone, Debug, PartialEq, Eq)]
pub struct MarsParamsBase<T>(pub T);

pub type MarsParamsUnchecked = MarsParamsBase<String>;

impl<T> MarsParamsBase<T> {
    pub fn new(address: T) -> (r: MarsParamsBase<T>)
        ensures
            r.0 == address,
    {
        MarsParamsBase(address)
    }

    pub fn address(&self) -> (r: &T)
        ensures
            *r == self.0,
    {
        &self.0
    }
}

/// A vault at an address.
#[derive(Clone, Debug, PartialEq, Eq)]
pub struct VaultBase<T>(pub T);

pub type VaultUnchecked = VaultBase<String>;

impl<T> VaultBase<T> {
    pub fn new(address: T) -> (r: VaultBase<T>)
        ensures
            r.0 == address,
    {
        VaultBase(address)
    }

    pub fn address(&self) -> (r: &T)
        ensures
            *r == self.0,
    {
        &self.0
    }
}

/// Something that can describe itself as a string.
pub trait Stringify {
    fn to_string(&self) -> String;
}

impl Stringify for Vec<VaultUnchecked> {
    /// The vault addresses, separated by ", ".
    fn to_string(&self) -> (r: String)
        ensures
            r@ == joined(self@.map_values(|v: VaultUnchecked| v.0@), ", "@),
    {
        let mut addrs: Vec<String> = Vec::new();
        let mut i: usize = 0;
        while i < self.len()
            invariant
                0 <= i <= self@.len(),
                addrs@.len() == i,
                forall|k: int| 0 <= k < i ==> #[trigger] addrs@[k]@ == self@[k].0@,
            decreases self@.len() - i,
        {
            addrs.push(self[i].address().clone());
            i = i + 1;
        }
        assert(addrs@.map_values(|p: String| p@) =~= self@.map_values(|v: VaultUnchecked| v.0@));
        join(&addrs, ", ")
    }
}

/// The oracle at an address.
#[derive(Clone, Debug, PartialEq, Eq)]
pub struct OracleBase<T> {
    pub address: T,
}

pub type OracleUnchecked = OracleBase<String>;

impl<T> OracleBase<T> {
    pub open spec fn spec_address(&self) -> T {
        self.address
    }

    pub fn new(address: T) -> (r: Self)
        ensures
            r.spec_address() == address,
    {
        Self { address }
    }

    pub fn address(&self) -> (r: &T)
        ensures
            *r == self.spec_address(),
    {
        &self.address
    }
}

/// The price the oracle reports for a denomination.
#[derive(Clone, Debug, PartialEq, Eq)]
pub struct PriceResponse<T> {
    pub denom: String,
    pub price: T,
}

impl PriceResponse<Decimal256> {
    /// The same price with its decimal held in 256 bits.
    pub fn from_decimal_price(res: PriceResponse<Decimal>) -> (r: PriceResponse<Decimal256>)
        ensures
            r.denom == res.denom,
            r.price@ == res.price@,
    {
        PriceResponse { denom: res.denom, price: Decimal256::from_decimal(res.price) }
    }
}

/// How the oracle adapter prices a vault coin.
#[derive(Clone, Copy, Debug, PartialEq, Eq)]
pub enum PricingMethod {
    PreviewRedeem,
}

/// The value of `amount` at `price`, as a 128-bit amount.
pub open spec fn coin_value(amount: u128, price: Decimal256) -> Result<u128, DecimalMathError> {
    ratio_to_u128_spec(amount as nat, price@, decimal_fractional())
}

/// The outcome of valuing the first `n` coins: the first failure (a price
/// that could not be had, or a value that does not fit), or all values.
pub open spec fn values_of(coins: Seq<Coin>, prices: Seq<Result<Decimal256, String>>, n: nat) -> Result<Seq<u128>, ContractError>
    decreases n,
{
    if n == 0 {
        Ok(Seq::empty())
    } else {
        match values_of(coins, prices, (n - 1) as nat) {
            Err(e) => Err(e),
            Ok(vs) => match prices[n - 1] {
                Err(e) => Err(ContractError::Std(e)),
                Ok(p) => match coin_value(coins[n - 1].amount, p) {
                    Err(e) => Err(ContractError::DecimalMath(e)),
                    Ok(v) => Ok(vs.push(v)),
                },
            },
        }
    }
}

/// The sum of a sequence of amounts.
pub open spec fn sum_u128(vs: Seq<u128>) -> nat
    decreases vs.len(),
{
    if vs.len() == 0 {
        0
    } else {
        sum_u128(vs.drop_last()) + vs.last() as nat
    }
}

proof fn lemma_values_stuck(coins: Seq<Coin>, prices: Seq<Result<Decimal256, String>>, i: nat, n: nat)
    requires
        i <= n,
        values_of(coins, prices, i) is Err,
    ensures
        values_of(coins, prices, n) == values_of(coins, prices, i),
    decreases n - i,
{
    if i < n {
        lemma_values_stuck(coins, prices, i, (n - 1) as nat);
    }
}

proof fn lemma_sum_prefix(vs: Seq<u128>, ws: Seq<u128>)
    requires
        vs.len() <= ws.len(),
        forall|k: int| 0 <= k < vs.len() ==> vs[k] == ws[k],
    ensures
        sum_u128(vs) <= sum_u128(ws),
    decreases ws.len(),
{
    if vs.len() < ws.len() {
        lemma_sum_prefix(vs, ws.drop_last());
    } else if vs.len() > 0 {
        assert(vs =~= ws);
    }
}

impl<T> OracleBase<T> {
    /// The total value of `coins`, where `prices[k]` is what the oracle
    /// answered for the denomination of `coins[k]`. Coins are valued in order;
    /// the first price that could not be had or value that does not fit in 128
    /// bits is the error. The sum of the values must fit in 128 bits (summing
    /// panics otherwise).
    pub fn query_total_value(&self, coins: &[Coin], prices: &[Result<Decimal256, String>]) -> (r: Result<u128, ContractError>)
        requires
            prices@.len() == coins@.len(),
            values_of(coins@, prices@, coins@.len() as nat) is Ok ==> sum_u128(values_of(coins@, prices@, coins@.len() as nat)->Ok_0) <= u128_max(),
        ensures
            values_of(coins@, prices@, coins@.len() as nat) is Err ==> r == Err::<u128, ContractError>(values_of(coins@, prices@, coins@.len() as nat)->Err_0),
            values_of(coins@, prices@, coins@.len() as nat) is Ok ==> r is Ok && r->Ok_0 == sum_u128(values_of(coins@, prices@, coins@.len() as nat)->Ok_0),
    {
        let n = coins.len();
        let mut values: Vec<u128> = Vec::new();
        let mut i: usize = 0;
        while i < n
            invariant
                n == coins@.len(),
                prices@.len() == n,
                0 <= i <= n,
                values_of(coins@, prices@, i as nat) == Ok::<Seq<u128>, ContractError>(values@),
            decreases n - i,
        {
            let price = match &prices[i] {
                Ok(p) => *p,
                Err(e) => {
                    proof {
                        lemma_values_stuck(coins@, prices@, (i + 1) as nat, n as nat);
                    }
                    return Err(ContractError::Std(e.clone()));
                },
            };
            let value = match coins[i].amount.mul_decimal(price) {
                Ok(v) => v,
                Err(e) => {
                    proof {
                        lemma_values_stuck(coins@, prices@, (i + 1) as nat, n as nat);
                    }
                    return Err(ContractError::DecimalMath(e));
                },
            };
            values.push(value);
            i = i + 1;
        }
        let mut total: u128 = 0;
        let mut k: usize = 0;
        assert(values@.take(0) =~= Seq::<u128>::empty());
        while k < values.len()
            invariant
                0 <= k <= values@.len(),
                sum_u128(values@) <= u128_max(),
                total == sum_u128(values@.take(k as int)),
            decreases values@.len() - k,
        {
            assert(values@.take(k + 1).drop_last() =~= values@.take(k as int));
            proof {
                lemma_sum_prefix(values@.take(k + 1), values@);
            }
            total = total + values[k];
            k = k + 1;
        }
        assert(values@.take(values@.len() as int) =~= values@);
        Ok(total)
    }
}

impl<T> OracleBase<T> {
    /// Whether the total value of `coins` at `prices` fits in 128 bits, or
    /// valuing them fails before summing: the inputs `query_total_value`
    /// accepts.
    pub fn total_value_fits(&self, coins: &[Coin], prices: &[Result<Decimal256, String>]) -> (b: bool)
        requires
            prices@.len() == coins@.len(),
        ensures
            b == (values_of(coins@, prices@, coins@.len() as nat) is Ok ==> sum_u128(values_of(coins@, prices@, coins@.len() as nat)->Ok_0) <= u128_max()),
    {
        let n = coins.len();
        let mut values: Vec<u128> = Vec::new();
        let mut i: usize = 0;
        while i < n
            invariant
                n == coins@.len(),
                prices@.len() == n,
                0 <= i <= n,
                values_of(coins@, prices@, i as nat) == Ok::<Seq<u128>, ContractError>(values@),
            decreases n - i,
        {
            let price = match &prices[i] {
                Ok(p) => *p,
                Err(_) => {
                    proof {
                        lemma_values_stuck(coins@, prices@, (i + 1) as nat, n as nat);
                    }
                    return true;
                },
            };
            let value = match coins[i].amount.mul_decimal(price) {
                Ok(v) => v,
                Err(_) => {
                    proof {
                        lemma_values_stuck(coins@, prices@, (i + 1) as nat, n as nat);
                    }
                    return true;
                },
            };
            values.push(value);
            i = i + 1;
        }
        let mut total: u128 = 0;
        let mut k: usize = 0;
        assert(values@.take(0) =~= Seq::<u128>::empty());
        while k < values.len()
            invariant
                0 <= k <= values@.len(),
                values_of(coins@, prices@, coins@.len() as nat) == Ok::<Seq<u128>, ContractError>(values@),
                total == sum_u128(values@.take(k as int)),
            decreases values@.len() - k,
        {
            assert(values@.take(k + 1).drop_last() =~= values@.take(k as int));
            assert(values@.take(k + 1).last() == values@[k as int]);
            match total.checked_add(values[k]) {
                Some(t) => {
                    total = t;
                },
                None => {
                    proof {
                        lemma_sum_prefix(values@.take(k + 1), values@);
                    }
                    return false;
                },
            }
            k = k + 1;
        }
        assert(values@.take(values@.len() as int) =~= values@);
        true
    }
}

/// The risk parameters of a vault.
#[derive(Clone, Debug, PartialEq, Eq)]
pub struct VaultConfig {
    pub deposit_cap: Coin256,
    pub max_ltv: Decimal256,
    pub liquidation_threshold: Decimal256,
    pub whitelisted: bool,
}

impl VaultConfig {
    /// A configuration is valid when the max LTV and the liquidation
    /// threshold are each at most one, and the max LTV is at most the
    /// liquidation threshold.
    pub fn check(&self) -> (r: Result<(), ContractError>)
        ensures
            (self.max_ltv@ <= decimal_fractional() && self.liquidation_threshold@ <= decimal_fractional() && self.max_ltv@ <= self.liquidation_threshold@) ==> r is Ok,
            !(self.max_ltv@ <= decimal_fractional() && self.liquidation_threshold@ <= decimal_fractional() && self.max_ltv@ <= self.liquidation_threshold@) ==> r is Err && (r->Err_0 matches ContractError::InvalidConfig { reason } && reason@ == "max ltv or liquidation threshold are invalid"@),
    {
        let one = Decimal256::one();
        let max_ltv_too_big = one.lt(&self.max_ltv);
        let lqt_too_big = one.lt(&self.liquidation_threshold);
        let max_ltv_bigger_than_lqt = self.liquidation_threshold.lt(&self.max_ltv);
        if max_ltv_too_big || lqt_too_big || max_ltv_bigger_than_lqt {
            return Err(ContractError::InvalidConfig { reason: text("max ltv or liquidation threshold are invalid") });
        }
        Ok(())
    }
}

/// A vault and its configuration, as given at instantiation.
#[derive(Clone, Debug, PartialEq, Eq)]
pub struct VaultInstantiateConfig {
    pub vault: VaultUnchecked,
    pub config: VaultConfig,
}

/// The description of one vault configuration.
pub open spec fn vault_config_text(v: VaultInstantiateConfig) -> Seq<char> {
    "addr: "@ + v.vault.0@
        + ", deposit_cap: "@ + decimal_text(v.config.deposit_cap.amount@) + v.config.deposit_cap.denom@
        + ", max_ltv: "@ + decimal256_text(v.config.max_ltv@)
        + ", liquidation_threshold: "@ + decimal256_text(v.config.liquidation_threshold@)
        + ", whitelisted: "@ + bool_text(v.config.whitelisted)
}

fn vault_config_to_string(v: &VaultInstantiateConfig) -> (r: String)
    ensures
        r@ == vault_config_text(*v),
{
    let mut r = String::from_str("addr: ");
    r.append(v.vault.0.as_str());
    r.append(", deposit_cap: ");
    r.append(v.config.deposit_cap.to_string().as_str());
    r.append(", max_ltv: ");
    r.append(v.config.max_ltv.to_string().as_str());
    r.append(", liquidation_threshold: ");
    r.append(v.config.liquidation_threshold.to_string().as_str());
    r.append(", whitelisted: ");
    r.append(bool_to_string(v.config.whitelisted).as_str());
    r
}

impl Stringify for Vec<VaultInstantiateConfig> {
    /// The descriptions of the configurations, separated by " :: ".
    fn to_string(&self) -> (r: String)
        ensures
            r@ == joined(self@.map_values(|v: VaultInstantiateConfig| vault_config_text(v)), " :: "@),
    {
        let mut parts: Vec<String> = Vec::new();
        let mut i: usize = 0;
        while i < self.len()
            invariant
                0 <= i <= self@.len(),
                parts@.len() == i,
                forall|k: int| 0 <= k < i ==> #[trigger] parts@[k]@ == vault_config_text(self@[k]),
            decreases self@.len() - i,
        {
            parts.push(vault_config_to_string(&self[i]));
            i = i + 1;
        }
        assert(parts@.map_values(|p: String| p@) =~= self@.map_values(|v: VaultInstantiateConfig| vault_config_text(v)));
        join(&parts, " :: ")
    }
}

/// A vault position: shares free to withdraw, shares locked, and unlocking positions.
#[derive(Clone, Debug, PartialEq, Eq)]
pub struct VaultPosition {
    pub unlocked: u128,
    pub locked: u128,
    pub unlocking: Vec<VaultUnlockingId>,
}

/// An unlocking position in a vault.
#[derive(Clone, Copy, Debug, PartialEq, Eq)]
pub struct VaultUnlockingId {
    /// Unique identifier representing the unlocking position.
    pub id: u128,
    /// Number of vault tokens
    pub amount: u128,
}

/// A list of denominations.
pub trait Denoms {
    fn to_denoms(&self) -> Vec<String>;
}

/// A list of coins.
pub trait Coins {
    fn to_coins(&self) -> Vec<Coin>;
}


/// A number of vault tokens.
#[derive(Clone, Copy, Debug, PartialEq, Eq)]
pub struct VaultAmount(pub Uint256);

impl VaultAmount {
    pub fn new(amount: Uint256) -> (r: VaultAmount)
        ensures
            r.0 == amount,
    {
        VaultAmount(amount)
    }
}

/// A position being unlocked in a vault.
#[derive(Clone, Debug, PartialEq, Eq)]
pub struct VaultUnlockingPosition {
    pub id: u64,
    pub coin: Coin256,
}

/// The positions being unlocked in a vault.
#[derive(Clone, Debug, PartialEq, Eq)]
pub struct UnlockingPositions(pub Vec<VaultUnlockingPosition>);

impl UnlockingPositions {
    pub fn new(positions: Vec<VaultUnlockingPosition>) -> (r: UnlockingPositions)
        ensures
            r.0 == positions,
    {
        UnlockingPositions(positions)
    }
}

/// The vault tokens of a vault with a lockup: locked, and being unlocked.
#[derive(Clone, Debug, PartialEq, Eq)]
pub struct LockingVaultAmount {
    pub locked: VaultAmount,
    pub unlocking: UnlockingPositions,
}

/// The vault tokens an account holds in a vault.
#[derive(Clone, Debug, PartialEq, Eq)]
pub enum VaultPositionAmount {
    Unlocked(VaultAmount),
    Locking(LockingVaultAmount),
}

/// A change of an amount of vault tokens.
#[derive(Clone, Copy, Debug, PartialEq, Eq)]
pub enum UpdateType {
    Increment(Uint256),
    Decrement(Uint256),
}

/// A change of the positions being unlocked.
#[derive(Clone, Debug, PartialEq, Eq)]
pub enum UnlockingChange {
    Add(VaultUnlockingPosition),
    Decrement { id: u64, amount: Uint256 },
}

/// A change of a vault position.
#[derive(Clone, Debug, PartialEq, Eq)]
pub enum VaultPositionUpdate {
    Unlocked(UpdateType),
    Locked(UpdateType),
    Unlocking(UnlockingChange),
}

impl VaultPositionUpdate {
    /// The empty position an update applies to when the account has none
    /// yet: no unlocked tokens for an update of unlocked tokens, otherwise
    /// nothing locked and nothing being unlocked.
    pub fn default_amount(&self) -> (r: VaultPositionAmount)
        ensures
            *self is Unlocked ==> (r matches VaultPositionAmount::Unlocked(a) && a.0@ == 0),
            !(*self is Unlocked) ==> (r matches VaultPositionAmount::Locking(l) && l.locked.0@ == 0 && l.unlocking.0@.len() == 0),
    {
        match self {
            VaultPositionUpdate::Unlocked(_) => VaultPositionAmount::Unlocked(VaultAmount::new(Uint256::zero())),
            _ => VaultPositionAmount::Locking(LockingVaultAmount {
                locked: VaultAmount::new(Uint256::zero()),
                unlocking: UnlockingPositions::new(Vec::new()),
            }),
        }
    }
}

} // verus!
