//! The decisions of the zapper contracts: which coins were sent, who may call
//! back, what is returned to the recipient, which pool an LP token belongs to.

use cosmwasm_std::{Coin as CwCoin, StdError as CwStdError, StdResult};
use cw_asset::AssetList;
use vstd::prelude::*;
use vstd::string::{StrSliceExecFns, StringExecFns};

use crate::attribute::{attr, text, Attribute};
use crate::coin::Coin;
use crate::error::StdError;
use crate::format::decimal_text;
use crate::reply::parsed_uint;
use crate::text::joined;

verus! {

/// Why the coins sent with a message were not accepted.
#[derive(Clone, Debug, PartialEq, Eq)]
pub enum PaymentError {
    MissingDenom(String),
    ExtraDenom(String),
    MultipleDenoms {},
    NoFunds {},
    NonPayable {},
}

/// Why a zapper operation failed.
#[derive(Clone, Debug, PartialEq, Eq)]
pub enum ContractError {
    Std(StdError),
    /// A subtraction went below zero.
    Overflow,
    PaymentError(PaymentError),
    /// The decentralized exchange refused.
    CwDexError(DexError),
    Unauthorized {},
    InsufficientLpTokens { expected: u128, received: u128 },
}

/// Why no pool could be found for an LP token.
#[derive(Clone, Debug, PartialEq, Eq)]
pub enum DexError {
    NotLpToken {},
    Std(StdError),
}

/// The kind of an asset: a native coin, a CW20 token, or a CW1155 token.
#[derive(Clone, Debug, PartialEq, Eq)]
pub enum AssetInfo {
    Native(String),
    Cw20(String),
    Cw1155(String, String),
}

/// An amount of an asset.
#[derive(Clone, Debug, PartialEq, Eq)]
pub struct Asset {
    pub info: AssetInfo,
    pub amount: u128,
}

/// Exactly one coin, of a non-zero amount, must have been sent.
pub fn one_coin(funds: &Vec<Coin>) -> (r: Result<Coin, PaymentError>)
    ensures
        funds@.len() == 0 ==> r == Err::<Coin, PaymentError>(PaymentError::NoFunds {}),
        funds@.len() == 1 && funds@[0].amount == 0 ==> r == Err::<Coin, PaymentError>(PaymentError::NoFunds {}),
        funds@.len() == 1 && funds@[0].amount != 0 ==> r is Ok && r->Ok_0.amount == funds@[0].amount && r->Ok_0.denom@ == funds@[0].denom@,
        funds@.len() > 1 ==> r == Err::<Coin, PaymentError>(PaymentError::MultipleDenoms {}),
{
    if funds.len() == 0 {
        Err(PaymentError::NoFunds {})
    } else if funds.len() == 1 {
        let coin = &funds[0];
        if coin.amount == 0 {
            Err(PaymentError::NoFunds {})
        } else {
            Ok(Coin { denom: coin.denom.clone(), amount: coin.amount })
        }
    } else {
        Err(PaymentError::MultipleDenoms {})
    }
}

/// Callbacks can only be called by the contract itself.
pub fn authorize_callback(sender: &String, contract_address: &String) -> (r: Result<(), ContractError>)
    ensures
        sender@ == contract_address@ ==> r is Ok,
        sender@ != contract_address@ ==> r == Err::<(), ContractError>(ContractError::Unauthorized {}),
{
    if *sender != *contract_address {
        Err(ContractError::Unauthorized {})
    } else {
        Ok(())
    }
}

/// Exactly one coin must be sent to withdraw liquidity; it is the LP token.
pub fn withdraw_liquidity_lp_token(funds: &Vec<Coin>) -> (r: Result<Asset, StdError>)
    ensures
        funds@.len() != 1 ==> r is Err && (r->Err_0 matches StdError::GenericErr { msg } && msg@ == "More than one coin sent to Withdraw Liquidity"@),
        funds@.len() == 1 ==> r is Ok && r->Ok_0.amount == funds@[0].amount && (r->Ok_0.info matches AssetInfo::Native(d) && d@ == funds@[0].denom@),
{
    if funds.len() != 1 {
        return Err(StdError::GenericErr { msg: text("More than one coin sent to Withdraw Liquidity") });
    }
    Ok(Asset { info: AssetInfo::Native(funds[0].denom.clone()), amount: funds[0].amount })
}

/// The LP tokens to hand back after providing liquidity.
#[derive(Clone, Debug, PartialEq, Eq)]
pub struct ReturnTokens {
    pub recipient: String,
    pub coin: Coin,
}

/// The LP tokens received since `balance_before` was taken go to the
/// recipient; fewer than `minimum_receive` is an error.
pub fn execute_return_tokens(balance_before: &Coin, balance_after: u128, recipient: &String, minimum_receive: u128) -> (r: Result<ReturnTokens, ContractError>)
    ensures
        balance_after < balance_before.amount ==> r == Err::<ReturnTokens, ContractError>(ContractError::Overflow),
        balance_after >= balance_before.amount && balance_after - balance_before.amount < minimum_receive ==> r == Err::<ReturnTokens, ContractError>(ContractError::InsufficientLpTokens { expected: minimum_receive, received: (balance_after - balance_before.amount) as u128 }),
        balance_after >= balance_before.amount && balance_after - balance_before.amount >= minimum_receive ==> r is Ok && r->Ok_0.recipient@ == recipient@ && r->Ok_0.coin.denom@ == balance_before.denom@ && r->Ok_0.coin.amount == balance_after - balance_before.amount,
{
    let return_amount = match balance_after.checked_sub(balance_before.amount) {
        Some(a) => a,
        None => {
            return Err(ContractError::Overflow);
        },
    };
    if return_amount < minimum_receive {
        return Err(ContractError::InsufficientLpTokens { expected: minimum_receive, received: return_amount });
    }
    Ok(ReturnTokens { recipient: recipient.clone(), coin: Coin { denom: balance_before.denom.clone(), amount: return_amount } })
}

/// The asset received since `balance_before` was taken, all of which goes to
/// the recipient.
pub fn return_asset(balance_before: &Asset, balance_after: u128) -> (r: Result<Asset, ContractError>)
    ensures
        balance_after < balance_before.amount ==> r == Err::<Asset, ContractError>(ContractError::Overflow),
        balance_after >= balance_before.amount ==> r is Ok && r->Ok_0.info == balance_before.info && r->Ok_0.amount == balance_after - balance_before.amount,
{
    match balance_after.checked_sub(balance_before.amount) {
        Some(amount) => Ok(Asset { info: copy_info(&balance_before.info), amount }),
        None => Err(ContractError::Overflow),
    }
}

/// The same asset kind.
fn copy_info(info: &AssetInfo) -> (r: AssetInfo)
    ensures
        r == *info,
{
    match info {
        AssetInfo::Native(d) => AssetInfo::Native(d.clone()),
        AssetInfo::Cw20(a) => AssetInfo::Cw20(a.clone()),
        AssetInfo::Cw1155(a, id) => AssetInfo::Cw1155(a.clone(), id.clone()),
    }
}

/// The native coins among a list of assets, in order.
pub open spec fn native_coins(assets: Seq<Asset>) -> Seq<(Seq<char>, u128)>
    decreases assets.len(),
{
    if assets.len() == 0 {
        Seq::empty()
    } else {
        let rest = native_coins(assets.drop_last());
        match assets.last().info {
            AssetInfo::Native(d) => rest.push((d@, assets.last().amount)),
            _ => rest,
        }
    }
}

/// The native coins among the assets a withdrawal would return; other assets
/// are left out.
pub fn query_estimate_withdraw_liquidity(assets_returned: &Vec<Asset>) -> (r: Vec<Coin>)
    ensures
        r@.len() == native_coins(assets_returned@).len(),
        forall|k: int| 0 <= k < r@.len() ==> #[trigger] r@[k].denom@ == native_coins(assets_returned@)[k].0 && r@[k].amount == native_coins(assets_returned@)[k].1,
{
    let mut r: Vec<Coin> = Vec::new();
    let mut i: usize = 0;
    assert(assets_returned@.take(0) =~= Seq::<Asset>::empty());
    while i < assets_returned.len()
        invariant
            0 <= i <= assets_returned@.len(),
            r@.len() == native_coins(assets_returned@.take(i as int)).len(),
            forall|k: int| 0 <= k < r@.len() ==> #[trigger] r@[k].denom@ == native_coins(assets_returned@.take(i as int))[k].0 && r@[k].amount == native_coins(assets_returned@.take(i as int))[k].1,
        decreases assets_returned@.len() - i,
    {
        assert(assets_returned@.take(i + 1).drop_last() =~= assets_returned@.take(i as int));
        let a = &assets_returned[i];
        assert(assets_returned@.take(i + 1).last() == *a);
        match &a.info {
            AssetInfo::Native(token) => {
                r.push(Coin { denom: token.clone(), amount: a.amount });
            },
            _ => {},
        }
        i = i + 1;
    }
    assert(assets_returned@.take(assets_returned@.len() as int) =~= assets_returned@);
    r
}

/// A list of coins as pairs of denomination and amount.
pub open spec fn coin_pairs(coins: Seq<Coin>) -> Seq<(Seq<char>, u128)> {
    coins.map_values(|c: Coin| (c.denom@, c.amount))
}

/// The pairs of a list that hold something, in order.
pub open spec fn nonzero_pairs(ps: Seq<(Seq<char>, u128)>) -> Seq<(Seq<char>, u128)>
    decreases ps.len(),
{
    if ps.len() == 0 {
        Seq::empty()
    } else {
        let rest = nonzero_pairs(ps.drop_last());
        if ps.last().1 > 0 {
            rest.push(ps.last())
        } else {
            rest
        }
    }
}

/// The pairs of the first `i + 1` coins extend those of the first `i`.
proof fn lemma_coin_pairs_step(coins: Seq<Coin>, i: int)
    requires
        0 <= i < coins.len(),
    ensures
        coin_pairs(coins.take(i + 1)).drop_last() == coin_pairs(coins.take(i)),
        coin_pairs(coins.take(i + 1)).last() == (coins[i].denom@, coins[i].amount),
        coin_pairs(coins.take(i + 1)).len() == i + 1,
{
    assert(coin_pairs(coins.take(i + 1)).drop_last() =~= coin_pairs(coins.take(i)));
}

/// The coins left over after a double-sided join that still hold something:
/// each is joined on its own afterwards.
pub fn single_sided_joins(remaining: &Vec<Coin>) -> (r: Vec<Coin>)
    ensures
        coin_pairs(r@) == nonzero_pairs(coin_pairs(remaining@)),
{
    let mut r: Vec<Coin> = Vec::new();
    let mut i: usize = 0;
    assert(coin_pairs(remaining@.take(0)) =~= Seq::<(Seq<char>, u128)>::empty());
    while i < remaining.len()
        invariant
            0 <= i <= remaining@.len(),
            coin_pairs(r@) == nonzero_pairs(coin_pairs(remaining@.take(i as int))),
        decreases remaining@.len() - i,
    {
        proof {
            lemma_coin_pairs_step(remaining@, i as int);
        }
        let c = &remaining[i];
        if c.amount > 0 {
            let ghost before = r@;
            r.push(Coin { denom: c.denom.clone(), amount: c.amount });
            assert(coin_pairs(r@) =~= coin_pairs(before).push((c.denom@, c.amount)));
        }
        i = i + 1;
    }
    assert(remaining@.take(remaining@.len() as int) =~= remaining@);
    r
}

/// How a native asset is written: "native:{denom}:{amount}".
pub open spec fn native_asset_text(p: (Seq<char>, u128)) -> Seq<char> {
    "native:"@ + p.0 + ":"@ + decimal_text(p.1 as nat)
}

/// How a list of native assets is written: "[]" when it is empty, otherwise
/// the assets separated by ",".
pub open spec fn asset_list_text(ps: Seq<(Seq<char>, u128)>) -> Seq<char> {
    if ps.len() == 0 {
        "[]"@
    } else {
        joined(ps.map_values(|p: (Seq<char>, u128)| native_asset_text(p)), ","@)
    }
}

/// `<cw_asset::AssetList as Display>` on a list of native coins: each asset
/// as "native:{denom}:{amount}", separated by ",", or "[]" for no asset.
#[verifier::external_body]
fn cw_asset_list_to_string(coins: &Vec<Coin>) -> (r: String)
    ensures
        r@ == asset_list_text(coin_pairs(coins@)),
{
    let coins: Vec<CwCoin> = coins.iter().map(|c| CwCoin::new(c.amount, c.denom.clone())).collect();
    AssetList::from(coins).to_string()
}

/// The index of the first pair of denomination `d`.
pub open spec fn first_of_denom(ps: Seq<(Seq<char>, u128)>, d: Seq<char>) -> Option<int>
    decreases ps.len(),
{
    if ps.len() == 0 {
        None
    } else {
        match first_of_denom(ps.drop_last(), d) {
            Some(k) => Some(k),
            None => if ps.last().0 == d {
                Some(ps.len() - 1)
            } else {
                None
            },
        }
    }
}

/// The message of a deduction from an asset that holds too little.
pub open spec fn sub_overflow_text(have: u128, want: u128) -> Seq<char> {
    "Overflow: Cannot Sub with "@ + decimal_text(have as nat) + " and "@ + decimal_text(want as nat)
}

/// One asset deducted from a list of native assets: taken from the first
/// asset of its denomination, after which every asset that holds nothing is
/// dropped; an error naming the asset when there is no such asset, or naming
/// both amounts when it holds too little.
pub open spec fn asset_deducted(ps: Seq<(Seq<char>, u128)>, a: (Seq<char>, u128)) -> Result<Seq<(Seq<char>, u128)>, Seq<char>> {
    match first_of_denom(ps, a.0) {
        None => Err("not found in asset list: native:"@ + a.0),
        Some(k) => if ps[k].1 < a.1 {
            Err(sub_overflow_text(ps[k].1, a.1))
        } else {
            Ok(nonzero_pairs(ps.update(k, (ps[k].0, (ps[k].1 - a.1) as u128))))
        },
    }
}

/// The assets of `used` deducted in turn from a list of native assets, or
/// the error of the first deduction that fails. Nothing deducted leaves the
/// list as it is.
pub open spec fn asset_list_deducted(ps: Seq<(Seq<char>, u128)>, used: Seq<(Seq<char>, u128)>) -> Result<Seq<(Seq<char>, u128)>, Seq<char>>
    decreases used.len(),
{
    if used.len() == 0 {
        Ok(ps)
    } else {
        match asset_list_deducted(ps, used.drop_last()) {
            Err(m) => Err(m),
            Ok(left) => asset_deducted(left, used.last()),
        }
    }
}

/// `cw_asset::AssetList::deduct_many` on lists of native coins: each used
/// asset in turn is taken from the first asset of its denomination with a
/// checked subtraction, and then every asset that holds nothing is dropped.
/// An asset that is missing is a generic error "not found in asset list:
/// native:{denom}"; one that holds too little is the overflow error of the
/// subtraction, "Overflow: Cannot Sub with {held} and {deducted}".
#[verifier::external_body]
fn cw_asset_deduct_many(list: &Vec<Coin>, used: &Vec<Coin>) -> (r: Result<Vec<Coin>, StdError>)
    ensures
        r is Ok <==> asset_list_deducted(coin_pairs(list@), coin_pairs(used@)) is Ok,
        r is Ok ==> coin_pairs(r->Ok_0@) == asset_list_deducted(coin_pairs(list@), coin_pairs(used@))->Ok_0,
        r is Err ==> (r->Err_0 matches StdError::GenericErr { msg } && msg@ == asset_list_deducted(coin_pairs(list@), coin_pairs(used@))->Err_0),
{
    let cw = |v: &Vec<Coin>| AssetList::from(v.iter().map(|c| CwCoin::new(c.amount, &c.denom)).collect::<Vec<_>>());
    let left: StdResult<Vec<CwCoin>> = cw(list).deduct_many(&cw(used)).and_then(|l| l.to_vec().into_iter().map(CwCoin::try_from).collect());
    match left {
        Ok(v) => Ok(v.into_iter().map(|c| Coin { denom: c.denom, amount: c.amount.u128() }).collect()),
        Err(CwStdError::GenericErr { msg, .. }) => Err(StdError::GenericErr { msg }),
        Err(e) => Err(StdError::GenericErr { msg: e.to_string() }),
    }
}

/// The pool id of an Osmosis LP token "gamm/pool/{id}", when the rest of the
/// denomination is a `u64`.
pub open spec fn lp_pool_id(denom: Seq<char>) -> Option<nat> {
    if denom.len() >= 10 && denom.take(10) == "gamm/pool/"@ {
        parsed_uint(denom.skip(10), u64::MAX as nat)
    } else {
        None
    }
}

/// `<u64 as FromStr>::from_str`: the value of an optional `+` and decimal
/// digits when it fits in 64 bits, an error otherwise.
#[verifier::external_body]
fn parse_u64(s: &str) -> (r: Option<u64>)
    ensures
        parsed_uint(s@, u64::MAX as nat) is Some ==> r is Some && r->0 == parsed_uint(s@, u64::MAX as nat)->0,
        parsed_uint(s@, u64::MAX as nat) is None ==> r is None,
{
    <u64 as std::str::FromStr>::from_str(s).ok()
}

/// Osmosis LP pools.
pub struct OsmosisLpPool {}

impl OsmosisLpPool {
    /// The id of the pool whose LP token is `lp_token_denom`: the only pools
    /// with native LP tokens are Osmosis pools, "gamm/pool/{id}".
    pub fn get_pool_for_lp_token(lp_token_denom: &str) -> (r: Result<u64, DexError>)
        ensures
            lp_pool_id(lp_token_denom@) is Some ==> r is Ok && r->Ok_0 == lp_pool_id(lp_token_denom@)->0,
            lp_pool_id(lp_token_denom@) is None ==> r == Err::<u64, DexError>(DexError::NotLpToken {}),
    {
        proof {
            reveal_strlit("gamm/pool/");
        }
        let n = lp_token_denom.unicode_len();
        if n < 10 {
            return Err(DexError::NotLpToken {});
        }
        let head = lp_token_denom.substring_char(0, 10);
        if String::from_str(head) != String::from_str("gamm/pool/") {
            return Err(DexError::NotLpToken {});
        }
        assert(lp_token_denom@.take(10) =~= head@);
        let rest = lp_token_denom.substring_char(10, n);
        assert(rest@ =~= lp_token_denom@.skip(10));
        match parse_u64(rest) {
            Some(id) => Ok(id),
            None => Err(DexError::NotLpToken {}),
        }
    }
}


/// Messages the zapper executes.
#[derive(Clone, Debug, PartialEq, Eq)]
pub enum ExecuteMsg {
    ProvideLiquidity { lp_token_out: String, recipient: Option<String>, minimum_receive: u128 },
    WithdrawLiquidity { recipient: Option<String> },
    Callback(CallbackMsg),
}

/// Messages the zapper sends to itself.
#[derive(Clone, Debug, PartialEq, Eq)]
pub enum CallbackMsg {
    /// Provide liquidity with a single coin.
    SingleSidedJoin { lp_token_out: String, coin_in: Coin },
    /// Hand the LP tokens received since `balance_before` to the recipient.
    ReturnLpTokens { balance_before: Coin, recipient: String, minimum_receive: u128 },
}

/// The handler a message is given to.
#[derive(Clone, Debug, PartialEq, Eq)]
pub enum ZapperAction {
    ProvideLiquidity { lp_token_out: String, recipient: Option<String>, minimum_receive: u128 },
    WithdrawLiquidity { recipient: Option<String> },
    SingleSidedJoin { lp_token_out: String, coin_in: Coin },
    ReturnLpTokens { balance_before: Coin, recipient: String, minimum_receive: u128 },
}

/// The zapper's entry point, common to every kind of pool.
pub struct ZapperBase {}

impl ZapperBase {
    /// Chooses the handler of `msg`, sent by `sender` to the zapper at
    /// `contract_address`. Callbacks can only be called by the contract itself.
    pub fn execute(&self, sender: &String, contract_address: &String, msg: ExecuteMsg) -> (r: Result<ZapperAction, ContractError>)
        ensures
            msg matches ExecuteMsg::ProvideLiquidity { lp_token_out, recipient, minimum_receive }
                ==> r == Ok::<ZapperAction, ContractError>(ZapperAction::ProvideLiquidity { lp_token_out, recipient, minimum_receive }),
            msg matches ExecuteMsg::WithdrawLiquidity { recipient }
                ==> r == Ok::<ZapperAction, ContractError>(ZapperAction::WithdrawLiquidity { recipient }),
            msg is Callback && sender@ != contract_address@ ==> r == Err::<ZapperAction, ContractError>(ContractError::Unauthorized {}),
            sender@ == contract_address@ ==> (msg matches ExecuteMsg::Callback(CallbackMsg::SingleSidedJoin { lp_token_out, coin_in })
                ==> r == Ok::<ZapperAction, ContractError>(ZapperAction::SingleSidedJoin { lp_token_out, coin_in })),
            sender@ == contract_address@ ==> (msg matches ExecuteMsg::Callback(CallbackMsg::ReturnLpTokens { balance_before, recipient, minimum_receive })
                ==> r == Ok::<ZapperAction, ContractError>(ZapperAction::ReturnLpTokens { balance_before, recipient, minimum_receive })),
    {
        match msg {
            ExecuteMsg::ProvideLiquidity { lp_token_out, recipient, minimum_receive } => {
                Ok(ZapperAction::ProvideLiquidity { lp_token_out, recipient, minimum_receive })
            },
            ExecuteMsg::WithdrawLiquidity { recipient } => Ok(ZapperAction::WithdrawLiquidity { recipient }),
            ExecuteMsg::Callback(callback) => {
                authorize_callback(sender, contract_address)?;
                match callback {
                    CallbackMsg::SingleSidedJoin { lp_token_out, coin_in } => {
                        Ok(ZapperAction::SingleSidedJoin { lp_token_out, coin_in })
                    },
                    CallbackMsg::ReturnLpTokens { balance_before, recipient, minimum_receive } => {
                        Ok(ZapperAction::ReturnLpTokens { balance_before, recipient, minimum_receive })
                    },
                }
            },
        }
    }
}


/// The first decisions of providing liquidity to an Osmosis pool.
#[derive(Clone, Debug, PartialEq, Eq)]
pub struct ProvideLiquidityPlan {
    /// The pool the LP token belongs to.
    pub pool_id: u64,
    /// Whether the funds go in at once: exactly one coin was sent.
    pub single_sided: bool,
    /// The attributes of the event: the assets sent and the action.
    pub attributes: Vec<Attribute>,
}

/// The action a provision of liquidity reports.
pub open spec fn provide_action_text(single_sided: bool) -> Seq<char> {
    if single_sided {
        "single_sided_provide_liquidity"@
    } else {
        "double_sided_provide_liquidity"@
    }
}

impl OsmosisLpPool {
    /// Providing liquidity for `lp_token_out` with `funds`: the pool it
    /// belongs to, and whether the funds go in at once (a single coin) or as
    /// much as possible double-sided first, the rest coin by coin.
    pub fn execute_provide_liquidity(lp_token_out: &str, funds: &Vec<Coin>) -> (r: Result<ProvideLiquidityPlan, ContractError>)
        ensures
            lp_pool_id(lp_token_out@) is None ==> r == Err::<ProvideLiquidityPlan, ContractError>(ContractError::CwDexError(DexError::NotLpToken {})),
            lp_pool_id(lp_token_out@) is Some ==> r is Ok
                && r->Ok_0.pool_id == lp_pool_id(lp_token_out@)->0
                && r->Ok_0.single_sided == (funds@.len() == 1)
                && r->Ok_0.attributes@.len() == 2
                && r->Ok_0.attributes@[0].key@ == "assets"@
                && r->Ok_0.attributes@[0].value@ == asset_list_text(coin_pairs(funds@))
                && r->Ok_0.attributes@[1].key@ == "action"@
                && r->Ok_0.attributes@[1].value@ == provide_action_text(funds@.len() == 1),
    {
        let pool_id = match Self::get_pool_for_lp_token(lp_token_out) {
            Ok(id) => id,
            Err(e) => {
                return Err(ContractError::CwDexError(e));
            },
        };
        let mut attributes: Vec<Attribute> = Vec::new();
        attributes.push(attr("assets", cw_asset_list_to_string(funds)));
        let single_sided = funds.len() == 1;
        if single_sided {
            attributes.push(attr("action", text("single_sided_provide_liquidity")));
        } else {
            attributes.push(attr("action", text("double_sided_provide_liquidity")));
        }
        Ok(ProvideLiquidityPlan { pool_id, single_sided, attributes })
    }

    /// After a double-sided join used `tokens_used` of `funds`, the coins to
    /// join one by one: what is left of each coin, those that hold something;
    /// or the error of the first deduction that fails.
    pub fn single_sided_remainders(funds: &Vec<Coin>, tokens_used: &Vec<Coin>) -> (r: Result<Vec<Coin>, ContractError>)
        ensures
            asset_list_deducted(coin_pairs(funds@), coin_pairs(tokens_used@)) is Err ==> r is Err
                && (r->Err_0 matches ContractError::Std(StdError::GenericErr { msg })
                && msg@ == asset_list_deducted(coin_pairs(funds@), coin_pairs(tokens_used@))->Err_0),
            asset_list_deducted(coin_pairs(funds@), coin_pairs(tokens_used@)) is Ok ==> r is Ok
                && coin_pairs(r->Ok_0@) == nonzero_pairs(asset_list_deducted(coin_pairs(funds@), coin_pairs(tokens_used@))->Ok_0),
    {
        match cw_asset_deduct_many(funds, tokens_used) {
            Ok(left) => Ok(single_sided_joins(&left)),
            Err(e) => Err(ContractError::Std(e)),
        }
    }

    /// Joining the pool of `lp_token_out` with one coin: the pool, and the
    /// event attribute naming the coin.
    pub fn execute_callback_single_sided_join(lp_token_out: &str, coin_in: &Coin) -> (r: Result<(u64, Attribute), ContractError>)
        ensures
            lp_pool_id(lp_token_out@) is None ==> r == Err::<(u64, Attribute), ContractError>(ContractError::CwDexError(DexError::NotLpToken {})),
            lp_pool_id(lp_token_out@) is Some ==> r is Ok
                && r->Ok_0.0 == lp_pool_id(lp_token_out@)->0
                && r->Ok_0.1.key@ == "coin_in"@
                && r->Ok_0.1.value@ == decimal_text(coin_in.amount as nat) + coin_in.denom@,
    {
        match Self::get_pool_for_lp_token(lp_token_out) {
            Ok(id) => Ok((id, attr("coin_in", coin_in.to_string()))),
            Err(e) => Err(ContractError::CwDexError(e)),
        }
    }
}

impl ReturnTokens {
    /// The attributes of the event: the coin returned and its recipient.
    pub fn attributes(&self) -> (r: Vec<Attribute>)
        ensures
            r@.len() == 2,
            r@[0].key@ == "coin_returned"@,
            r@[0].value@ == decimal_text(self.coin.amount as nat) + self.coin.denom@,
            r@[1].key@ == "recipient"@,
            r@[1].value@ == self.recipient@,
    {
        let mut r: Vec<Attribute> = Vec::new();
        r.push(attr("coin_returned", self.coin.to_string()));
        r.push(attr("recipient", self.recipient.clone()));
        r
    }
}


/// Every coin kept for a single-sided join holds something, and no coin that
/// holds something is dropped: the kept coins hold all that was left.
pub proof fn lemma_joins_keep_what_holds_something(ps: Seq<(Seq<char>, u128)>)
    ensures
        forall|k: int| 0 <= k < nonzero_pairs(ps).len() ==> (#[trigger] nonzero_pairs(ps)[k]).1 > 0,
        pairs_total(nonzero_pairs(ps)) == pairs_total(ps),
    decreases ps.len(),
{
    if ps.len() > 0 {
        lemma_joins_keep_what_holds_something(ps.drop_last());
        let rest = nonzero_pairs(ps.drop_last());
        if ps.last().1 > 0 {
            assert(rest.push(ps.last()).drop_last() =~= rest);
        }
    }
}

/// The sum of the amounts of a list of pairs.
pub open spec fn pairs_total(ps: Seq<(Seq<char>, u128)>) -> nat
    decreases ps.len(),
{
    if ps.len() == 0 {
        0
    } else {
        pairs_total(ps.drop_last()) + ps.last().1 as nat
    }
}

} // verus!
