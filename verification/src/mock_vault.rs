//! The bookkeeping of a test vault with a lockup period: unlock requests,
//! withdrawing unlocked positions, forced withdrawals, and the assets a number
//! of shares is worth.

use vstd::prelude::*;

use crate::coin::Coin;
use crate::uint::u128_max;

verus! {

/// Why a vault operation failed.
#[derive(Clone, Debug, PartialEq, Eq)]
pub enum ContractError {
    Std(String),
    /// The vault has no lockup period.
    NotLockingVault {},
    /// No unlocking position with that id.
    UnlockRequired {},
    Unauthorized {},
    /// There is more time left on the lock period.
    UnlockNotReady {},
    LockupPositionNotFound(u64),
}

/// A span of blocks or of seconds.
#[derive(Clone, Copy, Debug, PartialEq, Eq)]
pub enum Duration {
    Height(u64),
    /// Time in seconds
    Time(u64),
}

/// A point at which something expires: a block height, a time in
/// nanoseconds since the epoch, or never.
#[derive(Clone, Copy, Debug, PartialEq, Eq)]
pub enum Expiration {
    AtHeight(u64),
    AtTime(u64),
    Never {},
}

/// The current block: its height and its time in nanoseconds since the epoch.
#[derive(Clone, Copy, Debug, PartialEq, Eq)]
pub struct BlockInfo {
    pub height: u64,
    pub time: u64,
}

/// Coins locked by an owner until `release_at`.
#[derive(Clone, Debug, PartialEq, Eq)]
pub struct Lockup {
    pub owner: String,
    pub id: u64,
    pub release_at: Expiration,
    pub coin: Coin,
}

/// Whether `e` has passed at `block`.
pub open spec fn expired(e: Expiration, block: BlockInfo) -> bool {
    match e {
        Expiration::AtHeight(h) => block.height >= h,
        Expiration::AtTime(t) => block.time >= t,
        Expiration::Never {} => false,
    }
}

impl Expiration {
    /// Whether this point has passed at `block`.
    pub fn is_expired(&self, block: &BlockInfo) -> (r: bool)
        ensures
            r == expired(*self, *block),
    {
        match self {
            Expiration::AtHeight(height) => block.height >= *height,
            Expiration::AtTime(time) => block.time >= *time,
            Expiration::Never {} => false,
        }
    }
}

/// The point `d` after `block`; it must fit in 64 bits (it panics otherwise).
pub open spec fn after_fits(d: Duration, block: BlockInfo) -> bool {
    match d {
        Duration::Height(h) => block.height + h <= u64::MAX,
        Duration::Time(s) => s * 1_000_000_000 <= u64::MAX && block.time + s * 1_000_000_000 <= u64::MAX,
    }
}

impl Duration {
    /// The point this span after `block`.
    pub fn after(&self, block: &BlockInfo) -> (r: Expiration)
        requires
            after_fits(*self, *block),
        ensures
            *self matches Duration::Height(h) ==> r == Expiration::AtHeight((block.height + h) as u64),
            *self matches Duration::Time(s) ==> r == Expiration::AtTime((block.time + s * 1_000_000_000) as u64),
    {
        match self {
            Duration::Height(h) => Expiration::AtHeight(block.height + *h),
            Duration::Time(t) => Expiration::AtTime(block.time + *t * 1_000_000_000),
        }
    }
}

/// The same lockup.
fn copy_lockup(l: &Lockup) -> (r: Lockup)
    ensures
        r == *l,
{
    Lockup {
        owner: l.owner.clone(),
        id: l.id,
        release_at: l.release_at,
        coin: Coin { denom: l.coin.denom.clone(), amount: l.coin.amount },
    }
}

/// The index of the first lockup with the given id.
pub open spec fn first_with_id(ls: Seq<Lockup>, id: u64) -> Option<int>
    decreases ls.len(),
{
    if ls.len() == 0 {
        None
    } else {
        match first_with_id(ls.drop_last(), id) {
            Some(k) => Some(k),
            None => if ls.last().id == id {
                Some(ls.len() - 1)
            } else {
                None
            },
        }
    }
}

proof fn lemma_first_with_id_extends(ls: Seq<Lockup>, i: int, id: u64)
    requires
        0 <= i <= ls.len(),
        first_with_id(ls.take(i), id) is Some,
    ensures
        first_with_id(ls, id) == first_with_id(ls.take(i), id),
    decreases ls.len() - i,
{
    if i < ls.len() {
        assert(ls.take(i + 1).drop_last() =~= ls.take(i));
        lemma_first_with_id_extends(ls, i + 1, id);
    } else {
        assert(ls.take(i) =~= ls);
    }
}

proof fn lemma_first_with_id_found(ls: Seq<Lockup>, id: u64)
    requires
        first_with_id(ls, id) is Some,
    ensures
        0 <= first_with_id(ls, id)->0 < ls.len(),
        ls[first_with_id(ls, id)->0].id == id,
    decreases ls.len(),
{
    if first_with_id(ls.drop_last(), id) is Some {
        lemma_first_with_id_found(ls.drop_last(), id);
    }
}

fn find_lockup(ls: &Vec<Lockup>, id: u64) -> (r: Option<usize>)
    ensures
        first_with_id(ls@, id) is Some ==> r is Some && r->0 as int == first_with_id(ls@, id)->0,
        first_with_id(ls@, id) is None ==> r is None,
        r is Some ==> r->0 < ls@.len() && ls@[r->0 as int].id == id,
{
    let mut k: usize = 0;
    assert(ls@.take(0) =~= Seq::<Lockup>::empty());
    while k < ls.len()
        invariant
            0 <= k <= ls@.len(),
            first_with_id(ls@.take(k as int), id) is None,
        decreases ls@.len() - k,
    {
        assert(ls@.take(k + 1).drop_last() =~= ls@.take(k as int));
        if ls[k].id == id {
            proof {
                lemma_first_with_id_extends(ls@, k + 1, id);
            }
            return Some(k);
        }
        k = k + 1;
    }
    assert(ls@.take(ls@.len() as int) =~= ls@);
    None
}

/// The lockups without any of the given id, in order.
pub open spec fn without_lockup(ls: Seq<Lockup>, id: u64) -> Seq<Lockup> {
    ls.filter(|l: Lockup| l.id != id)
}

/// The lockups without any of the given id, in order.
fn without_id(ls: &Vec<Lockup>, id: u64) -> (r: Vec<Lockup>)
    ensures
        r@ == without_lockup(ls@, id),
{
    let mut r: Vec<Lockup> = Vec::new();
    let mut k: usize = 0;
    let ghost keep = |l: Lockup| l.id != id;
    assert(ls@.take(0) =~= Seq::<Lockup>::empty());
    while k < ls.len()
        invariant
            0 <= k <= ls@.len(),
            keep == (|l: Lockup| l.id != id),
            r@ == ls@.take(k as int).filter(keep),
        decreases ls@.len() - k,
    {
        assert(ls@.take(k + 1).drop_last() =~= ls@.take(k as int));
        reveal_with_fuel(Seq::filter, 1);
        if ls[k].id != id {
            r.push(copy_lockup(&ls[k]));
        }
        k = k + 1;
    }
    assert(ls@.take(ls@.len() as int) =~= ls@);
    r
}

/// A transfer of coins to an address.
#[derive(Clone, Debug, PartialEq, Eq)]
pub struct BankSend {
    pub to_address: String,
    pub amount: Vec<Coin>,
}

/// Hands the coins of an expired lockup back to its owner. The sender's
/// lockups lose every entry with that id.
pub fn withdraw_unlocked(lockups: Option<Vec<Lockup>>, block: &BlockInfo, sender: &String, id: u64) -> (r: Result<(Vec<Lockup>, BankSend), ContractError>)
    ensures
        lockups is None ==> r == Err::<(Vec<Lockup>, BankSend), ContractError>(ContractError::UnlockRequired {}),
        lockups matches Some(ls) ==> {
            let k = first_with_id(ls@, id);
            &&& k is None ==> r == Err::<(Vec<Lockup>, BankSend), ContractError>(ContractError::UnlockRequired {})
            &&& k is Some && ls@[k->0].owner@ != sender@ ==> r == Err::<(Vec<Lockup>, BankSend), ContractError>(ContractError::Unauthorized {})
            &&& k is Some && ls@[k->0].owner@ == sender@ && !expired(ls@[k->0].release_at, *block) ==> r == Err::<(Vec<Lockup>, BankSend), ContractError>(ContractError::UnlockNotReady {})
            &&& k is Some && ls@[k->0].owner@ == sender@ && expired(ls@[k->0].release_at, *block) ==> r is Ok
                && r->Ok_0.0@ == without_lockup(ls@, id)
                && r->Ok_0.1.to_address@ == sender@
                && r->Ok_0.1.amount@ == seq![ls@[k->0].coin]
        },
{
    let lockups = match lockups {
        Some(ls) => ls,
        None => {
            return Err(ContractError::UnlockRequired {});
        },
    };
    let k = match find_lockup(&lockups, id) {
        Some(k) => k,
        None => {
            return Err(ContractError::UnlockRequired {});
        },
    };
    let matching_position = copy_lockup(&lockups[k]);
    if matching_position.owner != *sender {
        return Err(ContractError::Unauthorized {});
    }
    if !matching_position.release_at.is_expired(block) {
        return Err(ContractError::UnlockNotReady {});
    }
    let remaining = without_id(&lockups, id);
    let mut amount: Vec<Coin> = Vec::new();
    amount.push(matching_position.coin);
    Ok((remaining, BankSend { to_address: sender.clone(), amount }))
}

/// Withdraws from a lockup before it expires: `amount` of its coins, or all
/// of them. A partial withdrawal keeps the rest locked, moved to the end of
/// the list; the other lockups with that id are dropped. The amount must not
/// exceed what is locked (the subtraction panics otherwise).
pub fn withdraw_unlocking_force(lockups: &Vec<Lockup>, sender: &String, lockup_id: u64, amount: Option<u128>) -> (r: Result<(Vec<Lockup>, BankSend), ContractError>)
    requires
        first_with_id(lockups@, lockup_id) is Some && amount is Some ==> amount->0 <= lockups@[first_with_id(lockups@, lockup_id)->0].coin.amount,
    ensures
        first_with_id(lockups@, lockup_id) is None ==> r == Err::<(Vec<Lockup>, BankSend), ContractError>(ContractError::LockupPositionNotFound(lockup_id)),
        first_with_id(lockups@, lockup_id) is Some ==> {
            let l = lockups@[first_with_id(lockups@, lockup_id)->0];
            let kept = without_lockup(lockups@, lockup_id);
            &&& r is Ok
            &&& r->Ok_0.1.to_address@ == sender@
            &&& r->Ok_0.1.amount@.len() == 1
            &&& r->Ok_0.1.amount@[0].denom@ == l.coin.denom@
            &&& amount is None ==> r->Ok_0.0@ == kept && r->Ok_0.1.amount@[0].amount == l.coin.amount
            &&& amount is Some ==> r->Ok_0.1.amount@[0].amount == amount->0
                && r->Ok_0.0@ == kept.push(Lockup { coin: Coin { denom: l.coin.denom, amount: (l.coin.amount - amount->0) as u128 }, ..l })
        },
{
    let k = match find_lockup(lockups, lockup_id) {
        Some(k) => k,
        None => {
            return Err(ContractError::LockupPositionNotFound(lockup_id));
        },
    };
    let lockup = copy_lockup(&lockups[k]);
    let mut remaining = without_id(lockups, lockup_id);
    let amount_to_withdraw = match amount {
        Some(a) => {
            let reduced = Lockup {
                owner: lockup.owner.clone(),
                id: lockup.id,
                release_at: lockup.release_at,
                coin: Coin { denom: lockup.coin.denom.clone(), amount: lockup.coin.amount - a },
            };
            remaining.push(reduced);
            a
        },
        None => lockup.coin.amount,
    };
    let mut sent: Vec<Coin> = Vec::new();
    sent.push(Coin { denom: lockup.coin.denom, amount: amount_to_withdraw });
    Ok((remaining, BankSend { to_address: sender.clone(), amount: sent }))
}

/// What an unlock request leaves behind: the sender's lockups with the new
/// one appended, the id of the next lockup, and the event attribute naming
/// the new lockup's id.
#[derive(Clone, Debug, PartialEq, Eq)]
pub struct UnlockRequest {
    pub lockups: Vec<Lockup>,
    pub next_lockup_id: u64,
    pub lockup_id: u64,
}

/// The lockup period of a vault; a vault without one cannot lock.
pub fn lockup_duration(lockup_time: Option<Duration>) -> (r: Result<Duration, ContractError>)
    ensures
        lockup_time matches Some(d) ==> r == Ok::<Duration, ContractError>(d),
        lockup_time is None ==> r == Err::<Duration, ContractError>(ContractError::NotLockingVault {}),
{
    match lockup_time {
        Some(d) => Ok(d),
        None => Err(ContractError::NotLockingVault {}),
    }
}

/// Locks `coin` for `sender` until the lockup period has passed from `block`,
/// under the next lockup id.
pub fn request_unlock(lockups: Option<Vec<Lockup>>, lockup_duration: Duration, next_lockup_id: u64, block: &BlockInfo, sender: &String, coin: Coin) -> (r: UnlockRequest)
    requires
        after_fits(lockup_duration, *block),
        next_lockup_id < u64::MAX,
    ensures
        r.lockup_id == next_lockup_id,
        r.next_lockup_id == next_lockup_id + 1,
        r.lockups@.len() >= 1,
        r.lockups@.drop_last() == (match lockups {
            Some(ls) => ls@,
            None => Seq::<Lockup>::empty(),
        }),
        r.lockups@.last().owner@ == sender@,
        r.lockups@.last().id == next_lockup_id,
        r.lockups@.last().coin == coin,
        lockup_duration matches Duration::Height(h) ==> r.lockups@.last().release_at == Expiration::AtHeight((block.height + h) as u64),
        lockup_duration matches Duration::Time(s) ==> r.lockups@.last().release_at == Expiration::AtTime((block.time + s * 1_000_000_000) as u64),
{
    let release_at = lockup_duration.after(block);
    let mut ls = match lockups {
        Some(ls) => ls,
        None => Vec::new(),
    };
    ls.push(Lockup { owner: sender.clone(), id: next_lockup_id, release_at, coin });
    UnlockRequest { lockups: ls, next_lockup_id: next_lockup_id + 1, lockup_id: next_lockup_id }
}

/// `cosmwasm_std::Uint128::multiply_ratio`: `x * numerator / denominator`
/// rounded down; it panics on a zero denominator or a quotient beyond 128
/// bits, so neither is allowed.
#[verifier::external_body]
fn cw_u128_multiply_ratio(x: u128, numerator: u128, denominator: u128) -> (r: u128)
    requires
        denominator != 0,
        (x * numerator) / (denominator as int) <= u128_max(),
    ensures
        r == (x * numerator) / (denominator as int),
{
    cosmwasm_std::Uint128::new(x).multiply_ratio(numerator, denominator).u128()
}

/// Every asset can be split by `shares / total`.
pub open spec fn shares_splittable(assets: Seq<Coin>, shares: u128, total: u128) -> bool {
    forall|k: int| 0 <= k < assets.len() ==> total != 0 && (#[trigger] assets[k].amount * shares) / (total as int) <= u128_max()
}

/// The assets `shares` are worth: each vault asset scaled by
/// `shares / total_vault_shares`, rounded down; nothing before any share was
/// issued.
pub fn query_assets_for_shares(total_vault_shares: Option<u128>, all_vault_assets: &Vec<Coin>, shares: u128) -> (r: Vec<Coin>)
    requires
        total_vault_shares matches Some(total) ==> shares_splittable(all_vault_assets@, shares, total),
    ensures
        total_vault_shares is None ==> r@.len() == 0,
        total_vault_shares matches Some(total) ==> r@.len() == all_vault_assets@.len() && forall|k: int| 0 <= k < r@.len() ==> (#[trigger] r@[k]).denom@ == all_vault_assets@[k].denom@ && r@[k].amount == (all_vault_assets@[k].amount * shares) / (total as int),
{
    let mut r: Vec<Coin> = Vec::new();
    match total_vault_shares {
        None => r,
        Some(total) => {
            let mut i: usize = 0;
            while i < all_vault_assets.len()
                invariant
                    0 <= i <= all_vault_assets@.len(),
                    shares_splittable(all_vault_assets@, shares, total),
                    r@.len() == i,
                    forall|k: int| 0 <= k < i ==> (#[trigger] r@[k]).denom@ == all_vault_assets@[k].denom@ && r@[k].amount == (all_vault_assets@[k].amount * shares) / (total as int),
                decreases all_vault_assets@.len() - i,
            {
                let asset = &all_vault_assets[i];
                let amount = cw_u128_multiply_ratio(asset.amount, shares, total);
                r.push(Coin { denom: asset.denom.clone(), amount });
                i = i + 1;
            }
            r
        },
    }
}

/// Redeeming the whole supply of shares yields every asset in full.
pub proof fn lemma_all_shares_redeem_everything(amount: u128, total: u128)
    requires
        total != 0,
    ensures
        (amount * total) / (total as int) == amount,
{
    vstd::arithmetic::div_mod::lemma_div_multiples_vanish(amount as int, total as int);
    assert(amount * total == total * amount) by (nonlinear_arith);
}

/// Once a position is withdrawn, no lockup with its id is left.
pub proof fn lemma_withdrawn_id_is_gone(ls: Seq<Lockup>, id: u64)
    ensures
        forall|k: int| 0 <= k < without_lockup(ls, id).len() ==> (#[trigger] without_lockup(ls, id)[k]).id != id,
{
    let f = |l: Lockup| l.id != id;
    assert forall|k: int| 0 <= k < without_lockup(ls, id).len() implies (#[trigger] without_lockup(ls, id)[k]).id != id by {
        ls.lemma_filter_pred(f, k);
    }
}


/// A lockup id that no lockup has is not found.
proof fn lemma_first_with_id_absent(ls: Seq<Lockup>, id: u64)
    requires
        forall|k: int| 0 <= k < ls.len() ==> (#[trigger] ls[k]).id != id,
    ensures
        first_with_id(ls, id) is None,
    decreases ls.len(),
{
    if ls.len() > 0 {
        assert forall|k: int| 0 <= k < ls.drop_last().len() implies (#[trigger] ls.drop_last()[k]).id != id by {
            assert(ls.drop_last()[k] == ls[k]);
        }
        lemma_first_with_id_absent(ls.drop_last(), id);
        assert(ls.last() == ls[ls.len() - 1]);
    }
}

/// Removing an id that no lockup has leaves the lockups as they are.
proof fn lemma_without_absent_id(ls: Seq<Lockup>, id: u64)
    requires
        forall|k: int| 0 <= k < ls.len() ==> (#[trigger] ls[k]).id != id,
    ensures
        without_lockup(ls, id) == ls,
    decreases ls.len(),
{
    reveal_with_fuel(Seq::filter, 1);
    if ls.len() > 0 {
        assert forall|k: int| 0 <= k < ls.drop_last().len() implies (#[trigger] ls.drop_last()[k]).id != id by {
            assert(ls.drop_last()[k] == ls[k]);
        }
        lemma_without_absent_id(ls.drop_last(), id);
        assert(ls.last() == ls[ls.len() - 1]);
        assert(ls.drop_last().push(ls.last()) =~= ls);
    }
}

/// A requested unlock can be withdrawn by its owner once its lockup period
/// has passed: its id finds the new lockup (ids are not reused), the lockup
/// has expired at any block the period later, and withdrawing it leaves the
/// lockups there were before the request.
pub proof fn lemma_requested_unlock_is_withdrawable(ls: Seq<Lockup>, l: Lockup, d: Duration, start: BlockInfo, later: BlockInfo)
    requires
        forall|k: int| 0 <= k < ls.len() ==> (#[trigger] ls[k]).id != l.id,
        d matches Duration::Height(h) ==> l.release_at == Expiration::AtHeight((start.height + h) as u64)
            && start.height + h <= u64::MAX && later.height >= start.height + h,
        d matches Duration::Time(t) ==> l.release_at == Expiration::AtTime((start.time + t * 1_000_000_000) as u64)
            && start.time + t * 1_000_000_000 <= u64::MAX && later.time >= start.time + t * 1_000_000_000,
    ensures
        first_with_id(ls.push(l), l.id) == Some(ls.len() as int),
        expired(l.release_at, later),
        without_lockup(ls.push(l), l.id) == ls,
{
    lemma_first_with_id_absent(ls, l.id);
    assert(ls.push(l).drop_last() =~= ls);
    lemma_without_absent_id(ls, l.id);
    reveal_with_fuel(Seq::filter, 1);
    assert(ls.push(l).filter(|x: Lockup| x.id != l.id) == ls.filter(|x: Lockup| x.id != l.id));
}

} // verus!
