//! Reading the reply to a vault's unlock request.

use vstd::prelude::*;

use crate::attribute::{text, Attribute};
use crate::coin::Coin;
use crate::error::StdError;
use crate::uint::u128_max;

verus! {

/// A message that moves coins from a sender to a recipient.
#[derive(Clone, Debug, PartialEq, Eq)]
pub struct AssetTransferMsg {
    pub recipient: String,
    pub sender: String,
    pub amount: Vec<Coin>,
}

/// A new unlocking position in a vault.
#[derive(Clone, Debug, PartialEq, Eq)]
pub struct UnlockEvent {
    pub id: u128,
    pub vault_addr: String,
}

/// An event emitted while executing a message.
#[derive(Clone, Debug, PartialEq, Eq)]
pub struct Event {
    pub ty: String,
    pub attributes: Vec<Attribute>,
}

/// What a successful sub-message produced.
#[derive(Clone, Debug, PartialEq, Eq)]
pub struct SubMsgResponse {
    pub events: Vec<Event>,
    pub data: Option<Vec<u8>>,
}

/// How a sub-message ended.
#[derive(Clone, Debug, PartialEq, Eq)]
pub enum SubMsgResult {
    Success(SubMsgResponse),
    Error(String),
}

/// The reply to a sub-message.
#[derive(Clone, Debug, PartialEq, Eq)]
pub struct Reply {
    pub id: u64,
    pub result: SubMsgResult,
}

/// The index of the first event of type `ty`.
pub open spec fn find_event(events: Seq<Event>, ty: Seq<char>) -> Option<int>
    decreases events.len(),
{
    if events.len() == 0 {
        None
    } else {
        match find_event(events.drop_last(), ty) {
            Some(k) => Some(k),
            None => if events.last().ty@ == ty {
                Some(events.len() - 1)
            } else {
                None
            },
        }
    }
}

/// The index of the first attribute with key `key`.
pub open spec fn find_attribute(attrs: Seq<Attribute>, key: Seq<char>) -> Option<int>
    decreases attrs.len(),
{
    if attrs.len() == 0 {
        None
    } else {
        match find_attribute(attrs.drop_last(), key) {
            Some(k) => Some(k),
            None => if attrs.last().key@ == key {
                Some(attrs.len() - 1)
            } else {
                None
            },
        }
    }
}

/// Whether `c` is an ASCII decimal digit.
pub open spec fn is_digit(c: char) -> bool {
    '0' <= c && c <= '9'
}

/// The number a string of decimal digits stands for.
pub open spec fn digits_value(s: Seq<char>) -> nat
    decreases s.len(),
{
    if s.len() == 0 {
        0
    } else {
        digits_value(s.drop_last()) * 10 + (s.last() as nat - '0' as nat) as nat
    }
}

/// The number a string stands for, as Rust parses unsigned integers: an
/// optional `+` and at least one decimal digit, worth at most `max`.
pub open spec fn parsed_uint(s: Seq<char>, max: nat) -> Option<nat> {
    let digits = if s.len() > 0 && s[0] == '+' {
        s.drop_first()
    } else {
        s
    };
    if digits.len() > 0 && (forall|i: int| 0 <= i < digits.len() ==> is_digit(#[trigger] digits[i])) && digits_value(digits) <= max {
        Some(digits_value(digits))
    } else {
        None
    }
}

/// The `u128` a string stands for.
pub open spec fn parsed_u128(s: Seq<char>) -> Option<nat> {
    parsed_uint(s, u128_max())
}

/// How the error of a `u128` that could not be parsed begins.
pub open spec fn u128_parse_error_prefix() -> Seq<char> {
    "Parsing u128: "@
}

/// `<cosmwasm_std::Uint128 as FromStr>::from_str`, which parses as `u128`
/// does: the value of an optional `+` and decimal digits, or a generic error
/// "Parsing u128: " followed by the text of the parse error of `u128`. That text
/// is not stated.
#[verifier::external_body]
fn cw_uint128_from_str(s: &str) -> (r: Result<u128, StdError>)
    ensures
        parsed_u128(s@) is Some ==> r is Ok && r->Ok_0 == parsed_u128(s@)->0,
        parsed_u128(s@) is None ==> r is Err,
        r is Err ==> (r->Err_0 matches StdError::GenericErr { msg } && u128_parse_error_prefix().is_prefix_of(msg@)),
{
    match <cosmwasm_std::Uint128 as std::str::FromStr>::from_str(s) {
        Ok(v) => Ok(v.u128()),
        Err(cosmwasm_std::StdError::GenericErr { msg, .. }) => Err(StdError::GenericErr { msg }),
        Err(e) => Err(StdError::GenericErr { msg: e.to_string() }),
    }
}

fn find_event_index(events: &Vec<Event>, ty: &String) -> (r: Option<usize>)
    ensures
        find_event(events@, ty@) is Some ==> r is Some && r->0 as int == find_event(events@, ty@)->0,
        find_event(events@, ty@) is None ==> r is None,
        r is Some ==> r->0 < events@.len(),
{
    let mut k: usize = 0;
    assert(events@.take(0) =~= Seq::<Event>::empty());
    while k < events.len()
        invariant
            0 <= k <= events@.len(),
            find_event(events@.take(k as int), ty@) is None,
        decreases events@.len() - k,
    {
        assert(events@.take(k + 1).drop_last() =~= events@.take(k as int));
        if events[k].ty == *ty {
            proof {
                lemma_find_event_extends(events@, k as int + 1, ty@);
            }
            return Some(k);
        }
        k = k + 1;
    }
    assert(events@.take(events@.len() as int) =~= events@);
    None
}

proof fn lemma_find_event_extends(events: Seq<Event>, i: int, ty: Seq<char>)
    requires
        0 <= i <= events.len(),
        find_event(events.take(i), ty) is Some,
    ensures
        find_event(events, ty) == find_event(events.take(i), ty),
    decreases events.len() - i,
{
    if i < events.len() {
        assert(events.take(i + 1).drop_last() =~= events.take(i));
        lemma_find_event_extends(events, i + 1, ty);
    } else {
        assert(events.take(i) =~= events);
    }
}

fn find_attribute_index(attrs: &Vec<Attribute>, key: &String) -> (r: Option<usize>)
    ensures
        find_attribute(attrs@, key@) is Some ==> r is Some && r->0 as int == find_attribute(attrs@, key@)->0,
        find_attribute(attrs@, key@) is None ==> r is None,
        r is Some ==> r->0 < attrs@.len(),
{
    let mut k: usize = 0;
    assert(attrs@.take(0) =~= Seq::<Attribute>::empty());
    while k < attrs.len()
        invariant
            0 <= k <= attrs@.len(),
            find_attribute(attrs@.take(k as int), key@) is None,
        decreases attrs@.len() - k,
    {
        assert(attrs@.take(k + 1).drop_last() =~= attrs@.take(k as int));
        if attrs[k].key == *key {
            proof {
                lemma_find_attribute_extends(attrs@, k as int + 1, key@);
            }
            return Some(k);
        }
        k = k + 1;
    }
    assert(attrs@.take(attrs@.len() as int) =~= attrs@);
    None
}

proof fn lemma_find_attribute_extends(attrs: Seq<Attribute>, i: int, key: Seq<char>)
    requires
        0 <= i <= attrs.len(),
        find_attribute(attrs.take(i), key) is Some,
    ensures
        find_attribute(attrs, key) == find_attribute(attrs.take(i), key),
    decreases attrs.len() - i,
{
    if i < attrs.len() {
        assert(attrs.take(i + 1).drop_last() =~= attrs.take(i));
        lemma_find_attribute_extends(attrs, i + 1, key);
    } else {
        assert(attrs.take(i) =~= attrs);
    }
}

/// A generic error with the given message.
fn generic_err(msg: &str) -> (r: StdError)
    ensures
        r matches StdError::GenericErr { msg: m } && m@ == msg@,
{
    StdError::GenericErr { msg: text(msg) }
}

/// The error `parse_unlock_event` reports with the given message.
pub open spec fn is_generic_err(r: Result<UnlockEvent, StdError>, msg: Seq<char>) -> bool {
    r is Err && (r->Err_0 matches StdError::GenericErr { msg: m } && m@ == msg)
}

/// Reads the unlocking position a vault created from the reply to an unlock request.
pub trait AttrParse {
    fn parse_unlock_event(self) -> Result<UnlockEvent, StdError>;
}

impl AttrParse for Reply {
    /// The first event of type "wasm-unlocking_position_created" names the
    /// position: its first "id" attribute is the position id and its first
    /// "_contract_addr" attribute the vault. A failed sub-message, a missing
    /// event or attribute, or an id that is not a `u128` is an error.
    fn parse_unlock_event(self) -> (r: Result<UnlockEvent, StdError>)
        ensures
            self.result matches SubMsgResult::Error(msg) ==> is_generic_err(r, msg@),
            self.result matches SubMsgResult::Success(resp) ==> {
                let evs = resp.events@;
                let ek = find_event(evs, "wasm-unlocking_position_created"@);
                &&& ek is None ==> is_generic_err(r, "No unlock event"@)
                &&& ek is Some ==> {
                    let attrs = evs[ek->0].attributes@;
                    let ik = find_attribute(attrs, "id"@);
                    let ck = find_attribute(attrs, "_contract_addr"@);
                    &&& ik is None ==> is_generic_err(r, "No id attribute"@)
                    &&& ik is Some && ck is None ==> is_generic_err(r, "No contract attribute"@)
                    &&& ik is Some && ck is Some && parsed_u128(attrs[ik->0].value@) is None ==> r is Err
                        && (r->Err_0 matches StdError::GenericErr { msg: m } && u128_parse_error_prefix().is_prefix_of(m@))
                    &&& ik is Some && ck is Some && parsed_u128(attrs[ik->0].value@) is Some ==> r is Ok
                        && r->Ok_0.id == parsed_u128(attrs[ik->0].value@)->0
                        && r->Ok_0.vault_addr@ == attrs[ck->0].value@
                }
            },
    {
        match self.result {
            SubMsgResult::Error(err) => Err(StdError::GenericErr { msg: err }),
            SubMsgResult::Success(response) => {
                let event_index = match find_event_index(&response.events, &text("wasm-unlocking_position_created")) {
                    Some(k) => k,
                    None => {
                        return Err(generic_err("No unlock event"));
                    },
                };
                let unlock_event = &response.events[event_index];
                let id_index = match find_attribute_index(&unlock_event.attributes, &text("id")) {
                    Some(k) => k,
                    None => {
                        return Err(generic_err("No id attribute"));
                    },
                };
                let id = &unlock_event.attributes[id_index].value;
                let contract_index = match find_attribute_index(&unlock_event.attributes, &text("_contract_addr")) {
                    Some(k) => k,
                    None => {
                        return Err(generic_err("No contract attribute"));
                    },
                };
                let contract_addr = &unlock_event.attributes[contract_index].value;
                let id = cw_uint128_from_str(id.as_str())?;
                Ok(UnlockEvent { id, vault_addr: contract_addr.clone() })
            },
        }
    }
}

} // verus!
