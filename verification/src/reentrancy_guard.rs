//! A guard against reentrant calls.
//!
//! Contracts we call from the credit manager should not be attempting to
//! execute actions. This prevents reentrancy attacks where a contract we call
//! (that turned evil) deposits into its own credit account and tricks state
//! updates that rely on querying bank balances before and after.

use vstd::prelude::*;

use crate::attribute::{attr, text, Attribute};
use crate::error::ContractError;

verus! {

/// Whether the guard is up.
#[derive(Clone, Copy, Debug, PartialEq, Eq)]
pub enum GuardState {
    Inactive,
    Active,
}

/// The reentrancy guard stored under a namespace; `stored` is what the
/// namespace holds, nothing before the first change.
pub struct ReentrancyGuard {
    pub namespace: String,
    pub stored: Option<GuardState>,
}

/// The state a guard is in: inactive until set.
pub open spec fn guard_state(stored: Option<GuardState>) -> GuardState {
    match stored {
        Some(s) => s,
        None => GuardState::Inactive,
    }
}

/// What the guard holds after it is moved to `new_state`: the guard only
/// flips, so a move to the state it is in is refused (`None`).
pub open spec fn guard_transition(stored: Option<GuardState>, new_state: GuardState) -> Option<Option<GuardState>> {
    if guard_state(stored) != new_state {
        Some(Some(new_state))
    } else {
        None
    }
}

impl ReentrancyGuard {
    /// The guard stored under `namespace`, inactive.
    pub fn new(namespace: &str) -> (r: ReentrancyGuard)
        ensures
            r.namespace@ == namespace@,
            r.stored is None,
    {
        ReentrancyGuard { namespace: text(namespace), stored: None }
    }

    /// The guard whose namespace holds `stored`.
    pub fn from_stored(namespace: String, stored: Option<GuardState>) -> (r: ReentrancyGuard)
        ensures
            r.namespace == namespace,
            r.stored == stored,
    {
        ReentrancyGuard { namespace, stored }
    }

    /// Ensures the guard has not already been set and sets it to active.
    pub fn check_and_set(&mut self) -> (r: Result<(), ContractError>)
        ensures
            final(self).namespace == old(self).namespace,
            r is Ok <==> guard_transition(old(self).stored, GuardState::Active) is Some,
            r is Ok ==> final(self).stored == guard_transition(old(self).stored, GuardState::Active)->0,
            r is Err ==> final(self).stored == old(self).stored
                && (r->Err_0 matches ContractError::ReentrancyGuard(m) && m@ == "Reentrancy guard is active"@),
    {
        self.check_is_inactive()?;
        self.update(GuardState::Active)?;
        Ok(())
    }

    /// Sets the guard to inactive and returns the attributes of the response
    /// to be used for the callback.
    pub fn remove(&mut self) -> (r: Result<Vec<Attribute>, ContractError>)
        ensures
            final(self).namespace == old(self).namespace,
            r is Ok <==> guard_transition(old(self).stored, GuardState::Inactive) is Some,
            r is Ok ==> final(self).stored == guard_transition(old(self).stored, GuardState::Inactive)->0
                && r->Ok_0@.len() == 1 && r->Ok_0@[0].key@ == "action"@ && r->Ok_0@[0].value@ == "remove_reentrancy_guard"@,
            r is Err ==> final(self).stored == old(self).stored
                && (r->Err_0 matches ContractError::ReentrancyGuard(m) && m@ == "Invalid reentrancy guard state transition"@),
    {
        self.update(GuardState::Inactive)?;
        let mut attrs: Vec<Attribute> = Vec::new();
        attrs.push(attr("action", text("remove_reentrancy_guard")));
        Ok(attrs)
    }

    fn check_is_inactive(&self) -> (r: Result<(), ContractError>)
        ensures
            r is Ok <==> guard_state(self.stored) == GuardState::Inactive,
            r is Err ==> (r->Err_0 matches ContractError::ReentrancyGuard(m) && m@ == "Reentrancy guard is active"@),
    {
        match self.state() {
            GuardState::Active => Err(ContractError::ReentrancyGuard(text("Reentrancy guard is active"))),
            GuardState::Inactive => Ok(()),
        }
    }

    /// The current state; inactive when nothing is stored.
    pub fn state(&self) -> (r: GuardState)
        ensures
            r == guard_state(self.stored),
    {
        match self.stored {
            Some(s) => s,
            None => GuardState::Inactive,
        }
    }

    fn update(&mut self, new_state: GuardState) -> (r: Result<(), ContractError>)
        ensures
            final(self).namespace == old(self).namespace,
            r is Ok <==> guard_transition(old(self).stored, new_state) is Some,
            r is Ok ==> final(self).stored == guard_transition(old(self).stored, new_state)->0,
            r is Err ==> final(self).stored == old(self).stored
                && (r->Err_0 matches ContractError::ReentrancyGuard(m) && m@ == "Invalid reentrancy guard state transition"@),
    {
        let new_state = self.transition_state(new_state)?;
        self.stored = Some(new_state);
        Ok(())
    }

    /// The guard only flips: inactive to active, or active to inactive.
    fn transition_state(&self, new_state: GuardState) -> (r: Result<GuardState, ContractError>)
        ensures
            guard_state(self.stored) != new_state ==> r == Ok::<GuardState, ContractError>(new_state),
            guard_state(self.stored) == new_state ==> r is Err
                && (r->Err_0 matches ContractError::ReentrancyGuard(m) && m@ == "Invalid reentrancy guard state transition"@),
    {
        match (self.state(), new_state) {
            (GuardState::Active, GuardState::Inactive) => Ok(GuardState::Inactive),
            (GuardState::Inactive, GuardState::Active) => Ok(GuardState::Active),
            _ => Err(ContractError::ReentrancyGuard(text("Invalid reentrancy guard state transition"))),
        }
    }
}


/// The guard brackets a call: raised from rest, it refuses to be raised
/// again until it is removed, and removing it brings it back to rest, where
/// it can be raised anew. Removing a guard at rest is refused.
pub proof fn lemma_guard_brackets_a_call(stored: Option<GuardState>)
    requires
        guard_state(stored) == GuardState::Inactive,
    ensures
        guard_transition(stored, GuardState::Active) == Some(Some(GuardState::Active)),
        guard_transition(Some(GuardState::Active), GuardState::Active) is None,
        guard_transition(Some(GuardState::Active), GuardState::Inactive) == Some(Some(GuardState::Inactive)),
        guard_transition(Some(GuardState::Inactive), GuardState::Active) is Some,
        guard_transition(stored, GuardState::Inactive) is None,
{
}

} // verus!
