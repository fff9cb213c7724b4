//! A two-step transfer of a contract's admin role, as a finite state machine.
//!
//! ```text
//!                                                                  Clear Proposed
//!                                                    +-------------------------------------^
//!                                                    |                                     |
//!                                                    v                                     |
//! +----------------+                      +----------------+                       +-------+--------+
//! | Admin: None    |   Initialize Admin   | Admin: Gabe    |   Propose New Admin   | Admin: Gabe    |
//! | Proposed: None +--------------------->| Proposed: None +---------------------->| Proposed: Joy  |
//! +-----+----------+                      ++---------------+                       +-------+----+---+
//!       |                                  | Admin: Joy                                    |    |
//!       |                                  | Proposed: None                                |    |
//!   Abolish Role                           |      ^                                        |    |
//!       |                *immutable        |      |              Accept Proposed           |    |
//!       |            +----------------+    |      <----------------------------------------+    |
//!       +----------->| Admin: None    |    |                                                    |
//!                    | Proposed: None +----+------------------ Abolish Role --------------------+
//!                    +----------------+
//! ```

use vstd::prelude::*;

use crate::attribute::{attr, text, Attribute};

verus! {

/// What `Admin::query` returns.
#[derive(Clone, Debug, PartialEq, Eq)]
pub struct AdminResponse {
    pub admin: Option<String>,
    pub proposed: Option<String>,
}

/// Errors returned from admin state transitions.
#[derive(Clone, Debug, PartialEq, Eq)]
pub enum AdminError {
    /// Loading or saving the state failed.
    Std(String),
    NotAdmin {},
    NotProposedAdmin {},
    StateTransitionError {},
}

/// No admin yet; anyone may initialize one.
#[derive(Clone, Debug, PartialEq, Eq)]
pub struct AdminUninitialized {}

/// An admin, and no one proposed to take over.
#[derive(Clone, Debug, PartialEq, Eq)]
pub struct AdminSetNoneProposed {
    pub admin: String,
}

/// An admin, and a proposed successor.
#[derive(Clone, Debug, PartialEq, Eq)]
pub struct AdminSetWithProposed {
    pub admin: String,
    pub proposed: String,
}

/// The admin role is gone for good.
#[derive(Clone, Debug, PartialEq, Eq)]
pub struct AdminRoleAbolished {}

/// The finite states that are possible.
#[derive(Clone, Debug, PartialEq, Eq)]
pub enum AdminState {
    A(AdminUninitialized),
    B(AdminSetNoneProposed),
    C(AdminSetWithProposed),
    D(AdminRoleAbolished),
}

/// The abstract admin state: addresses as character sequences.
pub enum AdminModel {
    Uninitialized,
    SetNoneProposed { admin: Seq<char> },
    SetWithProposed { admin: Seq<char>, proposed: Seq<char> },
    Abolished,
}

impl View for AdminState {
    type V = AdminModel;

    open spec fn view(&self) -> AdminModel {
        match self {
            AdminState::A(_) => AdminModel::Uninitialized,
            AdminState::B(b) => AdminModel::SetNoneProposed { admin: b.admin@ },
            AdminState::C(c) => AdminModel::SetWithProposed { admin: c.admin@, proposed: c.proposed@ },
            AdminState::D(_) => AdminModel::Abolished,
        }
    }
}

impl AdminUninitialized {
    pub fn initialize(&self, admin: &String) -> (r: AdminState)
        ensures
            r@ == (AdminModel::SetNoneProposed { admin: admin@ }),
    {
        AdminState::B(AdminSetNoneProposed { admin: admin.clone() })
    }

    pub fn abolish_admin_role(&self) -> (r: AdminState)
        ensures
            r@ == AdminModel::Abolished,
    {
        AdminState::D(AdminRoleAbolished {})
    }
}

impl AdminSetNoneProposed {
    pub fn propose(self, proposed: &String) -> (r: AdminState)
        ensures
            r@ == (AdminModel::SetWithProposed { admin: self.admin@, proposed: proposed@ }),
    {
        AdminState::C(AdminSetWithProposed { admin: self.admin, proposed: proposed.clone() })
    }

    pub fn abolish_admin_role(self) -> (r: AdminState)
        ensures
            r@ == AdminModel::Abolished,
    {
        AdminState::D(AdminRoleAbolished {})
    }
}

impl AdminSetWithProposed {
    pub fn clear_proposed(self) -> (r: AdminState)
        ensures
            r@ == (AdminModel::SetNoneProposed { admin: self.admin@ }),
    {
        AdminState::B(AdminSetNoneProposed { admin: self.admin })
    }

    pub fn accept_proposed(self) -> (r: AdminState)
        ensures
            r@ == (AdminModel::SetNoneProposed { admin: self.proposed@ }),
    {
        AdminState::B(AdminSetNoneProposed { admin: self.proposed })
    }

    pub fn abolish_admin_role(self) -> (r: AdminState)
        ensures
            r@ == AdminModel::Abolished,
    {
        AdminState::D(AdminRoleAbolished {})
    }
}

/// A state transition request, with the sender already known.
#[allow(inconsistent_fields)]
#[derive(Clone, Debug, PartialEq, Eq)]
pub enum AdminUpdate {
    /// Sets the initial admin when none. No restrictions permissions to modify.
    InitializeAdmin { admin: String },
    /// Proposes a new admin to take role. Only current admin can execute.
    ProposeNewAdmin { sender: String, proposed: String },
    /// Clears the currently proposed admin. Only current admin can execute.
    ClearProposed { sender: String },
    /// Promotes the proposed admin to be the current one. Only the proposed admin can execute.
    AcceptProposed { sender: String },
    /// Throws away the keys to the Admin role forever. Once done, no admin can ever be set later.
    /// Requires Admin permission except if event is dispatched from AdminUninitialized state.
    AbolishAdminRole { sender: Option<String> },
}

/// Same as above, but used for execute helpers: the sender comes from the message.
#[derive(Clone, Debug, PartialEq, Eq)]
pub enum AdminExecuteUpdate {
    InitializeAdmin { admin: String },
    ProposeNewAdmin { proposed: String },
    ClearProposed,
    AcceptProposed,
    AbolishAdminRole,
}

/// The abstract update: addresses as character sequences.
#[allow(inconsistent_fields)]
pub enum AdminUpdateModel {
    InitializeAdmin { admin: Seq<char> },
    ProposeNewAdmin { sender: Seq<char>, proposed: Seq<char> },
    ClearProposed { sender: Seq<char> },
    AcceptProposed { sender: Seq<char> },
    AbolishAdminRole { sender: Option<Seq<char>> },
}

impl View for AdminUpdate {
    type V = AdminUpdateModel;

    open spec fn view(&self) -> AdminUpdateModel {
        match self {
            AdminUpdate::InitializeAdmin { admin } => AdminUpdateModel::InitializeAdmin { admin: admin@ },
            AdminUpdate::ProposeNewAdmin { sender, proposed } => AdminUpdateModel::ProposeNewAdmin { sender: sender@, proposed: proposed@ },
            AdminUpdate::ClearProposed { sender } => AdminUpdateModel::ClearProposed { sender: sender@ },
            AdminUpdate::AcceptProposed { sender } => AdminUpdateModel::AcceptProposed { sender: sender@ },
            AdminUpdate::AbolishAdminRole { sender } => AdminUpdateModel::AbolishAdminRole {
                sender: match sender {
                    Some(a) => Some(a@),
                    None => None,
                },
            },
        }
    }
}

/// The update that `sender` asks for with `update`.
pub open spec fn requested_update(sender: Seq<char>, update: AdminExecuteUpdate) -> AdminUpdateModel {
    match update {
        AdminExecuteUpdate::InitializeAdmin { admin } => AdminUpdateModel::InitializeAdmin { admin: admin@ },
        AdminExecuteUpdate::ProposeNewAdmin { proposed } => AdminUpdateModel::ProposeNewAdmin { sender, proposed: proposed@ },
        AdminExecuteUpdate::ClearProposed => AdminUpdateModel::ClearProposed { sender },
        AdminExecuteUpdate::AcceptProposed => AdminUpdateModel::AcceptProposed { sender },
        AdminExecuteUpdate::AbolishAdminRole => AdminUpdateModel::AbolishAdminRole { sender: Some(sender) },
    }
}

/// The admin of a state, if there is one.
pub open spec fn model_admin(s: AdminModel) -> Option<Seq<char>> {
    match s {
        AdminModel::SetNoneProposed { admin } => Some(admin),
        AdminModel::SetWithProposed { admin, .. } => Some(admin),
        _ => None,
    }
}

/// The proposed admin of a state, if there is one.
pub open spec fn model_proposed(s: AdminModel) -> Option<Seq<char>> {
    match s {
        AdminModel::SetWithProposed { proposed, .. } => Some(proposed),
        _ => None,
    }
}

/// The state machine: the state an update leads to, or why it is refused.
pub open spec fn admin_transition(s: AdminModel, e: AdminUpdateModel) -> Result<AdminModel, AdminError> {
    match (s, e) {
        (AdminModel::Uninitialized, AdminUpdateModel::InitializeAdmin { admin }) => Ok(AdminModel::SetNoneProposed { admin }),
        (AdminModel::Uninitialized, AdminUpdateModel::AbolishAdminRole { .. }) => Ok(AdminModel::Abolished),
        (AdminModel::SetNoneProposed { admin }, AdminUpdateModel::ProposeNewAdmin { sender, proposed }) => if sender == admin {
            Ok(AdminModel::SetWithProposed { admin, proposed })
        } else {
            Err(AdminError::NotAdmin {})
        },
        (AdminModel::SetNoneProposed { admin }, AdminUpdateModel::AbolishAdminRole { sender }) => if sender == Some(admin) {
            Ok(AdminModel::Abolished)
        } else {
            Err(AdminError::NotAdmin {})
        },
        (AdminModel::SetWithProposed { admin, proposed }, AdminUpdateModel::AcceptProposed { sender }) => if sender == proposed {
            Ok(AdminModel::SetNoneProposed { admin: proposed })
        } else {
            Err(AdminError::NotProposedAdmin {})
        },
        (AdminModel::SetWithProposed { admin, proposed }, AdminUpdateModel::ClearProposed { sender }) => if sender == admin {
            Ok(AdminModel::SetNoneProposed { admin })
        } else {
            Err(AdminError::NotAdmin {})
        },
        (AdminModel::SetWithProposed { admin, proposed }, AdminUpdateModel::AbolishAdminRole { sender }) => if sender == Some(admin) {
            Ok(AdminModel::Abolished)
        } else {
            Err(AdminError::NotAdmin {})
        },
        _ => Err(AdminError::StateTransitionError {}),
    }
}

impl AdminUpdate {
    /// The update that `sender` asks for. The addresses in `update` are
    /// expected to be validated already.
    pub fn from(sender: &String, update: AdminExecuteUpdate) -> (r: AdminUpdate)
        ensures
            r@ == requested_update(sender@, update),
    {
        match update {
            AdminExecuteUpdate::InitializeAdmin { admin } => AdminUpdate::InitializeAdmin { admin },
            AdminExecuteUpdate::ProposeNewAdmin { proposed } => AdminUpdate::ProposeNewAdmin { sender: sender.clone(), proposed },
            AdminExecuteUpdate::ClearProposed => AdminUpdate::ClearProposed { sender: sender.clone() },
            AdminExecuteUpdate::AcceptProposed => AdminUpdate::AcceptProposed { sender: sender.clone() },
            AdminExecuteUpdate::AbolishAdminRole => AdminUpdate::AbolishAdminRole { sender: Some(sender.clone()) },
        }
    }
}

/// The admin role of a contract, stored under a namespace.
///
/// `stored` is what the namespace holds: nothing before the first update.
pub struct Admin {
    pub namespace: String,
    pub stored: Option<AdminState>,
}

impl View for Admin {
    type V = AdminModel;

    /// An empty namespace means the admin is not initialized yet.
    open spec fn view(&self) -> AdminModel {
        match self.stored {
            Some(s) => s@,
            None => AdminModel::Uninitialized,
        }
    }
}

impl Admin {
    /// The admin role stored under `namespace`, not yet initialized.
    pub fn new(namespace: &str) -> (r: Admin)
        ensures
            r.namespace@ == namespace@,
            r@ == AdminModel::Uninitialized,
    {
        Admin { namespace: text(namespace), stored: None }
    }

    /// The admin role whose namespace holds `stored`.
    pub fn from_stored(namespace: String, stored: Option<AdminState>) -> (r: Admin)
        ensures
            r.namespace == namespace,
            r.stored == stored,
    {
        Admin { namespace, stored }
    }

    /// The current state; uninitialized when nothing is stored.
    pub fn state(&self) -> (r: AdminState)
        ensures
            r@ == self@,
    {
        match &self.stored {
            Some(s) => match s {
                AdminState::A(_) => AdminState::A(AdminUninitialized {}),
                AdminState::B(b) => AdminState::B(AdminSetNoneProposed { admin: b.admin.clone() }),
                AdminState::C(c) => AdminState::C(AdminSetWithProposed { admin: c.admin.clone(), proposed: c.proposed.clone() }),
                AdminState::D(_) => AdminState::D(AdminRoleAbolished {}),
            },
            None => AdminState::A(AdminUninitialized {}),
        }
    }

    //--------------------------------------------------------------------------------------------------
    // Queries
    //--------------------------------------------------------------------------------------------------
    /// The current admin, if any.
    pub fn current(&self) -> (r: Option<String>)
        ensures
            r is Some == model_admin(self@) is Some,
            r is Some ==> r->0@ == model_admin(self@)->0,
    {
        match self.state() {
            AdminState::B(b) => Some(b.admin),
            AdminState::C(c) => Some(c.admin),
            _ => None,
        }
    }

    /// Whether `addr` is the current admin.
    pub fn is_admin(&self, addr: &String) -> (r: bool)
        ensures
            r == (model_admin(self@) is Some && model_admin(self@)->0 == addr@),
    {
        match self.current() {
            Some(admin) => admin == *addr,
            None => false,
        }
    }

    /// The proposed admin, if any.
    pub fn proposed(&self) -> (r: Option<String>)
        ensures
            r is Some == model_proposed(self@) is Some,
            r is Some ==> r->0@ == model_proposed(self@)->0,
    {
        match self.state() {
            AdminState::C(c) => Some(c.proposed),
            _ => None,
        }
    }

    /// Whether `addr` is the proposed admin.
    pub fn is_proposed(&self, addr: &String) -> (r: bool)
        ensures
            r == (model_proposed(self@) is Some && model_proposed(self@)->0 == addr@),
    {
        match self.proposed() {
            Some(proposed) => proposed == *addr,
            None => false,
        }
    }

    /// The current and the proposed admin.
    pub fn query(&self) -> (r: AdminResponse)
        ensures
            r.admin is Some == model_admin(self@) is Some,
            r.admin is Some ==> r.admin->0@ == model_admin(self@)->0,
            r.proposed is Some == model_proposed(self@) is Some,
            r.proposed is Some ==> r.proposed->0@ == model_proposed(self@)->0,
    {
        AdminResponse { admin: self.current(), proposed: self.proposed() }
    }

    //--------------------------------------------------------------------------------------------------
    // Mutations
    //--------------------------------------------------------------------------------------------------
    /// Executes an admin state transition. A refused transition leaves the
    /// stored state as it was.
    pub fn update(&mut self, event: AdminUpdate) -> (r: Result<(), AdminError>)
        ensures
            final(self).namespace == old(self).namespace,
            admin_transition(old(self)@, event@) is Ok ==> r is Ok && final(self)@ == admin_transition(old(self)@, event@)->Ok_0 && final(self).stored is Some,
            admin_transition(old(self)@, event@) is Err ==> r == Err::<(), AdminError>(admin_transition(old(self)@, event@)->Err_0) && final(self).stored == old(self).stored,
    {
        let state = self.state();
        let new_state = match (state, event) {
            (AdminState::A(a), AdminUpdate::InitializeAdmin { admin }) => a.initialize(&admin),
            (AdminState::A(a), AdminUpdate::AbolishAdminRole { .. }) => a.abolish_admin_role(),
            (AdminState::B(b), AdminUpdate::ProposeNewAdmin { sender, proposed }) => {
                self.assert_admin(&sender)?;
                b.propose(&proposed)
            },
            (AdminState::B(b), AdminUpdate::AbolishAdminRole { sender }) => {
                let addr = match sender {
                    Some(addr) => addr,
                    None => {
                        return Err(AdminError::NotAdmin {});
                    },
                };
                self.assert_admin(&addr)?;
                b.abolish_admin_role()
            },
            (AdminState::C(c), AdminUpdate::AcceptProposed { sender }) => {
                self.assert_proposed(&sender)?;
                c.accept_proposed()
            },
            (AdminState::C(c), AdminUpdate::ClearProposed { sender }) => {
                self.assert_admin(&sender)?;
                c.clear_proposed()
            },
            (AdminState::C(c), AdminUpdate::AbolishAdminRole { sender }) => {
                let addr = match sender {
                    Some(addr) => addr,
                    None => {
                        return Err(AdminError::NotAdmin {});
                    },
                };
                self.assert_admin(&addr)?;
                c.abolish_admin_role()
            },
            (_, _) => {
                return Err(AdminError::StateTransitionError {});
            },
        };
        self.stored = Some(new_state);
        Ok(())
    }

    /// Turns `update` from `sender` into a transition, executes it, and
    /// returns the attributes that describe the outcome: the action, the admin
    /// and the proposed admin after the update ("None" when absent), and the
    /// sender.
    pub fn execute_update(&mut self, sender: &String, update: AdminExecuteUpdate) -> (r: Result<Vec<Attribute>, AdminError>)
        ensures
            final(self).namespace == old(self).namespace,
            ({
                let event = requested_update(sender@, update);
                &&& admin_transition(old(self)@, event) is Err ==> r == Err::<Vec<Attribute>, AdminError>(admin_transition(old(self)@, event)->Err_0) && final(self).stored == old(self).stored
                &&& admin_transition(old(self)@, event) is Ok ==> r is Ok && final(self)@ == admin_transition(old(self)@, event)->Ok_0 && update_attributes(r->Ok_0@, final(self)@, sender@)
            }),
    {
        let event = AdminUpdate::from(sender, update);
        self.update(event)?;
        let res = self.query();
        let none = text("None");
        let admin = match res.admin {
            Some(a) => a,
            None => none.clone(),
        };
        let proposed = match res.proposed {
            Some(p) => p,
            None => none,
        };
        let mut attrs: Vec<Attribute> = Vec::new();
        attrs.push(attr("action", text("update_admin")));
        attrs.push(attr("admin", admin));
        attrs.push(attr("proposed", proposed));
        attrs.push(attr("sender", sender.clone()));
        Ok(attrs)
    }

    //--------------------------------------------------------------------------------------------------
    // Assertions
    //--------------------------------------------------------------------------------------------------
    /// Similar to is_admin() except it raises an error if caller is not current admin
    pub fn assert_admin(&self, caller: &String) -> (r: Result<(), AdminError>)
        ensures
            (model_admin(self@) is Some && model_admin(self@)->0 == caller@) ==> r is Ok,
            !(model_admin(self@) is Some && model_admin(self@)->0 == caller@) ==> r == Err::<(), AdminError>(AdminError::NotAdmin {}),
    {
        if !self.is_admin(caller) {
            Err(AdminError::NotAdmin {})
        } else {
            Ok(())
        }
    }

    /// Similar to is_proposed() except it raises an error if caller is not currently proposed new admin
    pub fn assert_proposed(&self, caller: &String) -> (r: Result<(), AdminError>)
        ensures
            (model_proposed(self@) is Some && model_proposed(self@)->0 == caller@) ==> r is Ok,
            !(model_proposed(self@) is Some && model_proposed(self@)->0 == caller@) ==> r == Err::<(), AdminError>(AdminError::NotProposedAdmin {}),
    {
        if !self.is_proposed(caller) {
            Err(AdminError::NotProposedAdmin {})
        } else {
            Ok(())
        }
    }
}

/// The text of an optional address: the address, or "None".
pub open spec fn or_none(a: Option<Seq<char>>) -> Seq<char> {
    match a {
        Some(s) => s,
        None => "None"@,
    }
}

/// The attributes that describe the state `s` reached by an update from `sender`.
pub open spec fn update_attributes(attrs: Seq<Attribute>, s: AdminModel, sender: Seq<char>) -> bool {
    &&& attrs.len() == 4
    &&& attrs[0].key@ == "action"@ && attrs[0].value@ == "update_admin"@
    &&& attrs[1].key@ == "admin"@ && attrs[1].value@ == or_none(model_admin(s))
    &&& attrs[2].key@ == "proposed"@ && attrs[2].value@ == or_none(model_proposed(s))
    &&& attrs[3].key@ == "sender"@ && attrs[3].value@ == sender
}

/// The sender named in an update, if it names one.
pub open spec fn update_sender(e: AdminUpdateModel) -> Option<Seq<char>> {
    match e {
        AdminUpdateModel::InitializeAdmin { .. } => None,
        AdminUpdateModel::ProposeNewAdmin { sender, .. } => Some(sender),
        AdminUpdateModel::ClearProposed { sender } => Some(sender),
        AdminUpdateModel::AcceptProposed { sender } => Some(sender),
        AdminUpdateModel::AbolishAdminRole { sender } => sender,
    }
}

/// Once the admin role is abolished, every update is refused: the state is immutable.
pub proof fn lemma_abolished_is_final(e: AdminUpdateModel)
    ensures
        admin_transition(AdminModel::Abolished, e) == Err::<AdminModel, AdminError>(AdminError::StateTransitionError {}),
{
}

/// Anyone may initialize the first admin, and nothing but initialization or
/// abolition is accepted before that.
pub proof fn lemma_uninitialized_transitions(e: AdminUpdateModel)
    ensures
        e matches AdminUpdateModel::InitializeAdmin { admin } ==> admin_transition(AdminModel::Uninitialized, e) == Ok::<AdminModel, AdminError>(AdminModel::SetNoneProposed { admin }),
        e is AbolishAdminRole ==> admin_transition(AdminModel::Uninitialized, e) == Ok::<AdminModel, AdminError>(AdminModel::Abolished),
        !(e is InitializeAdmin || e is AbolishAdminRole) ==> admin_transition(AdminModel::Uninitialized, e) == Err::<AdminModel, AdminError>(AdminError::StateTransitionError {}),
{
}

/// Once an admin is set, only that admin can propose, clear, or abolish;
/// accepting is the only other update that can succeed, and only the proposed
/// admin can do it.
pub proof fn lemma_only_admin_or_proposed_acts(s: AdminModel, e: AdminUpdateModel)
    requires
        model_admin(s) is Some,
        admin_transition(s, e) is Ok,
    ensures
        !(e is AcceptProposed) ==> update_sender(e) == model_admin(s),
        e is AcceptProposed ==> update_sender(e) == model_proposed(s) && model_proposed(s) is Some,
{
}

/// The admin of a set role changes only when the proposed admin accepts, and
/// then the proposed admin becomes the admin.
pub proof fn lemma_admin_changes_only_by_acceptance(s: AdminModel, e: AdminUpdateModel)
    requires
        model_admin(s) is Some,
        admin_transition(s, e) is Ok,
        model_admin(admin_transition(s, e)->Ok_0) is Some,
        model_admin(admin_transition(s, e)->Ok_0) != model_admin(s),
    ensures
        e is AcceptProposed,
        model_admin(admin_transition(s, e)->Ok_0) == model_proposed(s),
        model_proposed(admin_transition(s, e)->Ok_0) is None,
{
}

/// The two-step transfer: the admin proposes a successor and the successor
/// accepts; then the successor is the admin and no one is proposed.
pub proof fn lemma_two_step_transfer(admin: Seq<char>, successor: Seq<char>)
    ensures
        ({
            let proposed = admin_transition(
                AdminModel::SetNoneProposed { admin },
                AdminUpdateModel::ProposeNewAdmin { sender: admin, proposed: successor },
            );
            &&& proposed == Ok::<AdminModel, AdminError>(AdminModel::SetWithProposed { admin, proposed: successor })
            &&& admin_transition(proposed->Ok_0, AdminUpdateModel::AcceptProposed { sender: successor })
                == Ok::<AdminModel, AdminError>(AdminModel::SetNoneProposed { admin: successor })
        }),
{
}

/// Clearing the proposal restores the state before it was made.
pub proof fn lemma_clear_undoes_propose(admin: Seq<char>, successor: Seq<char>)
    ensures
        admin_transition(
            AdminModel::SetWithProposed { admin, proposed: successor },
            AdminUpdateModel::ClearProposed { sender: admin },
        ) == Ok::<AdminModel, AdminError>(AdminModel::SetNoneProposed { admin }),
{
}


/// Initializing names the admin the message asks for, whoever sends it: from
/// an uninitialized role, `InitializeAdmin { admin }` makes `admin` the admin,
/// with no one proposed.
pub proof fn lemma_initialize_names_the_admin(sender: Seq<char>, admin: String)
    ensures
        ({
            let r = admin_transition(AdminModel::Uninitialized, requested_update(sender, AdminExecuteUpdate::InitializeAdmin { admin }));
            &&& r is Ok
            &&& model_admin(r->Ok_0) == Some(admin@)
            &&& model_proposed(r->Ok_0) is None
        }),
{
}

/// Proposing keeps the admin and proposes the address the message names:
/// when the admin of a role with no one proposed sends
/// `ProposeNewAdmin { proposed }`, `proposed` becomes the proposed admin.
pub proof fn lemma_propose_names_the_successor(s: AdminModel, sender: Seq<char>, proposed: String)
    requires
        s is SetNoneProposed,
        model_admin(s) == Some(sender),
    ensures
        ({
            let r = admin_transition(s, requested_update(sender, AdminExecuteUpdate::ProposeNewAdmin { proposed }));
            &&& r is Ok
            &&& model_admin(r->Ok_0) == Some(sender)
            &&& model_proposed(r->Ok_0) == Some(proposed@)
        }),
{
}

/// Accepting hands the role over: when the proposed admin sends
/// `AcceptProposed`, the sender becomes the admin and no one is proposed;
/// anyone else is refused as not the proposed admin.
pub proof fn lemma_accept_hands_over(s: AdminModel, sender: Seq<char>)
    requires
        s is SetWithProposed,
    ensures
        ({
            let r = admin_transition(s, requested_update(sender, AdminExecuteUpdate::AcceptProposed));
            &&& model_proposed(s) == Some(sender) ==> r is Ok && model_admin(r->Ok_0) == Some(sender) && model_proposed(r->Ok_0) is None
            &&& model_proposed(s) != Some(sender) ==> r == Err::<AdminModel, AdminError>(AdminError::NotProposedAdmin {})
        }),
{
}

/// Abolishing is for good: whatever the state and the sender, once an
/// `AbolishAdminRole` is accepted there is no admin and no proposed admin, and
/// every later update is refused.
pub proof fn lemma_abolish_is_for_good(s: AdminModel, sender: Option<Seq<char>>)
    ensures
        ({
            let r = admin_transition(s, AdminUpdateModel::AbolishAdminRole { sender });
            r is Ok ==> {
                &&& model_admin(r->Ok_0) is None
                &&& model_proposed(r->Ok_0) is None
                &&& forall|e: AdminUpdateModel| #[trigger] admin_transition(r->Ok_0, e) is Err
            }
        }),
{
}

/// The same through a message: an accepted `AbolishAdminRole` from any sender
/// leaves a role that refuses every later update.
pub proof fn lemma_abolish_message_is_for_good(s: AdminModel, sender: Seq<char>)
    ensures
        ({
            let r = admin_transition(s, requested_update(sender, AdminExecuteUpdate::AbolishAdminRole));
            r is Ok ==> forall|e: AdminUpdateModel| #[trigger] admin_transition(r->Ok_0, e) is Err
        }),
{
}


/// Clearing through a message: when the admin sends `ClearProposed`, the
/// proposal is gone and the admin stays; anyone else is refused as not the
/// admin, and so is anyone but the admin who sends `ProposeNewAdmin`.
pub proof fn lemma_clear_message_keeps_the_admin(s: AdminModel, sender: Seq<char>, proposed: String)
    ensures
        s is SetWithProposed ==> ({
            let r = admin_transition(s, requested_update(sender, AdminExecuteUpdate::ClearProposed));
            &&& model_admin(s) == Some(sender) ==> r is Ok && model_admin(r->Ok_0) == Some(sender) && model_proposed(r->Ok_0) is None
            &&& model_admin(s) != Some(sender) ==> r == Err::<AdminModel, AdminError>(AdminError::NotAdmin {})
        }),
        s is SetNoneProposed && model_admin(s) != Some(sender) ==> admin_transition(
            s,
            requested_update(sender, AdminExecuteUpdate::ProposeNewAdmin { proposed }),
        ) == Err::<AdminModel, AdminError>(AdminError::NotAdmin {}),
{
}

} // verus!
