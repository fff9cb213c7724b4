use mars_rover::admin::AdminUpdate::{
    AbolishAdminRole, AcceptProposed, ClearProposed, InitializeAdmin, ProposeNewAdmin,
};
use mars_rover::admin::{Admin, AdminError, AdminExecuteUpdate, AdminResponse, AdminState};

fn addr(s: &str) -> String {
    s.to_string()
}

//--------------------------------------------------------------------------------------------------
// Test invalid state transitions
//--------------------------------------------------------------------------------------------------

#[test]
fn invalid_uninitialized_state_transitions() {
    let mut admin = Admin::new("xyz");
    let new_admin = addr("peter_parker");

    let err = admin
        .update(ProposeNewAdmin {
            sender: new_admin.clone(),
            proposed: new_admin.clone(),
        })
        .unwrap_err();
    assert_eq!(err, AdminError::StateTransitionError {});

    let err = admin
        .update(ClearProposed {
            sender: new_admin.clone(),
        })
        .unwrap_err();
    assert_eq!(err, AdminError::StateTransitionError {});

    let err = admin
        .update(AcceptProposed { sender: new_admin })
        .unwrap_err();
    assert_eq!(err, AdminError::StateTransitionError {});
}

#[test]
fn invalid_admin_set_no_proposed_state_transitions() {
    let mut admin = Admin::new("xyz");
    let original_admin = addr("peter_parker");
    admin
        .update(InitializeAdmin {
            admin: original_admin.clone(),
        })
        .unwrap();

    let err = admin
        .update(InitializeAdmin {
            admin: original_admin.clone(),
        })
        .unwrap_err();
    assert_eq!(err, AdminError::StateTransitionError {});

    let err = admin
        .update(ClearProposed {
            sender: original_admin.clone(),
        })
        .unwrap_err();
    assert_eq!(err, AdminError::StateTransitionError {});

    let err = admin
        .update(AcceptProposed {
            sender: original_admin,
        })
        .unwrap_err();
    assert_eq!(err, AdminError::StateTransitionError {});
}

#[test]
fn invalid_admin_set_with_proposed_state_transitions() {
    let mut admin = Admin::new("xyz");
    let original_admin = addr("peter_parker");
    let proposed_admin = addr("miles_morales");
    admin
        .update(InitializeAdmin {
            admin: original_admin.clone(),
        })
        .unwrap();
    admin
        .update(ProposeNewAdmin {
            sender: original_admin.clone(),
            proposed: proposed_admin.clone(),
        })
        .unwrap();

    let err = admin
        .update(InitializeAdmin {
            admin: original_admin.clone(),
        })
        .unwrap_err();
    assert_eq!(err, AdminError::StateTransitionError {});

    let err = admin
        .update(ProposeNewAdmin {
            sender: original_admin,
            proposed: proposed_admin,
        })
        .unwrap_err();
    assert_eq!(err, AdminError::StateTransitionError {});
}

#[test]
fn invalid_admin_role_abolished_state_transitions() {
    let mut admin = Admin::new("xyz");
    let original_admin = addr("peter_parker");
    let proposed_admin = addr("miles_morales");
    admin
        .update(AbolishAdminRole {
            sender: Some(original_admin.clone()),
        })
        .unwrap();

    let err = admin
        .update(InitializeAdmin {
            admin: original_admin.clone(),
        })
        .unwrap_err();
    assert_eq!(err, AdminError::StateTransitionError {});

    let err = admin
        .update(ProposeNewAdmin {
            sender: original_admin.clone(),
            proposed: proposed_admin.clone(),
        })
        .unwrap_err();
    assert_eq!(err, AdminError::StateTransitionError {});

    let err = admin
        .update(ClearProposed {
            sender: original_admin.clone(),
        })
        .unwrap_err();
    assert_eq!(err, AdminError::StateTransitionError {});

    let err = admin
        .update(AcceptProposed {
            sender: proposed_admin,
        })
        .unwrap_err();
    assert_eq!(err, AdminError::StateTransitionError {});

    let err = admin
        .update(AbolishAdminRole {
            sender: Some(original_admin),
        })
        .unwrap_err();
    assert_eq!(err, AdminError::StateTransitionError {});
}

//--------------------------------------------------------------------------------------------------
// Test permissions
//--------------------------------------------------------------------------------------------------

#[test]
fn initialize_admin_permissions() {
    let mut admin = Admin::new("xyz");

    // Anyone can initialize the first admin
    let user_a = addr("peter_parker");
    admin.update(InitializeAdmin { admin: user_a }).unwrap();

    let mut admin = Admin::new("xyz");
    let user_b = addr("miles_morales");
    admin.update(InitializeAdmin { admin: user_b }).unwrap();
}

#[test]
fn propose_new_admin_permissions() {
    let mut admin = Admin::new("xyz");
    let original_admin = addr("peter_parker");
    admin
        .update(InitializeAdmin {
            admin: original_admin,
        })
        .unwrap();

    let bad_guy = addr("doc_oc");
    let err = admin
        .update(ProposeNewAdmin {
            sender: bad_guy.clone(),
            proposed: bad_guy,
        })
        .unwrap_err();
    assert_eq!(err, AdminError::NotAdmin {})
}

#[test]
fn clear_proposed_permissions() {
    let mut admin = Admin::new("xyz");
    let original_admin = addr("peter_parker");
    let proposed_admin = addr("miles_morales");
    admin
        .update(InitializeAdmin {
            admin: original_admin.clone(),
        })
        .unwrap();
    admin
        .update(ProposeNewAdmin {
            sender: original_admin,
            proposed: proposed_admin,
        })
        .unwrap();

    let bad_guy = addr("doc_oc");
    let err = admin.update(ClearProposed { sender: bad_guy }).unwrap_err();
    assert_eq!(err, AdminError::NotAdmin {})
}

#[test]
fn accept_proposed_permissions() {
    let mut admin = Admin::new("xyz");
    let original_admin = addr("peter_parker");
    let proposed_admin = addr("miles_morales");
    admin
        .update(InitializeAdmin {
            admin: original_admin.clone(),
        })
        .unwrap();
    admin
        .update(ProposeNewAdmin {
            sender: original_admin.clone(),
            proposed: proposed_admin,
        })
        .unwrap();

    let err = admin
        .update(AcceptProposed {
            sender: original_admin,
        })
        .unwrap_err();
    assert_eq!(err, AdminError::NotProposedAdmin {})
}

#[test]
fn abolish_admin_role_permissions() {
    let mut admin = Admin::new("xyz");
    let user = addr("peter_parker");

    // As no admin is set, no restrictions on abolishing from uninitialized state
    admin.update(AbolishAdminRole { sender: None }).unwrap();

    let mut admin = Admin::new("xyz");
    admin.update(AbolishAdminRole { sender: Some(user) }).unwrap();
}

//--------------------------------------------------------------------------------------------------
// Test success cases
//--------------------------------------------------------------------------------------------------

fn assert_uninitialized(admin: &Admin) {
    let state = admin.state();
    match state {
        AdminState::A(_) => {}
        _ => panic!("Should be in the AdminUninitialized state"),
    }

    let current = admin.current();
    assert_eq!(current, None);

    let proposed = admin.proposed();
    assert_eq!(proposed, None);

    let res = admin.query();
    assert_eq!(
        res,
        AdminResponse {
            admin: None,
            proposed: None
        }
    );
}

#[test]
fn uninitialized_state() {
    let admin = Admin::new("xyz");
    assert_uninitialized(&admin);
}

#[test]
fn initialize_admin() {
    let mut admin = Admin::new("xyz");
    let original_admin = addr("peter_parker");
    admin
        .update(InitializeAdmin {
            admin: original_admin.clone(),
        })
        .unwrap();

    let state = admin.state();
    match state {
        AdminState::B(_) => {}
        _ => panic!("Should be in the AdminSetNoneProposed state"),
    }

    let current = admin.current();
    assert_eq!(current, Some(original_admin.clone()));
    assert!(admin.is_admin(&original_admin));

    let proposed = admin.proposed();
    assert_eq!(proposed, None);

    let res = admin.query();
    assert_eq!(
        res,
        AdminResponse {
            admin: Some(original_admin.to_string()),
            proposed: None
        }
    );
}

#[test]
fn propose_new_admin() {
    let mut admin = Admin::new("xyz");
    let original_admin = addr("peter_parker");
    let proposed_admin = addr("miles_morales");
    admin
        .update(InitializeAdmin {
            admin: original_admin.clone(),
        })
        .unwrap();
    admin
        .update(ProposeNewAdmin {
            sender: original_admin.clone(),
            proposed: proposed_admin.clone(),
        })
        .unwrap();

    let state = admin.state();
    match state {
        AdminState::C(_) => {}
        _ => panic!("Should be in the AdminSetWithProposed state"),
    }

    let current = admin.current();
    assert_eq!(current, Some(original_admin.clone()));
    assert!(admin.is_admin(&original_admin));

    let proposed = admin.proposed();
    assert_eq!(proposed, Some(proposed_admin.clone()));
    assert!(admin.is_proposed(&proposed_admin));

    let res = admin.query();
    assert_eq!(
        res,
        AdminResponse {
            admin: Some(original_admin.to_string()),
            proposed: Some(proposed_admin.to_string())
        }
    );
}

#[test]
fn clear_proposed() {
    let mut admin = Admin::new("xyz");
    let original_admin = addr("peter_parker");
    let proposed_admin = addr("miles_morales");
    admin
        .update(InitializeAdmin {
            admin: original_admin.clone(),
        })
        .unwrap();
    admin
        .update(ProposeNewAdmin {
            sender: original_admin.clone(),
            proposed: proposed_admin.clone(),
        })
        .unwrap();

    admin
        .update(ClearProposed {
            sender: original_admin.clone(),
        })
        .unwrap();

    let state = admin.state();
    match state {
        AdminState::B(_) => {}
        _ => panic!("Should be in the AdminSetNoneProposed state"),
    }

    let current = admin.current();
    assert_eq!(current, Some(original_admin.clone()));
    assert!(admin.is_admin(&original_admin));

    let proposed = admin.proposed();
    assert_eq!(proposed, None);
    assert!(!admin.is_proposed(&proposed_admin));

    let res = admin.query();
    assert_eq!(
        res,
        AdminResponse {
            admin: Some(original_admin.to_string()),
            proposed: None
        }
    );
}

#[test]
fn accept_proposed() {
    let mut admin = Admin::new("xyz");
    let original_admin = addr("peter_parker");
    let proposed_admin = addr("miles_morales");
    admin
        .update(InitializeAdmin {
            admin: original_admin.clone(),
        })
        .unwrap();
    admin
        .update(ProposeNewAdmin {
            sender: original_admin,
            proposed: proposed_admin.clone(),
        })
        .unwrap();
    admin
        .update(AcceptProposed {
            sender: proposed_admin.clone(),
        })
        .unwrap();

    let state = admin.state();
    match state {
        AdminState::B(_) => {}
        _ => panic!("Should be in the AdminSetNoneProposed state"),
    }

    let current = admin.current();
    assert_eq!(current, Some(proposed_admin.clone()));
    assert!(admin.is_admin(&proposed_admin));

    let proposed = admin.proposed();
    assert_eq!(proposed, None);
    assert!(!admin.is_proposed(&proposed_admin));

    let res = admin.query();
    assert_eq!(
        res,
        AdminResponse {
            admin: Some(proposed_admin.to_string()),
            proposed: None
        }
    );
}

#[test]
fn abolish_admin_role() {
    let mut admin = Admin::new("xyz");
    let original_admin = addr("peter_parker");

    admin
        .update(AbolishAdminRole {
            sender: Some(original_admin.clone()),
        })
        .unwrap();

    let state = admin.state();
    match state {
        AdminState::D(_) => {}
        _ => panic!("Should be in the AdminRoleAbolished state"),
    }

    let current = admin.current();
    assert_eq!(current, None);
    assert!(!admin.is_admin(&original_admin));

    let proposed = admin.proposed();
    assert_eq!(proposed, None);
    assert!(!admin.is_proposed(&original_admin));

    let res = admin.query();
    assert_eq!(
        res,
        AdminResponse {
            admin: None,
            proposed: None
        }
    );
}

#[test]
fn execute_helper() {
    let sender = addr("peter_parker");
    let mut admin = Admin::new("xyz");
    admin
        .execute_update(
            &sender,
            AdminExecuteUpdate::InitializeAdmin {
                admin: sender.clone(),
            },
        )
        .unwrap();

    let state = admin.state();
    match state {
        AdminState::B(_) => {}
        _ => panic!("Should be in the AdminSetNoneProposed state"),
    }

    let current = admin.current();
    assert_eq!(current, Some(sender.clone()));
    assert!(admin.is_admin(&sender));

    let proposed = admin.proposed();
    assert_eq!(proposed, None);

    let res = admin.query();
    assert_eq!(
        res,
        AdminResponse {
            admin: Some(sender.to_string()),
            proposed: None
        }
    );
}

//--------------------------------------------------------------------------------------------------
// Further scenarios
//--------------------------------------------------------------------------------------------------

#[test]
fn execute_update_reports_attributes() {
    let sender = addr("peter_parker");
    let mut admin = Admin::new("xyz");
    let attrs = admin
        .execute_update(
            &sender,
            AdminExecuteUpdate::InitializeAdmin {
                admin: sender.clone(),
            },
        )
        .unwrap();
    let pairs: Vec<(String, String)> = attrs.into_iter().map(|a| (a.key, a.value)).collect();
    assert_eq!(
        pairs,
        vec![
            ("action".to_string(), "update_admin".to_string()),
            ("admin".to_string(), "peter_parker".to_string()),
            ("proposed".to_string(), "None".to_string()),
            ("sender".to_string(), "peter_parker".to_string()),
        ]
    );
}

#[test]
fn two_step_transfer_law_on_values() {
    let mut admin = Admin::new("xyz");
    let gabe = addr("gabe");
    let joy = addr("joy");
    admin.update(InitializeAdmin { admin: gabe.clone() }).unwrap();
    admin
        .update(ProposeNewAdmin {
            sender: gabe.clone(),
            proposed: joy.clone(),
        })
        .unwrap();
    admin.update(AcceptProposed { sender: joy.clone() }).unwrap();
    assert_eq!(admin.current(), Some(joy.clone()));
    assert_eq!(admin.proposed(), None);
    // The old admin lost every right.
    let err = admin
        .update(ProposeNewAdmin {
            sender: gabe.clone(),
            proposed: gabe,
        })
        .unwrap_err();
    assert_eq!(err, AdminError::NotAdmin {});
}

#[test]
fn refused_update_leaves_state_unchanged() {
    let mut admin = Admin::new("xyz");
    let gabe = addr("gabe");
    admin.update(InitializeAdmin { admin: gabe.clone() }).unwrap();
    let before = admin.state();
    let err = admin
        .update(AbolishAdminRole { sender: None })
        .unwrap_err();
    assert_eq!(err, AdminError::NotAdmin {});
    assert_eq!(admin.state(), before);
}

#[test]
fn execute_abolish_requires_admin() {
    let mut admin = Admin::new("xyz");
    let gabe = addr("gabe");
    admin.update(InitializeAdmin { admin: gabe.clone() }).unwrap();
    let err = admin
        .execute_update(&addr("doc_oc"), AdminExecuteUpdate::AbolishAdminRole)
        .unwrap_err();
    assert_eq!(err, AdminError::NotAdmin {});
    admin
        .execute_update(&gabe, AdminExecuteUpdate::AbolishAdminRole)
        .unwrap();
    assert_eq!(admin.current(), None);
}

#[test]
fn clearing_a_proposal_restores_the_state_before_it() {
    let mut admin = Admin::new("xyz");
    let gabe = addr("gabe");
    admin.update(InitializeAdmin { admin: gabe.clone() }).unwrap();
    let before = admin.state();
    admin
        .update(ProposeNewAdmin {
            sender: gabe.clone(),
            proposed: addr("joy"),
        })
        .unwrap();
    assert_eq!(admin.proposed(), Some(addr("joy")));
    admin.update(ClearProposed { sender: gabe }).unwrap();
    assert_eq!(admin.state(), before);
}
