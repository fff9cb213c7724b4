use mars_rover::attribute::Attribute;
use mars_rover::error::ContractError;
use mars_rover::reentrancy_guard::{GuardState, ReentrancyGuard};

#[test]
fn guard_starts_inactive() {
    let guard = ReentrancyGuard::new("reentrancy_guard");
    assert_eq!(guard.namespace, "reentrancy_guard");
    assert_eq!(guard.stored, None);
    assert_eq!(guard.state(), GuardState::Inactive);
}

#[test]
fn guard_brackets_a_call() {
    let mut guard = ReentrancyGuard::new("reentrancy_guard");
    guard.check_and_set().unwrap();
    assert_eq!(guard.state(), GuardState::Active);
    assert_eq!(guard.stored, Some(GuardState::Active));

    let err = guard.check_and_set().unwrap_err();
    assert_eq!(err, ContractError::ReentrancyGuard("Reentrancy guard is active".to_string()));
    assert_eq!(guard.state(), GuardState::Active);

    let attrs = guard.remove().unwrap();
    assert_eq!(
        attrs,
        vec![Attribute { key: "action".to_string(), value: "remove_reentrancy_guard".to_string() }]
    );
    assert_eq!(guard.state(), GuardState::Inactive);
    assert_eq!(guard.stored, Some(GuardState::Inactive));

    // At rest again, it can be raised anew.
    guard.check_and_set().unwrap();
    assert_eq!(guard.state(), GuardState::Active);
}

#[test]
fn removing_a_guard_at_rest_is_refused() {
    let mut guard = ReentrancyGuard::new("reentrancy_guard");
    let err = guard.remove().unwrap_err();
    assert_eq!(
        err,
        ContractError::ReentrancyGuard("Invalid reentrancy guard state transition".to_string())
    );
    assert_eq!(guard.stored, None);

    let mut guard = ReentrancyGuard::from_stored("g".to_string(), Some(GuardState::Inactive));
    assert!(guard.remove().is_err());
    assert_eq!(guard.stored, Some(GuardState::Inactive));
}
