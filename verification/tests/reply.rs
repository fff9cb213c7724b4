use mars_rover::attribute::Attribute;
use mars_rover::error::StdError;
use mars_rover::reply::{AttrParse, Event, Reply, SubMsgResponse, SubMsgResult, UnlockEvent};

fn a(key: &str, value: &str) -> Attribute {
    Attribute { key: key.to_string(), value: value.to_string() }
}

fn event(ty: &str, attributes: Vec<Attribute>) -> Event {
    Event { ty: ty.to_string(), attributes }
}

fn reply(events: Vec<Event>) -> Reply {
    Reply { id: 1, result: SubMsgResult::Success(SubMsgResponse { events, data: None }) }
}

fn generic(msg: &str) -> StdError {
    StdError::GenericErr { msg: msg.to_string() }
}

#[test]
fn unlock_event_is_read() {
    let r = reply(vec![
        event("wasm", vec![a("action", "unlock")]),
        event(
            "wasm-unlocking_position_created",
            vec![a("_contract_addr", "vault_1"), a("id", "42"), a("id", "43")],
        ),
        event("wasm-unlocking_position_created", vec![a("_contract_addr", "vault_2"), a("id", "7")]),
    ]);
    assert_eq!(
        r.parse_unlock_event(),
        Ok(UnlockEvent { id: 42, vault_addr: "vault_1".to_string() })
    );
}

#[test]
fn unlock_id_with_a_plus_sign() {
    let r = reply(vec![event(
        "wasm-unlocking_position_created",
        vec![a("id", "+7"), a("_contract_addr", "vault")],
    )]);
    assert_eq!(r.parse_unlock_event(), Ok(UnlockEvent { id: 7, vault_addr: "vault".to_string() }));

    let r = reply(vec![event(
        "wasm-unlocking_position_created",
        vec![a("id", "340282366920938463463374607431768211455"), a("_contract_addr", "vault")],
    )]);
    assert_eq!(r.parse_unlock_event().unwrap().id, u128::MAX);
}

#[test]
fn failed_sub_message() {
    let r = Reply { id: 1, result: SubMsgResult::Error("out of gas".to_string()) };
    assert_eq!(r.parse_unlock_event(), Err(generic("out of gas")));
}

#[test]
fn missing_event_or_attributes() {
    let r = reply(vec![event("wasm", vec![a("id", "1"), a("_contract_addr", "v")])]);
    assert_eq!(r.parse_unlock_event(), Err(generic("No unlock event")));

    let r = reply(vec![event("wasm-unlocking_position_created", vec![a("_contract_addr", "v")])]);
    assert_eq!(r.parse_unlock_event(), Err(generic("No id attribute")));

    let r = reply(vec![event("wasm-unlocking_position_created", vec![a("id", "1")])]);
    assert_eq!(r.parse_unlock_event(), Err(generic("No contract attribute")));

    // The first unlock event decides, even when a later one is complete.
    let r = reply(vec![
        event("wasm-unlocking_position_created", vec![a("id", "1")]),
        event("wasm-unlocking_position_created", vec![a("id", "2"), a("_contract_addr", "v")]),
    ]);
    assert_eq!(r.parse_unlock_event(), Err(generic("No contract attribute")));
}

#[test]
fn unlock_id_that_is_not_a_number() {
    for id in ["abc", "", "-1", "1.5", "340282366920938463463374607431768211456", "+"] {
        let r = reply(vec![event(
            "wasm-unlocking_position_created",
            vec![a("id", id), a("_contract_addr", "v")],
        )]);
        assert!(r.parse_unlock_event().is_err(), "{id}");
    }
}

#[test]
fn unlock_id_error_names_the_parse() {
    let r = reply(vec![event("wasm-unlocking_position_created", vec![a("id", "abc"), a("_contract_addr", "v")])]);
    match r.parse_unlock_event() {
        Err(StdError::GenericErr { msg }) => assert!(msg.starts_with("Parsing u128: "), "{msg}"),
        other => panic!("unexpected {other:?}"),
    }
}
