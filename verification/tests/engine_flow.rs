use w3d_relay::handler::{conn_step, ConnInput, ConnState};
use w3d_relay::registry::{Registry, Session};
use w3d_relay::router::{route, Event};
use w3d_relay::space::SpaceId;

const SPACE_ONE: &str = "11111111-1111-1111-1111-111111111111";
const SPACE_TWO: &str = "22222222-2222-2222-2222-222222222222";

fn handshake_line(id: &str, space: &str) -> String {
    format!("{{\"id\":\"{}\",\"space_id\":\"{}\"}}", id, space)
}

fn join(reg: &mut Registry, id: &str, space: &str) -> ConnState {
    conn_step(
        ConnState::AwaitingHandshake,
        ConnInput::Text(handshake_line(id, space)),
        reg,
    )
}

#[test]
fn register_is_first_wins() {
    let mut reg = Registry::new();
    let space = SpaceId::parse(SPACE_ONE).unwrap();
    let session = Session::new("a".to_string(), space.clone());
    assert_eq!(session.identity(), "a");
    assert!(reg.register(session).is_ok());
    assert!(reg.register(Session::new("a".to_string(), space.clone())).is_err());
    assert_eq!(reg.len(), 1);
}

#[test]
fn remove_is_idempotent() {
    let mut reg = Registry::new();
    let space = SpaceId::parse(SPACE_ONE).unwrap();
    reg.register(Session::new("a".to_string(), space)).unwrap();
    assert_eq!(reg.len(), 1);
    reg.remove("a");
    assert_eq!(reg.len(), 0);
    reg.remove("a");
    assert_eq!(reg.len(), 0);
    reg.remove("never-there");
    assert_eq!(reg.len(), 0);
}

#[test]
fn snapshot_is_scoped_and_ordered() {
    let mut reg = Registry::new();
    let one = SpaceId::parse(SPACE_ONE).unwrap();
    let two = SpaceId::parse(SPACE_TWO).unwrap();
    reg.register(Session::new("a".to_string(), one.clone())).unwrap();
    reg.register(Session::new("c".to_string(), two.clone())).unwrap();
    reg.register(Session::new("b".to_string(), one.clone())).unwrap();
    assert_eq!(reg.snapshot_for_space(&one), vec!["a".to_string(), "b".to_string()]);
    assert_eq!(reg.snapshot_for_space(&two), vec!["c".to_string()]);
}

#[test]
fn join_then_chat_reaches_only_the_peer() {
    let mut reg = Registry::new();
    // client a handshakes first: its join has no other recipients
    let st_a = join(&mut reg, "a", SPACE_ONE);
    assert!(matches!(st_a, ConnState::Active { .. }));
    assert_eq!(reg.take_queued("a"), Vec::<String>::new());
    // client b joins the same space: a is told, b itself is not
    let st_b = join(&mut reg, "b", SPACE_ONE);
    assert!(matches!(st_b, ConnState::Active { .. }));
    assert_eq!(reg.take_queued("a"), vec![
        "{\"type\":\"Spawn\",\"id\":\"b\",\"model_url\":\"\"}".to_string(),
    ]);
    assert_eq!(reg.take_queued("b"), Vec::<String>::new());
    // a chats: b receives exactly one message, a receives nothing back
    let st_a = conn_step(
        st_a,
        ConnInput::Text("{\"type\":\"Chat\",\"message\":\"hi\"}".to_string()),
        &mut reg,
    );
    assert!(matches!(st_a, ConnState::Active { .. }));
    assert_eq!(reg.take_queued("b"), vec![
        "{\"type\":\"Chat\",\"id\":\"a\",\"message\":\"hi\"}".to_string(),
    ]);
    assert_eq!(reg.take_queued("a"), Vec::<String>::new());
}

#[test]
fn events_do_not_cross_spaces() {
    let mut reg = Registry::new();
    let st_a = join(&mut reg, "a", SPACE_ONE);
    let _st_b = join(&mut reg, "b", SPACE_ONE);
    reg.take_queued("a");
    reg.take_queued("b");
    // c lives in another space and moves: a and b see nothing
    let st_c = join(&mut reg, "c", SPACE_TWO);
    assert!(matches!(st_c, ConnState::Active { .. }));
    let _st_c = conn_step(
        st_c,
        ConnInput::Text("{\"type\":\"Move\",\"x\":1.5,\"y\":2.25}".to_string()),
        &mut reg,
    );
    assert_eq!(reg.take_queued("a"), Vec::<String>::new());
    assert_eq!(reg.take_queued("b"), Vec::<String>::new());
    assert_eq!(reg.take_queued("c"), Vec::<String>::new());
    // and a's chat does not leak into c's space
    let _st_a = conn_step(
        st_a,
        ConnInput::Text("{\"type\":\"Chat\",\"message\":\"hi\"}".to_string()),
        &mut reg,
    );
    assert_eq!(reg.take_queued("c"), Vec::<String>::new());
}

#[test]
fn duplicate_identity_terminates_second_connection() {
    let mut reg = Registry::new();
    let st_first = join(&mut reg, "a", SPACE_ONE);
    assert!(matches!(st_first, ConnState::Active { .. }));
    // a second handshake claiming the same identity fails and registers
    // nothing, even in another space
    let st_second = join(&mut reg, "a", SPACE_TWO);
    assert!(matches!(st_second, ConnState::Terminated));
    assert_eq!(reg.len(), 1);
    assert_eq!(reg.snapshot_for_space(&SpaceId::parse(SPACE_TWO).unwrap()), Vec::<String>::new());
}

#[test]
fn closed_stream_removes_session_once() {
    let mut reg = Registry::new();
    let _st_a = join(&mut reg, "a", SPACE_ONE);
    let st_b = join(&mut reg, "b", SPACE_ONE);
    reg.take_queued("a");
    // b's stream ends: its session is gone before the next broadcast
    let st_b = conn_step(st_b, ConnInput::Closed, &mut reg);
    assert!(matches!(st_b, ConnState::Terminated));
    assert!(!reg.contains_identity("b"));
    assert_eq!(reg.len(), 1);
    // a further input to the terminated connection changes nothing
    let st_b = conn_step(
        st_b,
        ConnInput::Text("{\"type\":\"Chat\",\"message\":\"late\"}".to_string()),
        &mut reg,
    );
    assert!(matches!(st_b, ConnState::Terminated));
    // a subsequent broadcast no longer attempts delivery to b
    let space = SpaceId::parse(SPACE_ONE).unwrap();
    let report = route(
        &mut reg,
        &Event::Chat { identity: "a".to_string(), message: "anyone?".to_string() },
        &space,
    );
    assert_eq!(report.delivered, 0);
    assert_eq!(report.failed, Vec::<String>::new());
    assert_eq!(reg.take_queued("b"), Vec::<String>::new());
}

#[test]
fn delivery_failure_is_isolated() {
    let mut reg = Registry::new();
    let st_a = join(&mut reg, "a", SPACE_ONE);
    let _ = join(&mut reg, "b", SPACE_ONE);
    let _ = join(&mut reg, "c", SPACE_ONE);
    reg.take_queued("a");
    reg.take_queued("b");
    // b's transport reports a dead connection mid-life
    reg.mark_closed("b");
    // a's chat still reaches c; the failure for b is reported, not raised
    let _st_a = conn_step(
        st_a,
        ConnInput::Text("{\"type\":\"Chat\",\"message\":\"hi\"}".to_string()),
        &mut reg,
    );
    assert_eq!(reg.take_queued("c"), vec![
        "{\"type\":\"Chat\",\"id\":\"a\",\"message\":\"hi\"}".to_string(),
    ]);
    assert_eq!(reg.take_queued("b"), Vec::<String>::new());
    // the same broadcast through the router makes the report visible
    reg.mark_closed("b");
    let space = SpaceId::parse(SPACE_ONE).unwrap();
    let report = route(
        &mut reg,
        &Event::Chat { identity: "a".to_string(), message: "again".to_string() },
        &space,
    );
    assert_eq!(report.delivered, 1);
    assert_eq!(report.failed, vec!["b".to_string()]);
    assert_eq!(reg.take_queued("c"), vec![
        "{\"type\":\"Chat\",\"id\":\"a\",\"message\":\"again\"}".to_string(),
    ]);
}

#[test]
fn malformed_message_is_not_fatal() {
    let mut reg = Registry::new();
    let st_a = join(&mut reg, "a", SPACE_ONE);
    let _ = join(&mut reg, "b", SPACE_ONE);
    reg.take_queued("a");
    // garbage mid-session: the connection stays open, nothing is broadcast
    let st_a = conn_step(st_a, ConnInput::Text(">>> not json <<<".to_string()), &mut reg);
    assert!(matches!(st_a, ConnState::Active { .. }));
    assert_eq!(reg.take_queued("b"), Vec::<String>::new());
    assert_eq!(reg.len(), 2);
    // a later well-formed move is still processed and broadcast
    let _st_a = conn_step(
        st_a,
        ConnInput::Text("{\"type\":\"Move\",\"x\":1.5,\"y\":3}".to_string()),
        &mut reg,
    );
    assert_eq!(reg.take_queued("b"), vec![
        "{\"type\":\"Move\",\"id\":\"a\",\"x\":1.5,\"y\":3}".to_string(),
    ]);
}

#[test]
fn per_sender_order_is_preserved() {
    let mut reg = Registry::new();
    let st_a = join(&mut reg, "a", SPACE_ONE);
    let _ = join(&mut reg, "b", SPACE_ONE);
    reg.take_queued("a");
    let st_a = conn_step(
        st_a,
        ConnInput::Text("{\"type\":\"Chat\",\"message\":\"first\"}".to_string()),
        &mut reg,
    );
    let _st_a = conn_step(
        st_a,
        ConnInput::Text("{\"type\":\"Chat\",\"message\":\"second\"}".to_string()),
        &mut reg,
    );
    assert_eq!(reg.take_queued("b"), vec![
        "{\"type\":\"Chat\",\"id\":\"a\",\"message\":\"first\"}".to_string(),
        "{\"type\":\"Chat\",\"id\":\"a\",\"message\":\"second\"}".to_string(),
    ]);
}

#[test]
fn handshake_failures_register_nothing() {
    let mut reg = Registry::new();
    let st = conn_step(
        ConnState::AwaitingHandshake,
        ConnInput::Text("not a handshake".to_string()),
        &mut reg,
    );
    assert!(matches!(st, ConnState::Terminated));
    assert_eq!(reg.len(), 0);
    let st = conn_step(
        ConnState::AwaitingHandshake,
        ConnInput::Text("{\"id\":\"a\",\"space_id\":\"nope\"}".to_string()),
        &mut reg,
    );
    assert!(matches!(st, ConnState::Terminated));
    assert_eq!(reg.len(), 0);
    let st = conn_step(ConnState::AwaitingHandshake, ConnInput::Closed, &mut reg);
    assert!(matches!(st, ConnState::Terminated));
    assert_eq!(reg.len(), 0);
}
