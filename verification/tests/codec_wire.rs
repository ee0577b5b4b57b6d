use w3d_relay::codec::{decode, decode_handshake, encode, ClientMessage, DecodeError,
    HandshakeError, ServerEvent};
use w3d_relay::space::SpaceId;

#[test]
fn encode_chat_exact() {
    let e = ServerEvent::Chat { id: "a".to_string(), message: "hi".to_string() };
    assert_eq!(encode(&e), "{\"type\":\"Chat\",\"id\":\"a\",\"message\":\"hi\"}");
}

#[test]
fn encode_move_exact() {
    let e = ServerEvent::Move { id: "a".to_string(), x: "1.5".to_string(), y: "2.25".to_string() };
    assert_eq!(encode(&e), "{\"type\":\"Move\",\"id\":\"a\",\"x\":1.5,\"y\":2.25}");
}

#[test]
fn encode_spawn_exact() {
    let e = ServerEvent::Spawn { id: "b".to_string(), model_url: String::new() };
    assert_eq!(encode(&e), "{\"type\":\"Spawn\",\"id\":\"b\",\"model_url\":\"\"}");
}

#[test]
fn encode_escapes_quotes_and_newlines() {
    let e = ServerEvent::Chat { id: "a".to_string(), message: "say \"hi\"\n".to_string() };
    let line = encode(&e);
    assert_eq!(line, "{\"type\":\"Chat\",\"id\":\"a\",\"message\":\"say \\\"hi\\\"\\n\"}");
    // the encoded line is valid JSON that round-trips to the original fields
    let v: serde_json::Value = serde_json::from_str(&line).unwrap();
    assert_eq!(v.get("type").unwrap().as_str().unwrap(), "Chat");
    assert_eq!(v.get("id").unwrap().as_str().unwrap(), "a");
    assert_eq!(v.get("message").unwrap().as_str().unwrap(), "say \"hi\"\n");
}

#[test]
fn encode_escapes_control_characters() {
    let e = ServerEvent::Chat { id: "a".to_string(), message: "\u{1}\t\\".to_string() };
    let line = encode(&e);
    assert_eq!(line, "{\"type\":\"Chat\",\"id\":\"a\",\"message\":\"\\u0001\\t\\\\\"}");
    let v: serde_json::Value = serde_json::from_str(&line).unwrap();
    assert_eq!(v.get("message").unwrap().as_str().unwrap(), "\u{1}\t\\");
}

#[test]
fn decode_move_valid() {
    match decode("{\"type\":\"Move\",\"x\":1.5,\"y\":3}") {
        Ok(ClientMessage::Move { x, y }) => {
            assert_eq!(x, "1.5");
            assert_eq!(y, "3");
        }
        other => panic!("expected a move, got {:?}", other.is_ok()),
    }
}

#[test]
fn decode_chat_valid() {
    match decode("{\"type\":\"Chat\",\"message\":\"hello\"}") {
        Ok(ClientMessage::Chat { message }) => assert_eq!(message, "hello"),
        other => panic!("expected a chat, got {:?}", other.is_ok()),
    }
}

#[test]
fn decode_tolerates_field_order_and_extras() {
    match decode("{\"y\": 2, \"x\": 1, \"type\": \"Move\", \"extra\": null}") {
        Ok(ClientMessage::Move { x, y }) => {
            assert_eq!(x, "1");
            assert_eq!(y, "2");
        }
        _ => panic!("expected a move"),
    }
}

#[test]
fn decode_rejects_malformed_text() {
    assert_eq!(decode("not json at all").unwrap_err(), DecodeError::Malformed);
}

#[test]
fn decode_rejects_non_object() {
    assert_eq!(decode("[1,2,3]").unwrap_err(), DecodeError::NotObject);
}

#[test]
fn decode_rejects_missing_kind() {
    assert_eq!(decode("{\"x\":1,\"y\":2}").unwrap_err(), DecodeError::MissingKind);
    assert_eq!(decode("{\"type\":7}").unwrap_err(), DecodeError::MissingKind);
}

#[test]
fn decode_rejects_unknown_kind() {
    assert_eq!(decode("{\"type\":\"Dance\"}").unwrap_err(), DecodeError::UnknownKind);
}

#[test]
fn decode_rejects_bad_payload() {
    assert_eq!(decode("{\"type\":\"Move\",\"x\":1.0}").unwrap_err(), DecodeError::BadPayload);
    assert_eq!(
        decode("{\"type\":\"Move\",\"x\":\"1\",\"y\":2}").unwrap_err(),
        DecodeError::BadPayload
    );
    assert_eq!(decode("{\"type\":\"Chat\",\"message\":5}").unwrap_err(), DecodeError::BadPayload);
}

#[test]
fn handshake_valid() {
    let h = decode_handshake(
        "{\"id\":\"a\",\"space_id\":\"11111111-1111-1111-1111-111111111111\"}",
    )
    .unwrap();
    assert_eq!(h.identity, "a");
    assert_eq!(h.space.as_text(), "11111111-1111-1111-1111-111111111111");
}

#[test]
fn handshake_rejects_malformed() {
    assert_eq!(decode_handshake("garbage").unwrap_err(), HandshakeError::Malformed);
    assert_eq!(decode_handshake("42").unwrap_err(), HandshakeError::Malformed);
}

#[test]
fn handshake_rejects_missing_fields() {
    assert_eq!(decode_handshake("{\"id\":\"a\"}").unwrap_err(), HandshakeError::MissingField);
    assert_eq!(
        decode_handshake("{\"space_id\":\"11111111-1111-1111-1111-111111111111\"}").unwrap_err(),
        HandshakeError::MissingField
    );
    assert_eq!(
        decode_handshake("{\"id\":7,\"space_id\":\"11111111-1111-1111-1111-111111111111\"}")
            .unwrap_err(),
        HandshakeError::MissingField
    );
}

#[test]
fn handshake_rejects_bad_space_id() {
    assert_eq!(
        decode_handshake("{\"id\":\"a\",\"space_id\":\"not-a-uuid\"}").unwrap_err(),
        HandshakeError::BadSpaceId
    );
}

#[test]
fn space_id_is_canonicalised() {
    // the parser accepts more spellings than the canonical one; they all
    // yield the same space
    let lower = SpaceId::parse("11111111-1111-1111-1111-111111111111").unwrap();
    let upper = SpaceId::parse("11111111-1111-1111-1111-111111111111".to_uppercase().as_str())
        .unwrap();
    assert_eq!(upper.as_text(), "11111111-1111-1111-1111-111111111111");
    assert!(lower.same(&upper));
    assert!(SpaceId::parse("not-a-uuid").is_none());
}
