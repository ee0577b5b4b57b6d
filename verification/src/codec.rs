//! Message codec: encoding of server events into their JSON wire text and
//! decoding of client messages out of it.

use vstd::prelude::*;
use vstd::string::*;

use crate::json::{parse_json, json_is_object, json_get, json_string, json_number_text};
use crate::json::{JsonData, json_of};
use crate::space::{SpaceId, uuid_canon_of};

verus! {

// ---------------------------------------------------------------------------
// Message types
// ---------------------------------------------------------------------------

/// A message a client may send after its handshake. Coordinates ride through
/// the relay untouched, as the canonical text of the JSON number they arrived
/// as: the server holds no game logic and never computes on them.
#[derive(Debug)]
pub enum ClientMessage {
    Move { x: String, y: String },
    Chat { message: String },
}

/// The mathematical value of a `ClientMessage`.
pub enum ClientMessageData {
    Move { x: Seq<char>, y: Seq<char> },
    Chat { message: Seq<char> },
}

impl View for ClientMessage {
    type V = ClientMessageData;

    open spec fn view(&self) -> ClientMessageData {
        match self {
            ClientMessage::Move { x, y } => ClientMessageData::Move { x: x@, y: y@ },
            ClientMessage::Chat { message } => ClientMessageData::Chat { message: message@ },
        }
    }
}

/// An event the server fans out to the other sessions of a space.
pub enum ServerEvent {
    Spawn { id: String, model_url: String },
    Move { id: String, x: String, y: String },
    Chat { id: String, message: String },
}

/// The mathematical value of a `ServerEvent`.
pub enum ServerEventData {
    Spawn { id: Seq<char>, model_url: Seq<char> },
    Move { id: Seq<char>, x: Seq<char>, y: Seq<char> },
    Chat { id: Seq<char>, message: Seq<char> },
}

impl View for ServerEvent {
    type V = ServerEventData;

    open spec fn view(&self) -> ServerEventData {
        match self {
            ServerEvent::Spawn { id, model_url } => ServerEventData::Spawn {
                id: id@,
                model_url: model_url@,
            },
            ServerEvent::Move { id, x, y } => ServerEventData::Move { id: id@, x: x@, y: y@ },
            ServerEvent::Chat { id, message } => ServerEventData::Chat {
                id: id@,
                message: message@,
            },
        }
    }
}

/// Why a post-handshake message was rejected. A decode failure is never fatal
/// to the connection: the caller logs it and reads on.
#[derive(Clone, Copy, Debug, PartialEq, Eq, Structural)]
pub enum DecodeError {
    /// The text is not one valid JSON value.
    Malformed,
    /// The text is valid JSON but not an object.
    NotObject,
    /// The object has no `type` member, or its `type` member is not a string.
    MissingKind,
    /// The `type` member names no known message kind.
    UnknownKind,
    /// A field of the named kind is absent or of the wrong type.
    BadPayload,
}

/// The first message of a connection: the identity the client claims and the
/// space it joins.
#[derive(Debug)]
pub struct Handshake {
    pub identity: String,
    pub space: SpaceId,
}

/// The mathematical value of a `Handshake`; the space is its canonical text.
pub struct HandshakeData {
    pub identity: Seq<char>,
    pub space: Seq<char>,
}

impl View for Handshake {
    type V = HandshakeData;

    open spec fn view(&self) -> HandshakeData {
        HandshakeData { identity: self.identity@, space: self.space@ }
    }
}

/// Why a connection ended before it was ever visible to other clients.
#[derive(Clone, Copy, Debug, PartialEq, Eq, Structural)]
pub enum HandshakeError {
    /// The handshake text is not a JSON object.
    Malformed,
    /// The object lacks a string `id` or a string `space_id` member.
    MissingField,
    /// The `space_id` member is not a UUID in any accepted form.
    BadSpaceId,
    /// Another live session already holds the claimed identity.
    DuplicateIdentity,
}

// ---------------------------------------------------------------------------
// JSON string escaping
// ---------------------------------------------------------------------------

/// The hexadecimal digit character for a value below sixteen.
pub open spec fn hex_digit(d: nat) -> char {
    if d == 0 {
        '0'
    } else if d == 1 {
        '1'
    } else if d == 2 {
        '2'
    } else if d == 3 {
        '3'
    } else if d == 4 {
        '4'
    } else if d == 5 {
        '5'
    } else if d == 6 {
        '6'
    } else if d == 7 {
        '7'
    } else if d == 8 {
        '8'
    } else if d == 9 {
        '9'
    } else if d == 10 {
        'a'
    } else if d == 11 {
        'b'
    } else if d == 12 {
        'c'
    } else if d == 13 {
        'd'
    } else if d == 14 {
        'e'
    } else {
        'f'
    }
}

/// How one character is written inside a JSON string literal: the two-character
/// escapes for quote, backslash and the common control characters, a `\u00XX`
/// escape for the remaining control characters, and the character itself
/// otherwise.
pub open spec fn esc_char(c: char) -> Seq<char> {
    if c == '"' {
        seq!['\\', '"']
    } else if c == '\\' {
        seq!['\\', '\\']
    } else if c == '\n' {
        seq!['\\', 'n']
    } else if c == '\r' {
        seq!['\\', 'r']
    } else if c == '\t' {
        seq!['\\', 't']
    } else if (c as u32) < 32 {
        seq!['\\', 'u', '0', '0', hex_digit((c as u32 / 16) as nat), hex_digit((c as u32 % 16) as nat)]
    } else {
        seq![c]
    }
}

/// The body of a JSON string literal holding the characters of `s`.
pub open spec fn escape_seq(s: Seq<char>) -> Seq<char>
    decreases s.len(),
{
    if s.len() == 0 {
        Seq::empty()
    } else {
        escape_seq(s.drop_last()) + esc_char(s.last())
    }
}

/// Relies on `String::push`: it appends exactly the one character.
#[verifier::external_body]
fn push_char(s: &mut String, c: char)
    ensures
        final(s)@ == old(s)@.push(c),
{
    s.push(c);
}

fn hex_char(d: u32) -> (c: char)
    requires
        d < 16,
    ensures
        c == hex_digit(d as nat),
{
    if d == 0 {
        '0'
    } else if d == 1 {
        '1'
    } else if d == 2 {
        '2'
    } else if d == 3 {
        '3'
    } else if d == 4 {
        '4'
    } else if d == 5 {
        '5'
    } else if d == 6 {
        '6'
    } else if d == 7 {
        '7'
    } else if d == 8 {
        '8'
    } else if d == 9 {
        '9'
    } else if d == 10 {
        'a'
    } else if d == 11 {
        'b'
    } else if d == 12 {
        'c'
    } else if d == 13 {
        'd'
    } else if d == 14 {
        'e'
    } else {
        'f'
    }
}

/// Escapes `s` for use as the body of a JSON string literal.
pub fn escape_json(s: &str) -> (r: String)
    ensures
        r@ == escape_seq(s@),
{
    let n = s.unicode_len();
    let mut out = String::new();
    let mut i: usize = 0;
    while i < n
        invariant
            i <= n,
            n == s@.len(),
            out@ == escape_seq(s@.subrange(0, i as int)),
        decreases n - i,
    {
        let c = s.get_char(i);
        proof {
            assert(s@.subrange(0, i + 1 as int).drop_last() =~= s@.subrange(0, i as int));
            assert(s@.subrange(0, i + 1 as int).last() == c);
        }
        if c == '"' {
            out.append("\\\"");
            proof {
                reveal_strlit("\\\"");
                assert("\\\""@ =~= esc_char(c));
            }
        } else if c == '\\' {
            out.append("\\\\");
            proof {
                reveal_strlit("\\\\");
                assert("\\\\"@ =~= esc_char(c));
            }
        } else if c == '\n' {
            out.append("\\n");
            proof {
                reveal_strlit("\\n");
                assert("\\n"@ =~= esc_char(c));
            }
        } else if c == '\r' {
            out.append("\\r");
            proof {
                reveal_strlit("\\r");
                assert("\\r"@ =~= esc_char(c));
            }
        } else if c == '\t' {
            out.append("\\t");
            proof {
                reveal_strlit("\\t");
                assert("\\t"@ =~= esc_char(c));
            }
        } else {
            let u = c as u32;
            if u < 32 {
                let ghost before = out@;
                out.append("\\u00");
                push_char(&mut out, hex_char(u / 16));
                push_char(&mut out, hex_char(u % 16));
                proof {
                    reveal_strlit("\\u00");
                    assert(out@ =~= before + esc_char(c));
                }
            } else {
                push_char(&mut out, c);
                proof {
                    assert(esc_char(c) =~= seq![c]);
                }
            }
        }
        i = i + 1;
    }
    proof {
        assert(s@.subrange(0, n as int) =~= s@);
    }
    out
}

// ---------------------------------------------------------------------------
// Encoding
// ---------------------------------------------------------------------------

/// The wire text of a server event: a tagged JSON object, the tag first, the
/// fields in schema order. String fields are escaped; the coordinates of a
/// move are spliced back in as the number text they arrived as.
pub open spec fn spec_encode(e: ServerEventData) -> Seq<char> {
    match e {
        ServerEventData::Spawn { id, model_url } => "{\"type\":\"Spawn\",\"id\":\""@ + escape_seq(
            id,
        ) + "\",\"model_url\":\""@ + escape_seq(model_url) + "\"}"@,
        ServerEventData::Move { id, x, y } => "{\"type\":\"Move\",\"id\":\""@ + escape_seq(id)
            + "\",\"x\":"@ + x + ",\"y\":"@ + y + "}"@,
        ServerEventData::Chat { id, message } => "{\"type\":\"Chat\",\"id\":\""@ + escape_seq(id)
            + "\",\"message\":\""@ + escape_seq(message) + "\"}"@,
    }
}

/// Encodes a server event into its wire text. Total: it never fails.
pub fn encode(e: &ServerEvent) -> (r: String)
    ensures
        r@ == spec_encode(e@),
{
    let mut out = String::new();
    match e {
        ServerEvent::Spawn { id, model_url } => {
            out.append("{\"type\":\"Spawn\",\"id\":\"");
            let eid = escape_json(id.as_str());
            out.append(eid.as_str());
            out.append("\",\"model_url\":\"");
            let emu = escape_json(model_url.as_str());
            out.append(emu.as_str());
            out.append("\"}");
            proof {
                assert(out@ =~= spec_encode(e@));
            }
        },
        ServerEvent::Move { id, x, y } => {
            out.append("{\"type\":\"Move\",\"id\":\"");
            let eid = escape_json(id.as_str());
            out.append(eid.as_str());
            out.append("\",\"x\":");
            out.append(x.as_str());
            out.append(",\"y\":");
            out.append(y.as_str());
            out.append("}");
            proof {
                assert(out@ =~= spec_encode(e@));
            }
        },
        ServerEvent::Chat { id, message } => {
            out.append("{\"type\":\"Chat\",\"id\":\"");
            let eid = escape_json(id.as_str());
            out.append(eid.as_str());
            out.append("\",\"message\":\"");
            let emsg = escape_json(message.as_str());
            out.append(emsg.as_str());
            out.append("\"}");
            proof {
                assert(out@ =~= spec_encode(e@));
            }
        },
    }
    out
}

// ---------------------------------------------------------------------------
// Decoding
// ---------------------------------------------------------------------------

/// What a post-handshake message means, given the shape of its JSON value.
pub open spec fn spec_decode_value(j: JsonData) -> Result<ClientMessageData, DecodeError> {
    match j {
        JsonData::Obj(m) => {
            if !m.contains_key("type"@) {
                Result::Err(DecodeError::MissingKind)
            } else {
                match m["type"@] {
                    JsonData::Str(kind) => {
                        if kind == "Move"@ {
                            if m.contains_key("x"@) && m.contains_key("y"@) {
                                match (m["x"@], m["y"@]) {
                                    (JsonData::Num(x), JsonData::Num(y)) => Result::Ok(
                                        ClientMessageData::Move { x, y },
                                    ),
                                    _ => Result::Err(DecodeError::BadPayload),
                                }
                            } else {
                                Result::Err(DecodeError::BadPayload)
                            }
                        } else if kind == "Chat"@ {
                            if m.contains_key("message"@) {
                                match m["message"@] {
                                    JsonData::Str(message) => Result::Ok(
                                        ClientMessageData::Chat { message },
                                    ),
                                    _ => Result::Err(DecodeError::BadPayload),
                                }
                            } else {
                                Result::Err(DecodeError::BadPayload)
                            }
                        } else {
                            Result::Err(DecodeError::UnknownKind)
                        }
                    },
                    _ => Result::Err(DecodeError::MissingKind),
                }
            }
        },
        _ => Result::Err(DecodeError::NotObject),
    }
}

/// What a post-handshake message text decodes to.
pub open spec fn spec_decode(s: Seq<char>) -> Result<ClientMessageData, DecodeError> {
    match json_of(s) {
        Option::None => Result::Err(DecodeError::Malformed),
        Option::Some(j) => spec_decode_value(j),
    }
}

/// Decodes one complete post-handshake message. The caller owes framing: the
/// text must be one whole logical message.
pub fn decode(s: &str) -> (r: Result<ClientMessage, DecodeError>)
    ensures
        match r {
            Ok(m) => spec_decode(s@) == Result::<ClientMessageData, DecodeError>::Ok(m@),
            Err(e) => spec_decode(s@) == Result::<ClientMessageData, DecodeError>::Err(e),
        },
{
    let v = match parse_json(s) {
        Some(v) => v,
        None => {
            return Err(DecodeError::Malformed);
        },
    };
    if !json_is_object(&v) {
        return Err(DecodeError::NotObject);
    }
    let kv = match json_get(&v, "type") {
        Some(x) => x,
        None => {
            return Err(DecodeError::MissingKind);
        },
    };
    let kind = match json_string(kv) {
        Some(x) => x,
        None => {
            return Err(DecodeError::MissingKind);
        },
    };
    if kind == "Move".to_owned() {
        let xv = match json_get(&v, "x") {
            Some(x) => x,
            None => {
                return Err(DecodeError::BadPayload);
            },
        };
        let x = match json_number_text(xv) {
            Some(t) => t,
            None => {
                return Err(DecodeError::BadPayload);
            },
        };
        let yv = match json_get(&v, "y") {
            Some(y) => y,
            None => {
                return Err(DecodeError::BadPayload);
            },
        };
        let y = match json_number_text(yv) {
            Some(t) => t,
            None => {
                return Err(DecodeError::BadPayload);
            },
        };
        Ok(ClientMessage::Move { x, y })
    } else if kind == "Chat".to_owned() {
        let mv = match json_get(&v, "message") {
            Some(x) => x,
            None => {
                return Err(DecodeError::BadPayload);
            },
        };
        let message = match json_string(mv) {
            Some(x) => x,
            None => {
                return Err(DecodeError::BadPayload);
            },
        };
        Ok(ClientMessage::Chat { message })
    } else {
        Err(DecodeError::UnknownKind)
    }
}

/// What a handshake text decodes to: the claimed identity and the canonical
/// text of the space's UUID.
pub open spec fn spec_decode_handshake(s: Seq<char>) -> Result<HandshakeData, HandshakeError> {
    match json_of(s) {
        Option::None => Result::Err(HandshakeError::Malformed),
        Option::Some(JsonData::Obj(m)) => {
            if m.contains_key("id"@) && m.contains_key("space_id"@) {
                match (m["id"@], m["space_id"@]) {
                    (JsonData::Str(idt), JsonData::Str(spt)) => {
                        match uuid_canon_of(spt) {
                            Option::Some(c) => Result::Ok(
                                HandshakeData { identity: idt, space: c },
                            ),
                            Option::None => Result::Err(HandshakeError::BadSpaceId),
                        }
                    },
                    _ => Result::Err(HandshakeError::MissingField),
                }
            } else {
                Result::Err(HandshakeError::MissingField)
            }
        },
        Option::Some(_) => Result::Err(HandshakeError::Malformed),
    }
}

/// Decodes the mandatory first message of a connection. A failure here ends
/// the connection before it is ever registered; `DuplicateIdentity` is never
/// returned by decoding, only by registration.
pub fn decode_handshake(s: &str) -> (r: Result<Handshake, HandshakeError>)
    ensures
        match r {
            Ok(h) => spec_decode_handshake(s@) == Result::<HandshakeData, HandshakeError>::Ok(h@),
            Err(e) => spec_decode_handshake(s@) == Result::<HandshakeData, HandshakeError>::Err(e),
        },
{
    let v = match parse_json(s) {
        Some(v) => v,
        None => {
            return Err(HandshakeError::Malformed);
        },
    };
    if !json_is_object(&v) {
        return Err(HandshakeError::Malformed);
    }
    let idv = match json_get(&v, "id") {
        Some(x) => x,
        None => {
            return Err(HandshakeError::MissingField);
        },
    };
    let identity = match json_string(idv) {
        Some(x) => x,
        None => {
            return Err(HandshakeError::MissingField);
        },
    };
    let spv = match json_get(&v, "space_id") {
        Some(x) => x,
        None => {
            return Err(HandshakeError::MissingField);
        },
    };
    let sptext = match json_string(spv) {
        Some(x) => x,
        None => {
            return Err(HandshakeError::MissingField);
        },
    };
    let space = match SpaceId::parse(sptext.as_str()) {
        Some(sp) => sp,
        None => {
            return Err(HandshakeError::BadSpaceId);
        },
    };
    Ok(Handshake { identity, space })
}

} // verus!
