//! The per-connection state machine: awaiting-handshake, active, terminated.
//! The transport runs one task per connection; each complete message text (or
//! the end of the stream) becomes one call of `conn_step` under the engine's
//! critical section. The step function decides everything — registration,
//! routing, cleanup — so the transport holds no protocol logic.

use vstd::prelude::*;
use vstd::string::*;

use crate::codec::{
    decode, decode_handshake, spec_decode, spec_decode_handshake, ClientMessage, ClientMessageData,
    spec_encode,
};
use crate::registry::{has_identity, remove_id, Registry, Session, SessionData, SinkData};
use crate::router::{route, server_event_of, spec_deliver, Event, EventData};
use crate::space::SpaceId;

verus! {

// ---------------------------------------------------------------------------
// States and inputs
// ---------------------------------------------------------------------------

/// One connection's lifecycle state. A session exists in the registry exactly
/// while its connection is `Active`.
pub enum ConnState {
    /// Nothing read yet: the next message must be the handshake.
    AwaitingHandshake,
    /// Handshaken and registered, under this identity and in this space.
    Active { identity: String, space: SpaceId },
    /// Terminal: the session, if one was registered, has been removed, and no
    /// further input is processed.
    Terminated,
}

/// The mathematical value of a `ConnState`.
pub enum ConnStateData {
    AwaitingHandshake,
    Active { identity: Seq<char>, space: Seq<char> },
    Terminated,
}

impl View for ConnState {
    type V = ConnStateData;

    open spec fn view(&self) -> ConnStateData {
        match self {
            ConnState::AwaitingHandshake => ConnStateData::AwaitingHandshake,
            ConnState::Active { identity, space } => ConnStateData::Active {
                identity: identity@,
                space: space@,
            },
            ConnState::Terminated => ConnStateData::Terminated,
        }
    }
}

/// One thing the transport can hand a connection's state machine: the text of
/// one complete logical message, or the end of the stream — a clean close
/// and a fatal transport error alike.
pub enum ConnInput {
    Text(String),
    Closed,
}

/// The mathematical value of a `ConnInput`.
pub enum ConnInputData {
    Text(Seq<char>),
    Closed,
}

impl View for ConnInput {
    type V = ConnInputData;

    open spec fn view(&self) -> ConnInputData {
        match self {
            ConnInput::Text(t) => ConnInputData::Text(t@),
            ConnInput::Closed => ConnInputData::Closed,
        }
    }
}

// ---------------------------------------------------------------------------
// The step, in the model
// ---------------------------------------------------------------------------

/// The session a successful handshake registers: nothing queued, sink open.
pub open spec fn new_session_data(identity: Seq<char>, space: Seq<char>) -> SessionData {
    SessionData { identity, space, sink: SinkData { queued: Seq::empty(), closed: false } }
}

/// The event one valid client message from `identity` becomes.
pub open spec fn event_of_message(m: ClientMessageData, identity: Seq<char>) -> EventData {
    match m {
        ClientMessageData::Move { x, y } => EventData::Move { identity, x, y },
        ClientMessageData::Chat { message } => EventData::Chat { identity, message },
    }
}

/// The line one valid client message from `identity` puts on recipients'
/// sinks.
pub open spec fn line_of_message(m: ClientMessageData, identity: Seq<char>) -> Seq<char> {
    spec_encode(server_event_of(event_of_message(m, identity)))
}

/// The line a join puts on recipients' sinks.
pub open spec fn join_line(identity: Seq<char>) -> Seq<char> {
    spec_encode(server_event_of(EventData::Join { identity }))
}

/// The next state of one connection and of the registry after one input.
///
/// Awaiting the handshake: a text that decodes and whose identity is free
/// registers the session and routes the join to its own space; a text that
/// fails to decode, an identity already held, or a closed stream terminates
/// the connection with the registry untouched. Active: a text that decodes
/// routes its event, scoped to the session's space; one that does not leaves
/// everything — state and registry — unchanged; a closed stream removes the
/// session, exactly once, and terminates. Terminated: nothing ever changes
/// again.
pub open spec fn spec_conn_step(
    st: ConnStateData,
    input: ConnInputData,
    ss: Seq<SessionData>,
) -> (ConnStateData, Seq<SessionData>) {
    match st {
        ConnStateData::AwaitingHandshake => match input {
            ConnInputData::Text(t) => match spec_decode_handshake(t) {
                Result::Ok(h) => if has_identity(ss, h.identity) {
                    (ConnStateData::Terminated, ss)
                } else {
                    (
                        ConnStateData::Active { identity: h.identity, space: h.space },
                        spec_deliver(
                            ss.push(new_session_data(h.identity, h.space)),
                            h.identity,
                            h.space,
                            join_line(h.identity),
                        ),
                    )
                },
                Result::Err(_) => (ConnStateData::Terminated, ss),
            },
            ConnInputData::Closed => (ConnStateData::Terminated, ss),
        },
        ConnStateData::Active { identity, space } => match input {
            ConnInputData::Text(t) => match spec_decode(t) {
                Result::Ok(m) => (st, spec_deliver(ss, identity, space, line_of_message(m, identity))),
                Result::Err(_) => (st, ss),
            },
            ConnInputData::Closed => (ConnStateData::Terminated, remove_id(ss, identity)),
        },
        ConnStateData::Terminated => (ConnStateData::Terminated, ss),
    }
}

// ---------------------------------------------------------------------------
// The step, executed
// ---------------------------------------------------------------------------

/// Advances one connection by one input, mutating the shared registry as the
/// lifecycle demands, and returns the connection's next state.
pub fn conn_step(st: ConnState, input: ConnInput, reg: &mut Registry) -> (next: ConnState)
    requires
        old(reg).wf(),
    ensures
        final(reg).wf(),
        (next@, final(reg)@) == spec_conn_step(st@, input@, old(reg)@),
{
    match st {
        ConnState::AwaitingHandshake => match input {
            ConnInput::Text(t) => match decode_handshake(t.as_str()) {
                Ok(h) => {
                    let identity = h.identity;
                    let space = h.space;
                    let session = Session::new(identity.clone(), space.clone());
                    match reg.register(session) {
                        Ok(_) => {
                            let ev = Event::Join { identity: identity.clone() };
                            let _report = route(reg, &ev, &space);
                            ConnState::Active { identity, space }
                        },
                        Err(_) => ConnState::Terminated,
                    }
                },
                Err(_) => ConnState::Terminated,
            },
            ConnInput::Closed => ConnState::Terminated,
        },
        ConnState::Active { identity, space } => match input {
            ConnInput::Text(t) => match decode(t.as_str()) {
                Ok(msg) => {
                    let ev = match msg {
                        ClientMessage::Move { x, y } => Event::Move {
                            identity: identity.clone(),
                            x,
                            y,
                        },
                        ClientMessage::Chat { message } => Event::Chat {
                            identity: identity.clone(),
                            message,
                        },
                    };
                    let _report = route(reg, &ev, &space);
                    ConnState::Active { identity, space }
                },
                Err(_) => ConnState::Active { identity, space },
            },
            ConnInput::Closed => {
                reg.remove(identity.as_str());
                ConnState::Terminated
            },
        },
        ConnState::Terminated => ConnState::Terminated,
    }
}

// ---------------------------------------------------------------------------
// Laws of the lifecycle
// ---------------------------------------------------------------------------

/// Law (malformed input resilience): a message that fails to decode does not
/// terminate the connection and does not affect any other client — the state
/// stays active and the registry, every session of it, is exactly as it was.
pub proof fn lemma_malformed_input_isolated(
    identity: Seq<char>,
    space: Seq<char>,
    t: Seq<char>,
    ss: Seq<SessionData>,
)
    requires
        spec_decode(t) is Err,
    ensures
        spec_conn_step(
            ConnStateData::Active { identity, space },
            ConnInputData::Text(t),
            ss,
        ) == (ConnStateData::Active { identity, space }, ss),
{
}

/// Law (no registration before a valid handshake): whatever input reaches a
/// connection that is still awaiting its handshake, the registry gains a
/// session only through a handshake that decodes and claims a free identity;
/// on every failure the registry is exactly as it was.
pub proof fn lemma_failed_handshake_touches_nothing(input: ConnInputData, ss: Seq<SessionData>)
    requires
        match input {
            ConnInputData::Text(t) => match spec_decode_handshake(t) {
                Result::Ok(h) => has_identity(ss, h.identity),
                Result::Err(_) => true,
            },
            ConnInputData::Closed => true,
        },
    ensures
        spec_conn_step(ConnStateData::AwaitingHandshake, input, ss) == (
            ConnStateData::Terminated,
            ss,
        ),
{
}

} // verus!
