//! Session registry and scoped broadcast engine for a JSON-protocol relay
//! server: clients announce an identity and a space, then exchange move and
//! chat events with the other clients of the same space.
//!
//! The engine here is the verified core: the message codec, the session
//! registry, the broadcast router and the per-connection state machine.
//! Transport (sockets, tasks, locks) stays outside; it hands the engine one
//! decoded line of text at a time and drains each session's outbound queue.

pub mod codec;
pub mod handler;
pub mod json;
pub mod registry;
pub mod router;
pub mod space;
