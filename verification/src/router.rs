//! The broadcast router: given an event and its originating space, it encodes
//! the event once, determines the recipient set — every session of that
//! space but the sender — and queues the encoded line on each open
//! recipient's sink. Delivery is per-recipient independent: a dead sink is
//! counted and reported, never an error to the sender, and never a reason to
//! skip another recipient. The router never removes a session; only the
//! session's own handler does.

use vstd::prelude::*;
use vstd::string::*;

use crate::codec::{ServerEvent, ServerEventData, encode, spec_encode};
use crate::registry::{Registry, SessionData, SinkData, str_eq};
use crate::space::SpaceId;

verus! {

// ---------------------------------------------------------------------------
// Events
// ---------------------------------------------------------------------------

/// An ephemeral description of a state change, produced by a connection
/// handler from one valid client message and consumed by the one broadcast it
/// triggers.
pub enum Event {
    Join { identity: String },
    Move { identity: String, x: String, y: String },
    Chat { identity: String, message: String },
}

/// The mathematical value of an `Event`.
pub enum EventData {
    Join { identity: Seq<char> },
    Move { identity: Seq<char>, x: Seq<char>, y: Seq<char> },
    Chat { identity: Seq<char>, message: Seq<char> },
}

impl View for Event {
    type V = EventData;

    open spec fn view(&self) -> EventData {
        match self {
            Event::Join { identity } => EventData::Join { identity: identity@ },
            Event::Move { identity, x, y } => EventData::Move {
                identity: identity@,
                x: x@,
                y: y@,
            },
            Event::Chat { identity, message } => EventData::Chat {
                identity: identity@,
                message: message@,
            },
        }
    }
}

/// The identity that produced the event.
pub open spec fn sender_of(e: EventData) -> Seq<char> {
    match e {
        EventData::Join { identity } => identity,
        EventData::Move { identity, .. } => identity,
        EventData::Chat { identity, .. } => identity,
    }
}

/// The server event announcing `e` to the rest of its space. A join is
/// announced as a spawn; the minimal handshake carries no model, so the
/// spawn's `model_url` is empty.
pub open spec fn server_event_of(e: EventData) -> ServerEventData {
    match e {
        EventData::Join { identity } => ServerEventData::Spawn {
            id: identity,
            model_url: Seq::empty(),
        },
        EventData::Move { identity, x, y } => ServerEventData::Move { id: identity, x, y },
        EventData::Chat { identity, message } => ServerEventData::Chat { id: identity, message },
    }
}

fn to_server_event(e: &Event) -> (r: ServerEvent)
    ensures
        r@ == server_event_of(e@),
{
    match e {
        Event::Join { identity } => ServerEvent::Spawn {
            id: identity.clone(),
            model_url: String::new(),
        },
        Event::Move { identity, x, y } => ServerEvent::Move {
            id: identity.clone(),
            x: x.clone(),
            y: y.clone(),
        },
        Event::Chat { identity, message } => ServerEvent::Chat {
            id: identity.clone(),
            message: message.clone(),
        },
    }
}

fn sender_text(e: &Event) -> (r: &str)
    ensures
        r@ == sender_of(e@),
{
    match e {
        Event::Join { identity } => identity.as_str(),
        Event::Move { identity, .. } => identity.as_str(),
        Event::Chat { identity, .. } => identity.as_str(),
    }
}

// ---------------------------------------------------------------------------
// Spec-level broadcast
// ---------------------------------------------------------------------------

/// Whether `s` is in the recipient set of a broadcast from `sender` scoped to
/// `space`: in the space and not the sender.
pub open spec fn is_recipient(s: SessionData, sender: Seq<char>, space: Seq<char>) -> bool {
    s.space == space && s.identity != sender
}

/// One session after a broadcast: an open recipient's sink gains the line;
/// every other session — other spaces, the sender, closed sinks — is
/// untouched.
pub open spec fn deliver_one(
    s: SessionData,
    sender: Seq<char>,
    space: Seq<char>,
    line: Seq<char>,
) -> SessionData {
    if is_recipient(s, sender, space) && !s.sink.closed {
        SessionData { sink: SinkData { queued: s.sink.queued.push(line), ..s.sink }, ..s }
    } else {
        s
    }
}

/// The whole registry after one broadcast.
pub open spec fn spec_deliver(
    ss: Seq<SessionData>,
    sender: Seq<char>,
    space: Seq<char>,
    line: Seq<char>,
) -> Seq<SessionData> {
    ss.map_values(|s: SessionData| deliver_one(s, sender, space, line))
}

/// The recipients a broadcast fails for — those whose sink is closed — by
/// identity, in registry order.
pub open spec fn failed_ids(ss: Seq<SessionData>, sender: Seq<char>, space: Seq<char>) -> Seq<
    Seq<char>,
> {
    ss.filter(|s: SessionData| is_recipient(s, sender, space) && s.sink.closed).map_values(
        |s: SessionData| s.identity,
    )
}

/// How many recipients a broadcast reaches.
pub open spec fn delivered_count(ss: Seq<SessionData>, sender: Seq<char>, space: Seq<char>) -> int {
    ss.filter(|s: SessionData| is_recipient(s, sender, space) && !s.sink.closed).len() as int
}

/// What one broadcast reports back: how many sinks took the line, and the
/// identities whose delivery failed. The report is informational — a
/// per-recipient failure is never surfaced to the event's originator, and the
/// affected session is left for its own handler to terminate.
pub struct DeliveryReport {
    pub delivered: usize,
    pub failed: Vec<String>,
}

// ---------------------------------------------------------------------------
// The router
// ---------------------------------------------------------------------------

/// Routes one event to its space: encodes it once and delivers the line to
/// every open recipient's sink, tolerating closed sinks per recipient.
pub fn route(reg: &mut Registry, event: &Event, space: &SpaceId) -> (report: DeliveryReport)
    requires
        old(reg).wf(),
    ensures
        final(reg).wf(),
        final(reg)@ == spec_deliver(
            old(reg)@,
            sender_of(event@),
            space@,
            spec_encode(server_event_of(event@)),
        ),
        report.failed@.map_values(|l: String| l@) == failed_ids(
            old(reg)@,
            sender_of(event@),
            space@,
        ),
        report.delivered == delivered_count(old(reg)@, sender_of(event@), space@),
{
    let se = to_server_event(event);
    let line = encode(&se);
    let sender = sender_text(event);
    let ghost gsender = sender_of(event@);
    let ghost gline = spec_encode(server_event_of(event@));
    let ghost pred = |s: SessionData| is_recipient(s, gsender, space@) && s.sink.closed;
    let ghost dpred = |s: SessionData| is_recipient(s, gsender, space@) && !s.sink.closed;
    let mut failed: Vec<String> = Vec::new();
    let mut delivered: usize = 0;
    let n = reg.sessions.len();
    let mut i: usize = 0;
    proof {
        reveal(Seq::filter);
        assert(old(reg)@.subrange(0, 0) =~= Seq::<SessionData>::empty());
    }
    while i < n
        invariant
            i <= n,
            n == reg@.len(),
            reg@.len() == old(reg)@.len(),
            old(reg).wf(),
            line@ == gline,
            sender@ == gsender,
            gsender == sender_of(event@),
            gline == spec_encode(server_event_of(event@)),
            pred == (|s: SessionData| is_recipient(s, gsender, space@) && s.sink.closed),
            dpred == (|s: SessionData| is_recipient(s, gsender, space@) && !s.sink.closed),
            forall|j: int| i <= j < n ==> reg@[j] == old(reg)@[j],
            forall|j: int|
                0 <= j < i ==> reg@[j] == deliver_one(old(reg)@[j], gsender, space@, gline),
            failed@.map_values(|l: String| l@) == old(reg)@.subrange(0, i as int).filter(
                pred,
            ).map_values(|s: SessionData| s.identity),
            delivered == old(reg)@.subrange(0, i as int).filter(dpred).len(),
        decreases n - i,
    {
        let ghost rpre = reg@;
        let ghost pre = old(reg)@.subrange(0, i as int);
        let ghost pre1 = old(reg)@.subrange(0, i as int + 1);
        proof {
            assert(pre1.drop_last() =~= pre);
            assert(pre1.last() == old(reg)@[i as int]);
        }
        let recip = reg.sessions[i].space.same(space) && !str_eq(
            reg.sessions[i].identity.as_str(),
            sender,
        );
        proof {
            assert(reg@[i as int] == old(reg)@[i as int]);
            assert(recip == is_recipient(old(reg)@[i as int], gsender, space@));
        }
        if recip {
            if reg.sessions[i].sink.closed {
                let ghost failed0 = failed@;
                failed.push(reg.sessions[i].identity.clone());
                proof {
                    reveal(Seq::filter);
                    assert(pred(pre1.last()));
                    assert(pre1.filter(pred) == pre.filter(pred).push(old(reg)@[i as int]));
                    assert(pre1.filter(dpred) == pre.filter(dpred));
                    assert(failed@.map_values(|l: String| l@) =~= failed0.map_values(
                        |l: String| l@,
                    ).push(old(reg)@[i as int].identity));
                    assert(pre1.filter(pred).map_values(|s: SessionData| s.identity) =~= pre.filter(
                        pred,
                    ).map_values(|s: SessionData| s.identity).push(old(reg)@[i as int].identity));
                    assert(reg@[i as int] == deliver_one(old(reg)@[i as int], gsender, space@, gline));
                }
            } else {
                reg.sessions[i].sink.queued.push(line.clone());
                delivered = delivered + 1;
                proof {
                    reveal(Seq::filter);
                    assert(reg@.len() == rpre.len());
                    assert forall|j: int| 0 <= j < n && j != i as int implies reg@[j]
                        == rpre[j] by {}
                    assert(reg@[i as int].sink.queued =~= rpre[i as int].sink.queued.push(gline));
                    assert(reg@[i as int] == deliver_one(old(reg)@[i as int], gsender, space@, gline));
                    assert(dpred(pre1.last()));
                    assert(pre1.filter(pred) == pre.filter(pred));
                    assert(pre1.filter(dpred) == pre.filter(dpred).push(old(reg)@[i as int]));
                    pre.lemma_filter_len(dpred);
                }
            }
        } else {
            proof {
                reveal(Seq::filter);
                assert(!pred(pre1.last()) && !dpred(pre1.last()));
                assert(pre1.filter(pred) == pre.filter(pred));
                assert(pre1.filter(dpred) == pre.filter(dpred));
                assert(reg@[i as int] == deliver_one(old(reg)@[i as int], gsender, space@, gline));
            }
        }
        proof {
            assert forall|j: int|
                0 <= j < i as int + 1 implies reg@[j] == deliver_one(
                old(reg)@[j],
                gsender,
                space@,
                gline,
            ) by {
                if j < i as int {
                    assert(rpre[j] == deliver_one(old(reg)@[j], gsender, space@, gline));
                    assert(reg@[j] == rpre[j]);
                }
            }
            assert forall|j: int| i as int + 1 <= j < n implies reg@[j] == old(reg)@[j] by {
                assert(reg@[j] == rpre[j]);
            }
        }
        i = i + 1;
    }
    proof {
        assert(old(reg)@.subrange(0, n as int) =~= old(reg)@);
        assert(reg@ =~= spec_deliver(old(reg)@, gsender, space@, gline));
        assert forall|a: int, b: int| 0 <= a < b < reg@.len() implies reg@[a].identity
            != reg@[b].identity by {
            assert(reg@[a].identity == old(reg)@[a].identity);
            assert(reg@[b].identity == old(reg)@[b].identity);
        }
    }
    DeliveryReport { delivered, failed }
}

// ---------------------------------------------------------------------------
// Laws of broadcast
// ---------------------------------------------------------------------------

/// Law (scoping): a broadcast scoped to one space queues its line on every
/// open recipient of that space and touches no session of any other space,
/// nor the sender's own.
pub proof fn lemma_scoped_delivery(
    ss: Seq<SessionData>,
    sender: Seq<char>,
    space: Seq<char>,
    line: Seq<char>,
    i: int,
)
    requires
        0 <= i < ss.len(),
    ensures
        spec_deliver(ss, sender, space, line).len() == ss.len(),
        is_recipient(ss[i], sender, space) && !ss[i].sink.closed ==> spec_deliver(
            ss,
            sender,
            space,
            line,
        )[i].sink.queued == ss[i].sink.queued.push(line),
        ss[i].space != space ==> spec_deliver(ss, sender, space, line)[i] == ss[i],
        ss[i].identity == sender ==> spec_deliver(ss, sender, space, line)[i] == ss[i],
{
}

/// Law (isolation of delivery failure): delivery to an open recipient does
/// not depend on any other session's sink. In one broadcast that also targets
/// a closed recipient, the open one still receives the line, the closed one's
/// queue is untouched, and the failure lands in the report's identities —
/// never with the sender, whose session the broadcast leaves alone.
pub proof fn lemma_delivery_failure_isolated(
    ss: Seq<SessionData>,
    sender: Seq<char>,
    space: Seq<char>,
    line: Seq<char>,
    i: int,
    j: int,
)
    requires
        0 <= i < ss.len(),
        0 <= j < ss.len(),
        i != j,
        is_recipient(ss[i], sender, space),
        !ss[i].sink.closed,
        is_recipient(ss[j], sender, space),
        ss[j].sink.closed,
    ensures
        spec_deliver(ss, sender, space, line)[i].sink.queued == ss[i].sink.queued.push(line),
        spec_deliver(ss, sender, space, line)[j].sink.queued == ss[j].sink.queued,
        failed_ids(ss, sender, space).contains(ss[j].identity),
{
    let pred = |s: SessionData| is_recipient(s, sender, space) && s.sink.closed;
    assert(pred(ss[j]));
    ss.lemma_filter_contains(pred, j);
    let f = ss.filter(pred);
    let k = choose|k: int| 0 <= k < f.len() && f[k] == ss[j];
    assert(f.map_values(|s: SessionData| s.identity)[k] == ss[j].identity);
}

/// Law (order preservation): two broadcasts from one sender append to an open
/// recipient's queue in emission order — every recipient that receives both
/// lines receives the first one first.
pub proof fn lemma_order_preserved(
    ss: Seq<SessionData>,
    sender: Seq<char>,
    space: Seq<char>,
    first: Seq<char>,
    second: Seq<char>,
    i: int,
)
    requires
        0 <= i < ss.len(),
        is_recipient(ss[i], sender, space),
        !ss[i].sink.closed,
    ensures
        spec_deliver(spec_deliver(ss, sender, space, first), sender, space, second)[i].sink.queued
            == ss[i].sink.queued.push(first).push(second),
{
    let once = spec_deliver(ss, sender, space, first);
    assert(once[i] == deliver_one(ss[i], sender, space, first));
    assert(spec_deliver(once, sender, space, second)[i] == deliver_one(
        once[i],
        sender,
        space,
        second,
    ));
}

} // verus!
