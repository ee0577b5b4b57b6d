//! The session registry: the shared table of all live sessions, keyed by
//! identity. Registration is an atomic check-and-insert, removal is
//! idempotent, and a snapshot yields the sessions of one space. The caller
//! (one critical section around the whole engine) serialises access; nothing
//! here performs I/O, so the critical section never spans a network call.

use vstd::prelude::*;
use vstd::string::*;

use crate::space::SpaceId;

verus! {

// ---------------------------------------------------------------------------
// Sessions and their sinks
// ---------------------------------------------------------------------------

/// The outbound side of one connection, as the engine sees it: the lines
/// queued for the transport to write, and whether the transport has reported
/// the connection dead. A closed sink accepts no further deliveries.
pub struct Sink {
    pub queued: Vec<String>,
    pub closed: bool,
}

/// The mathematical value of a `Sink`.
pub struct SinkData {
    pub queued: Seq<Seq<char>>,
    pub closed: bool,
}

impl View for Sink {
    type V = SinkData;

    open spec fn view(&self) -> SinkData {
        SinkData { queued: self.queued@.map_values(|l: String| l@), closed: self.closed }
    }
}

/// The live server-side state of one connected, handshaken client: its
/// identity, the one space it belongs to for its whole lifetime, and its
/// outbound sink.
pub struct Session {
    pub identity: String,
    pub space: SpaceId,
    pub sink: Sink,
}

/// The mathematical value of a `Session`.
pub struct SessionData {
    pub identity: Seq<char>,
    pub space: Seq<char>,
    pub sink: SinkData,
}

impl View for Session {
    type V = SessionData;

    open spec fn view(&self) -> SessionData {
        SessionData { identity: self.identity@, space: self.space@, sink: self.sink@ }
    }
}

impl Session {
    /// A fresh session: nothing queued, sink open.
    pub fn new(identity: String, space: SpaceId) -> (r: Session)
        ensures
            r@ == (SessionData {
                identity: identity@,
                space: space@,
                sink: SinkData { queued: Seq::empty(), closed: false },
            }),
    {
        let r = Session { identity, space, sink: Sink { queued: Vec::new(), closed: false } };
        proof {
            assert(r@.sink.queued =~= Seq::<Seq<char>>::empty());
        }
        r
    }

    /// The identity this session registered under.
    pub fn identity(&self) -> (r: &str)
        ensures
            r@ == self@.identity,
    {
        self.identity.as_str()
    }
}

// ---------------------------------------------------------------------------
// Spec-level registry model
// ---------------------------------------------------------------------------

/// Whether some session of `ss` holds `id`.
pub open spec fn has_identity(ss: Seq<SessionData>, id: Seq<char>) -> bool {
    exists|i: int| 0 <= i < ss.len() && ss[i].identity == id
}

/// At most one session per identity.
pub open spec fn ids_unique(ss: Seq<SessionData>) -> bool {
    forall|i: int, j: int| 0 <= i < j < ss.len() ==> ss[i].identity != ss[j].identity
}

/// The registry after removing `id`: every session but the holder of `id`,
/// in order.
pub open spec fn remove_id(ss: Seq<SessionData>, id: Seq<char>) -> Seq<SessionData> {
    ss.filter(|s: SessionData| s.identity != id)
}

/// The index of the session holding `id`, where one exists.
pub open spec fn idx_of(ss: Seq<SessionData>, id: Seq<char>) -> int {
    choose|i: int| 0 <= i < ss.len() && ss[i].identity == id
}

/// The sessions of `ss` in `space`, in registry order.
pub open spec fn space_sessions(ss: Seq<SessionData>, space: Seq<char>) -> Seq<SessionData> {
    ss.filter(|s: SessionData| s.space == space)
}

/// The identities of the sessions of `ss` in `space`, in registry order.
pub open spec fn idents_in_space(ss: Seq<SessionData>, space: Seq<char>) -> Seq<Seq<char>> {
    space_sessions(ss, space).map_values(|s: SessionData| s.identity)
}

/// A session with its outbound queue handed over to the transport.
pub open spec fn drained_session(s: SessionData) -> SessionData {
    SessionData { sink: SinkData { queued: Seq::empty(), ..s.sink }, ..s }
}

/// A session whose transport has reported the connection dead.
pub open spec fn closed_session(s: SessionData) -> SessionData {
    SessionData { sink: SinkData { closed: true, ..s.sink }, ..s }
}

// ---------------------------------------------------------------------------
// Filter lemmas
// ---------------------------------------------------------------------------

proof fn lemma_filter_all_pass<A>(s: Seq<A>, pred: spec_fn(A) -> bool)
    requires
        forall|i: int| 0 <= i < s.len() ==> pred(s[i]),
    ensures
        s.filter(pred) == s,
    decreases s.len(),
{
    reveal(Seq::filter);
    if s.len() == 0 {
        assert(s.filter(pred) =~= s);
    } else {
        lemma_filter_all_pass(s.drop_last(), pred);
        assert(pred(s.last()));
        assert(s.filter(pred) =~= s);
    }
}

proof fn lemma_remove_id_at(ss: Seq<SessionData>, id: Seq<char>, idx: int)
    requires
        0 <= idx < ss.len(),
        ss[idx].identity == id,
        forall|j: int| 0 <= j < ss.len() && j != idx ==> ss[j].identity != id,
    ensures
        remove_id(ss, id) == ss.remove(idx),
    decreases ss.len(),
{
    reveal(Seq::filter);
    let pred = |s: SessionData| s.identity != id;
    if idx == ss.len() - 1 {
        lemma_filter_all_pass(ss.drop_last(), pred);
        assert(remove_id(ss, id) =~= ss.remove(idx));
    } else {
        lemma_remove_id_at(ss.drop_last(), id, idx);
        assert(ss.drop_last().remove(idx).push(ss.last()) =~= ss.remove(idx));
        assert(remove_id(ss, id) =~= ss.remove(idx));
    }
}

/// Law: removing an identity that no session holds changes nothing.
pub proof fn lemma_remove_absent(ss: Seq<SessionData>, id: Seq<char>)
    requires
        !has_identity(ss, id),
    ensures
        remove_id(ss, id) == ss,
{
    lemma_filter_all_pass(ss, |s: SessionData| s.identity != id);
}

/// Law: removal is idempotent; removing twice is removing once.
pub proof fn lemma_remove_idempotent(ss: Seq<SessionData>, id: Seq<char>)
    ensures
        remove_id(remove_id(ss, id), id) == remove_id(ss, id),
{
    let pred = |s: SessionData| s.identity != id;
    let once = remove_id(ss, id);
    assert forall|i: int| 0 <= i < once.len() implies pred(once[i]) by {
        ss.lemma_filter_pred(pred, i);
    }
    lemma_filter_all_pass(once, pred);
}

// ---------------------------------------------------------------------------
// The registry
// ---------------------------------------------------------------------------

/// Returned by `register` when another live session already holds the
/// identity: first registration wins, the second fails without mutating
/// anything.
#[derive(Clone, Copy, Debug, PartialEq, Eq, Structural)]
pub struct DuplicateIdentity;

/// The shared table of all live sessions. Invariant: at most one session per
/// identity, at any instant.
pub struct Registry {
    pub sessions: Vec<Session>,
}

impl View for Registry {
    type V = Seq<SessionData>;

    open spec fn view(&self) -> Seq<SessionData> {
        self.sessions@.map_values(|s: Session| s@)
    }
}

/// Whether two texts are the same sequence of characters.
pub fn str_eq(a: &str, b: &str) -> (r: bool)
    ensures
        r == (a@ == b@),
{
    let sa = a.to_owned();
    let sb = b.to_owned();
    sa == sb
}

impl Registry {
    /// The registry's invariant: identities are unique.
    pub open spec fn wf(&self) -> bool {
        ids_unique(self@)
    }

    /// An empty registry.
    pub fn new() -> (r: Registry)
        ensures
            r@ == Seq::<SessionData>::empty(),
            r.wf(),
    {
        let r = Registry { sessions: Vec::new() };
        proof {
            assert(r@ =~= Seq::<SessionData>::empty());
        }
        r
    }

    /// How many sessions are live.
    pub fn len(&self) -> (r: usize)
        ensures
            r == self@.len(),
    {
        self.sessions.len()
    }

    /// Whether some live session holds `identity`.
    pub fn contains_identity(&self, identity: &str) -> (r: bool)
        ensures
            r == has_identity(self@, identity@),
    {
        let n = self.sessions.len();
        let mut i: usize = 0;
        while i < n
            invariant
                i <= n,
                n == self@.len(),
                forall|j: int| 0 <= j < i ==> self@[j].identity != identity@,
            decreases n - i,
        {
            if str_eq(self.sessions[i].identity.as_str(), identity) {
                proof {
                    assert(self@[i as int].identity == identity@);
                }
                return true;
            }
            i = i + 1;
        }
        false
    }

    /// Inserts `session` iff no live session holds its identity; otherwise
    /// fails without mutating anything. The check and the insert are one
    /// step: under the engine's critical section the first registration wins
    /// and the second fails.
    pub fn register(&mut self, session: Session) -> (r: Result<(), DuplicateIdentity>)
        requires
            old(self).wf(),
        ensures
            final(self).wf(),
            match r {
                Ok(_) => !has_identity(old(self)@, session@.identity) && final(self)@ == old(
                    self,
                )@.push(session@),
                Err(_) => has_identity(old(self)@, session@.identity) && final(self)@ == old(
                    self,
                )@,
            },
    {
        let n = self.sessions.len();
        let mut i: usize = 0;
        while i < n
            invariant
                i <= n,
                n == self@.len(),
                *self == *old(self),
                old(self).wf(),
                forall|j: int| 0 <= j < i ==> self@[j].identity != session@.identity,
            decreases n - i,
        {
            if str_eq(self.sessions[i].identity.as_str(), session.identity.as_str()) {
                proof {
                    assert(self@[i as int].identity == session@.identity);
                }
                return Err(DuplicateIdentity);
            }
            i = i + 1;
        }
        self.sessions.push(session);
        proof {
            assert(self@ =~= old(self)@.push(session@));
        }
        Ok(())
    }

    /// Removes the session holding `identity`, if any. Idempotent: removing
    /// an absent identity is a no-op, not an error.
    pub fn remove(&mut self, identity: &str)
        requires
            old(self).wf(),
        ensures
            final(self).wf(),
            final(self)@ == remove_id(old(self)@, identity@),
    {
        let n = self.sessions.len();
        let mut i: usize = 0;
        while i < n
            invariant
                i <= n,
                n == self@.len(),
                *self == *old(self),
                old(self).wf(),
                forall|j: int| 0 <= j < i ==> self@[j].identity != identity@,
            decreases n - i,
        {
            if str_eq(self.sessions[i].identity.as_str(), identity) {
                proof {
                    assert(self@[i as int].identity == identity@);
                    assert forall|j: int|
                        0 <= j < self@.len() && j != i as int implies self@[j].identity
                        != identity@ by {
                        if j > i as int {
                            assert(old(self)@[i as int].identity != old(self)@[j].identity);
                        }
                    }
                    lemma_remove_id_at(self@, identity@, i as int);
                }
                self.sessions.remove(i);
                proof {
                    assert(self@ =~= old(self)@.remove(i as int));
                    assert(old(self)@.remove(i as int) =~= old(self)@.subrange(0, i as int) + old(
                        self,
                    )@.subrange(i + 1 as int, old(self)@.len() as int));
                }
                return ;
            }
            i = i + 1;
        }
        proof {
            assert(!has_identity(self@, identity@));
            lemma_remove_absent(self@, identity@);
        }
    }

    /// A point-in-time view of the sessions of one space: their identities,
    /// in registry order.
    pub fn snapshot_for_space(&self, space: &SpaceId) -> (r: Vec<String>)
        ensures
            r@.map_values(|l: String| l@) == idents_in_space(self@, space@),
    {
        let mut out: Vec<String> = Vec::new();
        let n = self.sessions.len();
        let mut i: usize = 0;
        proof {
            reveal(Seq::filter);
            assert(self@.subrange(0, 0) =~= Seq::<SessionData>::empty());
        }
        while i < n
            invariant
                i <= n,
                n == self@.len(),
                out@.map_values(|l: String| l@) == idents_in_space(
                    self@.subrange(0, i as int),
                    space@,
                ),
            decreases n - i,
        {
            proof {
                assert(self@.subrange(0, i as int + 1).drop_last() =~= self@.subrange(0, i as int));
                assert(self@.subrange(0, i as int + 1).last() == self@[i as int]);
            }
            if self.sessions[i].space.same(space) {
                let ghost out0 = out@;
                let ghost pre = self@.subrange(0, i as int);
                let ghost pre1 = self@.subrange(0, i as int + 1);
                out.push(self.sessions[i].identity.clone());
                proof {
                    reveal(Seq::filter);
                    assert(self@[i as int].space == space@);
                    assert(space_sessions(pre1, space@) == space_sessions(pre, space@).push(
                        self@[i as int],
                    ));
                    assert(out@.last()@ == self@[i as int].identity);
                    assert(out@.map_values(|l: String| l@) =~= out0.map_values(
                        |l: String| l@,
                    ).push(self@[i as int].identity));
                    assert(idents_in_space(pre1, space@) =~= idents_in_space(pre, space@).push(
                        self@[i as int].identity,
                    ));
                    assert(out@.map_values(|l: String| l@) == idents_in_space(pre1, space@));
                }
            } else {
                proof {
                    reveal(Seq::filter);
                    assert(self@[i as int].space != space@);
                    assert(space_sessions(self@.subrange(0, i as int + 1), space@)
                        == space_sessions(self@.subrange(0, i as int), space@));
                    assert(out@.map_values(|l: String| l@) =~= idents_in_space(
                        self@.subrange(0, i as int + 1),
                        space@,
                    ));
                }
            }
            i = i + 1;
        }
        proof {
            assert(self@.subrange(0, n as int) =~= self@);
        }
        out
    }

    /// Hands the lines queued for `identity` to the transport, leaving the
    /// queue empty. On an absent identity nothing changes and nothing is
    /// returned.
    pub fn take_queued(&mut self, identity: &str) -> (r: Vec<String>)
        requires
            old(self).wf(),
        ensures
            final(self).wf(),
            final(self)@.len() == old(self)@.len(),
            forall|j: int|
                0 <= j < final(self)@.len() ==> #[trigger] final(self)@[j] == (if old(
                    self,
                )@[j].identity == identity@ {
                    drained_session(old(self)@[j])
                } else {
                    old(self)@[j]
                }),
            has_identity(old(self)@, identity@) ==> r@.map_values(|l: String| l@) == old(
                self,
            )@[idx_of(old(self)@, identity@)].sink.queued,
            !has_identity(old(self)@, identity@) ==> r@.len() == 0,
    {
        let n = self.sessions.len();
        let mut i: usize = 0;
        while i < n
            invariant
                i <= n,
                n == self@.len(),
                *self == *old(self),
                old(self).wf(),
                forall|j: int| 0 <= j < i ==> self@[j].identity != identity@,
            decreases n - i,
        {
            if str_eq(self.sessions[i].identity.as_str(), identity) {
                proof {
                    assert(self@[i as int].identity == identity@);
                }
                let mut q: Vec<String> = Vec::new();
                core::mem::swap(&mut self.sessions[i].sink.queued, &mut q);
                proof {
                    assert(q@.map_values(|l: String| l@) == old(self)@[i as int].sink.queued);
                    assert(self@[i as int].sink.queued =~= Seq::<Seq<char>>::empty());
                    assert(self@[i as int] == drained_session(old(self)@[i as int]));
                    assert(has_identity(old(self)@, identity@));
                    let k = idx_of(old(self)@, identity@);
                    assert(0 <= k < old(self)@.len() && old(self)@[k].identity == identity@);
                    if k != i as int {
                        assert(old(self)@[k].identity != old(self)@[i as int].identity);
                        assert(false);
                    }
                    assert forall|j: int| 0 <= j < self@.len() && j != i as int implies self@[j]
                        == old(self)@[j] by {}
                    assert forall|a: int, b: int| 0 <= a < b < self@.len() implies self@[a].identity
                        != self@[b].identity by {
                        assert(self@[a].identity == old(self)@[a].identity);
                        assert(self@[b].identity == old(self)@[b].identity);
                    }
                }
                return q;
            }
            i = i + 1;
        }
        Vec::new()
    }

    /// Records that the transport found `identity`'s connection dead: its
    /// sink stops accepting deliveries. The session itself stays until its
    /// own handler removes it.
    pub fn mark_closed(&mut self, identity: &str)
        requires
            old(self).wf(),
        ensures
            final(self).wf(),
            final(self)@.len() == old(self)@.len(),
            forall|j: int|
                0 <= j < final(self)@.len() ==> #[trigger] final(self)@[j] == (if old(
                    self,
                )@[j].identity == identity@ {
                    closed_session(old(self)@[j])
                } else {
                    old(self)@[j]
                }),
    {
        let n = self.sessions.len();
        let mut i: usize = 0;
        while i < n
            invariant
                i <= n,
                n == self@.len(),
                *self == *old(self),
                old(self).wf(),
                forall|j: int| 0 <= j < i ==> self@[j].identity != identity@,
            decreases n - i,
        {
            if str_eq(self.sessions[i].identity.as_str(), identity) {
                proof {
                    assert(self@[i as int].identity == identity@);
                }
                self.sessions[i].sink.closed = true;
                proof {
                    assert(self@[i as int].sink.queued =~= closed_session(
                        old(self)@[i as int],
                    ).sink.queued);
                    assert(self@[i as int] == closed_session(old(self)@[i as int]));
                    assert forall|j: int| 0 <= j < self@.len() && j != i as int implies self@[j]
                        == old(self)@[j] by {}
                    assert forall|a: int, b: int| 0 <= a < b < self@.len() implies self@[a].identity
                        != self@[b].identity by {
                        assert(self@[a].identity == old(self)@[a].identity);
                        assert(self@[b].identity == old(self)@[b].identity);
                    }
                }
                return ;
            }
            i = i + 1;
        }
    }
}

} // verus!
