//! The process-wide registry and lifecycle owner.
//!
//! One coordinator exists per gateway process.  It assigns session
//! identifiers at connection accept time, looks up or lazily creates the
//! poller for a canister when a session authenticates, and remembers which
//! (client id, canister id) pair each open session carries so that a
//! disconnect can clean up: delete the persisted record and notify the
//! canister.  Its host serializes calls into it, so two sessions racing to
//! create the poller for one canister are applied one after the other and
//! the second reuses what the first created.

use crate::poller::CanisterPoller;
use crate::session::GatewaySession;
use std::collections::HashMap;
use vstd::prelude::*;

verus! {

broadcast use vstd::std_specs::hash::group_hash_axioms;

/// What the coordinator must clean up when a session disconnects: the
/// client the session served and the canister it was registered with.
#[derive(Clone, Debug, PartialEq, Eq)]
pub struct ClientCanisterId {
    pub client_id: u64,
    pub canister_id: String,
}

/// Some poller in `pollers` serves the canister named `cid`.
pub open spec fn has_poller(pollers: Seq<CanisterPoller>, cid: Seq<char>) -> bool {
    exists|i: int| 0 <= i < pollers.len() && (#[trigger] pollers[i]).canister_id@ == cid
}

/// No two pollers serve the same canister.
pub open spec fn pollers_distinct(pollers: Seq<CanisterPoller>) -> bool {
    forall|i: int, j: int|
        0 <= i < pollers.len() && 0 <= j < pollers.len() && (#[trigger] pollers[i]).canister_id@
            == (#[trigger] pollers[j]).canister_id@ ==> i == j
}

/// The coordinator's registries: the next session identifier to hand out,
/// the poller per connected canister, and the per-session cleanup
/// bookkeeping.
#[derive(Debug)]
pub struct GatewayServer {
    pub next_session_id: u64,
    pub connected_canisters: Vec<CanisterPoller>,
    pub close_args: HashMap<u64, ClientCanisterId>,
}

impl GatewayServer {
    /// At most one poller per canister, for the process's whole life.
    pub open spec fn wf(&self) -> bool {
        pollers_distinct(self.connected_canisters@)
    }

    /// A fresh coordinator: no sessions handed out, no pollers, nothing to
    /// clean up.
    pub fn new() -> (s: Self)
        ensures
            s.next_session_id == 0,
            s.connected_canisters@ =~= Seq::<CanisterPoller>::empty(),
            s.close_args@ =~= Map::<u64, ClientCanisterId>::empty(),
            s.wf(),
    {
        GatewayServer {
            next_session_id: 0,
            connected_canisters: Vec::new(),
            close_args: HashMap::new(),
        }
    }

    /// Accepts a connection: assigns the next session identifier and
    /// constructs a session awaiting its handshake.  Identifiers are
    /// assigned in order and never reused.
    pub fn accept(&mut self) -> (s: GatewaySession)
        requires
            old(self).next_session_id < u64::MAX,
        ensures
            s.id == old(self).next_session_id,
            s.state is AwaitingHandshake,
            s.client_id is None,
            s.canister_id is None,
            s.wf(),
            final(self).next_session_id == old(self).next_session_id + 1,
            final(self).connected_canisters == old(self).connected_canisters,
            final(self).close_args == old(self).close_args,
            old(self).wf() ==> final(self).wf(),
    {
        let id = self.next_session_id;
        self.next_session_id = self.next_session_id + 1;
        GatewaySession::new(id)
    }

    /// The position of the poller serving `canister_id`, if one exists.
    fn find_poller(&self, canister_id: &String) -> (r: Option<usize>)
        ensures
            match r {
                Some(i) => i < self.connected_canisters@.len()
                    && self.connected_canisters@[i as int].canister_id@ == canister_id@,
                None => !has_poller(self.connected_canisters@, canister_id@),
            },
    {
        let n = self.connected_canisters.len();
        let mut i: usize = 0;
        while i < n
            invariant
                n == self.connected_canisters@.len(),
                0 <= i <= n,
                forall|j: int|
                    0 <= j < i ==> (#[trigger] self.connected_canisters@[j]).canister_id@
                        != canister_id@,
            decreases n - i,
        {
            if self.connected_canisters[i].canister_id == *canister_id {
                return Some(i);
            }
            i = i + 1;
        }
        None
    }

    /// Registers an authenticated session: records what to clean up at
    /// disconnect time, and routes the client to `session_id` in the
    /// poller for `canister_id`, creating that poller if the canister has
    /// none yet.  Returns true exactly when a poller was created, so the
    /// host knows to start its polling loop.
    pub fn register(&mut self, session_id: u64, client_id: u64, canister_id: String) -> (created:
        bool)
        requires
            old(self).wf(),
        ensures
            final(self).wf(),
            final(self).next_session_id == old(self).next_session_id,
            final(self).close_args@ == old(self).close_args@.insert(
                session_id,
                ClientCanisterId { client_id, canister_id },
            ),
            created == !has_poller(old(self).connected_canisters@, canister_id@),
            !created ==> {
                &&& final(self).connected_canisters@.len() == old(self).connected_canisters@.len()
                &&& exists|k: int|
                    {
                        &&& 0 <= k < old(self).connected_canisters@.len()
                        &&& (#[trigger] old(self).connected_canisters@[k]).canister_id@
                            == canister_id@
                        &&& final(self).connected_canisters@[k].canister_id == old(self).connected_canisters@[k].canister_id
                        &&& final(self).connected_canisters@[k].table@ == old(self).connected_canisters@[k].table@.insert(client_id, session_id)
                        &&& final(self).connected_canisters@[k].next_nonce == old(self).connected_canisters@[k].next_nonce
                        &&& forall|j: int|
                            0 <= j < old(self).connected_canisters@.len() && j != k ==> final(self).connected_canisters@[j] == old(self).connected_canisters@[j]
                    }
            },
            created ==> {
                &&& final(self).connected_canisters@.len() == old(self).connected_canisters@.len() + 1
                &&& forall|j: int|
                    0 <= j < old(self).connected_canisters@.len() ==> final(self).connected_canisters@[j] == old(self).connected_canisters@[j]
                &&& final(self).connected_canisters@.last().canister_id == canister_id
                &&& final(self).connected_canisters@.last().table@ == Map::<u64,
                    u64,
                >::empty().insert(client_id, session_id)
                &&& final(self).connected_canisters@.last().next_nonce == 0
            },
            exists|k: int|
                {
                    &&& 0 <= k < final(self).connected_canisters@.len()
                    &&& (#[trigger] final(self).connected_canisters@[k]).canister_id@
                        == canister_id@
                    &&& final(self).connected_canisters@[k].table@.contains_key(client_id)
                    &&& final(self).connected_canisters@[k].table@[client_id] == session_id
                },
    {
        let close_entry = ClientCanisterId { client_id, canister_id: canister_id.clone() };
        self.close_args.insert(session_id, close_entry);

        match self.find_poller(&canister_id) {
            Some(i) => {
                self.connected_canisters[i].add_session(client_id, session_id);
                proof {
                    assert(final(self).connected_canisters@[i as int].table@ == old(self).connected_canisters@[i as int].table@.insert(client_id, session_id));
                }
                false
            },
            None => {
                let mut poller = CanisterPoller::new(canister_id);
                poller.add_session(client_id, session_id);
                self.connected_canisters.push(poller);
                proof {
                    assert(final(self).connected_canisters@.last().table@ == Map::<u64,
                        u64,
                    >::empty().insert(client_id, session_id));
                }
                true
            },
        }
    }

    /// Removes and returns the cleanup bookkeeping for a disconnecting
    /// session, if its handshake ever completed: the host then deletes the
    /// client's persisted record and notifies the canister.  Calling this
    /// again for the same session finds nothing and changes nothing.
    pub fn on_disconnect(&mut self, session_id: u64) -> (r: Option<ClientCanisterId>)
        ensures
            final(self).next_session_id == old(self).next_session_id,
            final(self).connected_canisters == old(self).connected_canisters,
            old(self).wf() ==> final(self).wf(),
            old(self).close_args@.contains_key(session_id) ==> {
                &&& r == Some(old(self).close_args@[session_id])
                &&& final(self).close_args@ == old(self).close_args@.remove(session_id)
            },
            !old(self).close_args@.contains_key(session_id) ==> {
                &&& r is None
                &&& final(self).close_args@ == old(self).close_args@
            },
    {
        let r = self.close_args.remove(&session_id);
        proof {
            if !old(self).close_args@.contains_key(session_id) {
                assert(old(self).close_args@.remove(session_id) =~= old(self).close_args@);
            }
        }
        r
    }
}

/// A canister is served by at most one poller: two positions that name the
/// same canister are the same position.
pub proof fn lemma_at_most_one_poller(pollers: Seq<CanisterPoller>, i: int, j: int)
    requires
        pollers_distinct(pollers),
        0 <= i < pollers.len(),
        0 <= j < pollers.len(),
        pollers[i].canister_id@ == pollers[j].canister_id@,
    ensures
        i == j,
{
}

/// After a successful handshake is registered, the client is routed to
/// its session in exactly one poller: the poller for its canister holds
/// the entry, and no other poller serves that canister.
pub proof fn lemma_registered_in_exactly_one_poller(
    pollers: Seq<CanisterPoller>,
    cid: Seq<char>,
    client_id: u64,
    session_id: u64,
)
    requires
        pollers_distinct(pollers),
        exists|k: int|
            {
                &&& 0 <= k < pollers.len()
                &&& (#[trigger] pollers[k]).canister_id@ == cid
                &&& pollers[k].table@.contains_key(client_id)
                &&& pollers[k].table@[client_id] == session_id
            },
    ensures
        exists|k: int|
            {
                &&& 0 <= k < pollers.len()
                &&& (#[trigger] pollers[k]).canister_id@ == cid
                &&& pollers[k].table@.contains_key(client_id)
                &&& pollers[k].table@[client_id] == session_id
                &&& forall|j: int|
                    0 <= j < pollers.len() && j != k ==> (#[trigger] pollers[j]).canister_id@
                        != cid
            },
{
    let k = choose|k: int|
        {
            &&& 0 <= k < pollers.len()
            &&& (#[trigger] pollers[k]).canister_id@ == cid
            &&& pollers[k].table@.contains_key(client_id)
            &&& pollers[k].table@[client_id] == session_id
        };
    assert forall|j: int| 0 <= j < pollers.len() && j != k implies (#[trigger] pollers[j]).canister_id@
        != cid by {
        if pollers[j].canister_id@ == cid {
            lemma_at_most_one_poller(pollers, j, k);
        }
    }
}

/// Idempotent disconnect: after cleanup ran for a session, running it
/// again finds nothing to do and leaves the bookkeeping as it is.
pub proof fn lemma_disconnect_idempotent(m: Map<u64, ClientCanisterId>, session_id: u64)
    ensures
        !m.remove(session_id).contains_key(session_id),
        m.remove(session_id).remove(session_id) == m.remove(session_id),
{
    assert(m.remove(session_id).remove(session_id) =~= m.remove(session_id));
}

} // verus!
