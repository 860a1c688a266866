//! The per-connection handshake and relay state machine.
//!
//! A session is created in `AwaitingHandshake` when a connection is
//! accepted.  The first binary frame carries an authentication payload and
//! a signature; if the signature verifies against the public key the
//! canister holds for the claimed client id, the session opens exactly
//! once.  A failed handshake leaves the session awaiting another attempt.
//! A closed session is inert: every later operation on it is a no-op.

use crate::sigcheck::ed25519_verifies;
use crate::sigcheck::verify_client_signature;
use crate::wire::SessionData;
use vstd::prelude::*;

verus! {

/// Where a connection stands in its lifecycle.
#[derive(Clone, Copy, Debug, PartialEq, Eq, Structural)]
pub enum SessionState {
    AwaitingHandshake,
    Open,
    Closed,
}

/// What the session asks its host to do after a handshake attempt.
#[derive(Clone, Debug, PartialEq, Eq)]
pub enum HandshakeOutcome {
    /// The signature verified: persist `record`, register the session with
    /// the poller for its canister, and relay the canister's open call.
    Accepted { record: SessionData },
    /// The signature did not verify: send `response` to the client and
    /// change nothing else.
    Rejected { response: String },
    /// The session was not awaiting a handshake: do nothing.
    Ignored,
}

/// The structured error a client receives when its handshake signature
/// does not verify.
pub open spec fn invalid_signature_text() -> Seq<char> {
    "{\"status\":\"error\",\"message\":\"Invalid signature\"}"@
}

/// Builds the client-visible invalid-signature response.
pub fn invalid_signature_response() -> (r: String)
    ensures
        r@ == invalid_signature_text(),
{
    "{\"status\":\"error\",\"message\":\"Invalid signature\"}".to_owned()
}

/// One WebSocket connection's state: its process-local identifier and, once
/// the handshake succeeds, the client and canister it is bound to.
#[derive(Clone, Debug, PartialEq, Eq)]
pub struct GatewaySession {
    pub id: u64,
    pub state: SessionState,
    pub client_id: Option<u64>,
    pub canister_id: Option<String>,
}

impl GatewaySession {
    /// An open session knows which client and canister it serves.
    pub open spec fn wf(&self) -> bool {
        self.state is Open ==> self.client_id is Some && self.canister_id is Some
    }

    /// A fresh session, awaiting its handshake.
    pub fn new(id: u64) -> (s: Self)
        ensures
            s.id == id,
            s.state is AwaitingHandshake,
            s.client_id is None,
            s.canister_id is None,
            s.wf(),
    {
        GatewaySession { id, state: SessionState::AwaitingHandshake, client_id: None, canister_id: None }
    }

    /// Applies one handshake attempt whose signature check came out as
    /// `valid`.  Only a session awaiting its handshake changes: on success
    /// it opens and hands back the record to persist; on failure it stays
    /// as it was and hands back the error response; open and closed
    /// sessions ignore the attempt.
    pub fn handshake(&mut self, client_id: u64, canister_id: String, valid: bool, now: u64) -> (r:
        HandshakeOutcome)
        requires
            old(self).wf(),
        ensures
            final(self).id == old(self).id,
            final(self).wf(),
            old(self).state is AwaitingHandshake && valid ==> {
                &&& final(self).state is Open
                &&& final(self).client_id == Some(client_id)
                &&& final(self).canister_id == Some(canister_id)
                &&& r == (HandshakeOutcome::Accepted {
                    record: SessionData { client_id, canister_id, timestamp: now },
                })
            },
            old(self).state is AwaitingHandshake && !valid ==> {
                &&& *final(self) == *old(self)
                &&& r matches HandshakeOutcome::Rejected { response } && response@
                    == invalid_signature_text()
            },
            !(old(self).state is AwaitingHandshake) ==> *final(self) == *old(self) && r
                is Ignored,
    {
        match self.state {
            SessionState::AwaitingHandshake => {
                if valid {
                    let record_canister_id = canister_id.clone();
                    self.state = SessionState::Open;
                    self.client_id = Some(client_id);
                    self.canister_id = Some(canister_id);
                    HandshakeOutcome::Accepted {
                        record: SessionData {
                            client_id,
                            canister_id: record_canister_id,
                            timestamp: now,
                        },
                    }
                } else {
                    HandshakeOutcome::Rejected { response: invalid_signature_response() }
                }
            },
            _ => HandshakeOutcome::Ignored,
        }
    }

    /// Verifies the handshake signature over the authentication payload
    /// with the public key the canister holds for the client, then applies
    /// the attempt.  The outcome is fixed by what the verification
    /// primitive returns for these bytes.
    pub fn process_handshake(
        &mut self,
        payload: &Vec<u8>,
        signature: &Vec<u8>,
        public_key: &Vec<u8>,
        client_id: u64,
        canister_id: String,
        now: u64,
    ) -> (r: HandshakeOutcome)
        requires
            old(self).wf(),
        ensures
            final(self).id == old(self).id,
            final(self).wf(),
            old(self).state is AwaitingHandshake && ed25519_verifies(
                public_key@,
                payload@,
                signature@,
            ) ==> {
                &&& final(self).state is Open
                &&& final(self).client_id == Some(client_id)
                &&& final(self).canister_id == Some(canister_id)
                &&& r == (HandshakeOutcome::Accepted {
                    record: SessionData { client_id, canister_id, timestamp: now },
                })
            },
            old(self).state is AwaitingHandshake && !ed25519_verifies(
                public_key@,
                payload@,
                signature@,
            ) ==> {
                &&& *final(self) == *old(self)
                &&& r matches HandshakeOutcome::Rejected { response } && response@
                    == invalid_signature_text()
            },
            !(old(self).state is AwaitingHandshake) ==> *final(self) == *old(self) && r
                is Ignored,
    {
        let valid = verify_client_signature(public_key, payload, signature);
        self.handshake(client_id, canister_id, valid, now)
    }

    /// Whether a steady-state binary frame may be relayed to the canister.
    pub fn can_relay(&self) -> (r: bool)
        ensures
            r == (self.state is Open),
    {
        match self.state {
            SessionState::Open => true,
            _ => false,
        }
    }

    /// Marks the session closed; from here on it is inert.
    pub fn close(&mut self)
        ensures
            final(self).state is Closed,
            final(self).id == old(self).id,
            final(self).client_id == old(self).client_id,
            final(self).canister_id == old(self).canister_id,
            final(self).wf(),
    {
        self.state = SessionState::Closed;
    }
}

} // verus!
