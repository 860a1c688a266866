//! The per-canister polling fan-out engine.
//!
//! One poller exists per canister in use.  Its host loop repeatedly fetches
//! a batch of outbound messages and hands it to `process_batch`, which
//! turns the batch into deliveries for the live sessions in the routing
//! table and advances the poll nonce past the highest sequence number the
//! batch carried.  Delivery is best-effort and at-most-once: a message for
//! an unknown client is dropped, and a malformed message key skips only
//! that message.

use crate::keys::key_sequence_num;
use crate::keys::parse_key_sequence;
use crate::wire::CertMessage;
use crate::wire::CertMessageModel;
use crate::wire::CertMessages;
use crate::wire::EncodedMessage;
use crate::wire::MessageModel;
use crate::wire::copy_bytes;
use std::collections::HashMap;
use vstd::prelude::*;

verus! {

broadcast use vstd::std_specs::hash::group_hash_axioms;

/// One frame to hand to a live session.
#[derive(Clone, Debug, PartialEq, Eq)]
pub struct Delivery {
    pub client_id: u64,
    pub session_id: u64,
    pub frame: CertMessage,
}

/// Model of a `Delivery`.
pub struct DeliveryModel {
    pub client_id: u64,
    pub session_id: u64,
    pub frame: CertMessageModel,
}

impl View for Delivery {
    type V = DeliveryModel;

    open spec fn view(&self) -> DeliveryModel {
        DeliveryModel {
            client_id: self.client_id,
            session_id: self.session_id,
            frame: self.frame@,
        }
    }
}

/// A message reaches a session when its key carries a sequence number and
/// its client id is in the routing table.
pub open spec fn routed(table: Map<u64, u64>, m: MessageModel) -> bool {
    key_sequence_num(m.key) is Some && table.contains_key(m.client_id)
}

/// The frame a routed message becomes: the message with the batch's
/// certificate and proof tree attached, addressed to the registered
/// session.
pub open spec fn delivery_of(
    table: Map<u64, u64>,
    m: MessageModel,
    cert: Seq<u8>,
    tree: Seq<u8>,
) -> DeliveryModel {
    DeliveryModel {
        client_id: m.client_id,
        session_id: table[m.client_id],
        frame: CertMessageModel { key: m.key, val: m.val, cert, tree },
    }
}

/// The deliveries one batch produces, in the canister's order: one per
/// routed message, skipping messages for unknown clients and messages with
/// malformed keys.
pub open spec fn fan_out(
    table: Map<u64, u64>,
    msgs: Seq<MessageModel>,
    cert: Seq<u8>,
    tree: Seq<u8>,
) -> Seq<DeliveryModel>
    decreases msgs.len(),
{
    if msgs.len() == 0 {
        Seq::<DeliveryModel>::empty()
    } else {
        let rest = fan_out(table, msgs.drop_last(), cert, tree);
        if routed(table, msgs.last()) {
            rest.push(delivery_of(table, msgs.last(), cert, tree))
        } else {
            rest
        }
    }
}

/// The highest sequence number among the batch's well-formed keys, if any.
pub open spec fn highest_seq(msgs: Seq<MessageModel>) -> Option<u64>
    decreases msgs.len(),
{
    if msgs.len() == 0 {
        None::<u64>
    } else {
        let rest = highest_seq(msgs.drop_last());
        match key_sequence_num(msgs.last().key) {
            None => rest,
            Some(s) => match rest {
                None => Some(s),
                Some(h) => Some(if h >= s { h } else { s }),
            },
        }
    }
}

/// The nonce after a batch: one past the highest sequence number observed,
/// never moving backwards, and saturating at the largest nonce.
pub open spec fn nonce_after(old_nonce: u64, msgs: Seq<MessageModel>) -> u64 {
    match highest_seq(msgs) {
        None => old_nonce,
        Some(s) => if s == u64::MAX {
            u64::MAX
        } else if s + 1 > old_nonce {
            (s + 1) as u64
        } else {
            old_nonce
        },
    }
}

/// One canister's fan-out state: the routing table from canister-scoped
/// client ids to live session ids, and the poll cursor.
#[derive(Debug)]
pub struct CanisterPoller {
    pub canister_id: String,
    pub table: HashMap<u64, u64>,
    pub next_nonce: u64,
}

impl CanisterPoller {
    /// A fresh poller for `canister_id`: no routed clients, polling from
    /// the start of the canister's message log.
    pub fn new(canister_id: String) -> (p: Self)
        ensures
            p.canister_id == canister_id,
            p.table@ == Map::<u64, u64>::empty(),
            p.next_nonce == 0,
    {
        CanisterPoller { canister_id, table: HashMap::new(), next_nonce: 0 }
    }

    /// Registers `session_id` as the live session for `client_id`,
    /// replacing whatever session held that client id before.
    pub fn add_session(&mut self, client_id: u64, session_id: u64)
        ensures
            final(self).canister_id == old(self).canister_id,
            final(self).next_nonce == old(self).next_nonce,
            final(self).table@ == old(self).table@.insert(client_id, session_id),
    {
        self.table.insert(client_id, session_id);
    }

    /// Turns one polled batch into deliveries for the registered sessions,
    /// in the canister's order, and advances the nonce past the highest
    /// sequence number the batch carried.  Messages for unrouted clients
    /// and messages with malformed keys are dropped.
    pub fn process_batch(&mut self, batch: CertMessages) -> (r: Vec<Delivery>)
        ensures
            final(self).canister_id == old(self).canister_id,
            final(self).table@ == old(self).table@,
            final(self).next_nonce == nonce_after(old(self).next_nonce, batch@.messages),
            old(self).next_nonce <= final(self).next_nonce,
            r@.map_values(|d: Delivery| d@) == fan_out(
                old(self).table@,
                batch@.messages,
                batch@.cert,
                batch@.tree,
            ),
    {
        let ghost msgs = batch@.messages;
        let ghost cert = batch@.cert;
        let ghost tree = batch@.tree;

        let mut out: Vec<Delivery> = Vec::new();
        let mut hs: Option<u64> = None;
        let n = batch.messages.len();
        let mut i: usize = 0;
        while i < n
            invariant
                *self == *old(self),
                n == batch.messages.len(),
                0 <= i <= n,
                msgs == batch@.messages,
                cert == batch@.cert,
                tree == batch@.tree,
                out@.map_values(|d: Delivery| d@) == fan_out(
                    self.table@,
                    msgs.take(i as int),
                    cert,
                    tree,
                ),
                hs == highest_seq(msgs.take(i as int)),
            decreases n - i,
        {
            let m: &EncodedMessage = &batch.messages[i];
            proof {
                assert(msgs[i as int] == batch.messages@[i as int]@);
                assert(msgs.take(i + 1).drop_last() =~= msgs.take(i as int));
                assert(msgs.take(i + 1).last() == msgs[i as int]);
            }
            match parse_key_sequence(m.key.as_str()) {
                Err(_) => {
                    // Malformed key: skip only this message.
                    assert(!routed(self.table@, msgs[i as int]));
                },
                Ok(seq_num) => {
                    hs = match hs {
                        None => Some(seq_num),
                        Some(h) => Some(if h >= seq_num {
                            h
                        } else {
                            seq_num
                        }),
                    };
                    match self.table.get(&m.client_id) {
                        Some(session_id) => {
                            let d = Delivery {
                                client_id: m.client_id,
                                session_id: *session_id,
                                frame: CertMessage {
                                    key: m.key.clone(),
                                    val: copy_bytes(&m.val),
                                    cert: copy_bytes(&batch.cert),
                                    tree: copy_bytes(&batch.tree),
                                },
                            };
                            proof {
                                assert(d@ == delivery_of(self.table@, msgs[i as int], cert, tree));
                            }
                            let ghost prev = out@;
                            out.push(d);
                            proof {
                                assert(out@.map_values(|x: Delivery| x@) =~= prev.map_values(
                                    |x: Delivery| x@,
                                ).push(d@));
                            }
                        },
                        None => {
                            // No live session for this client: drop the message.
                            assert(!routed(self.table@, msgs[i as int]));
                        },
                    }
                },
            }
            i = i + 1;
        }
        proof {
            assert(msgs.take(n as int) =~= msgs);
        }
        match hs {
            None => {},
            Some(s) => {
                if s == u64::MAX {
                    self.next_nonce = u64::MAX;
                } else if s + 1 > self.next_nonce {
                    self.next_nonce = s + 1;
                }
            },
        }
        out
    }
}

/// Every delivery of a batch goes to the session the routing table holds
/// for its client at fan-out time.
pub proof fn lemma_delivery_routing(
    table: Map<u64, u64>,
    msgs: Seq<MessageModel>,
    cert: Seq<u8>,
    tree: Seq<u8>,
)
    ensures
        forall|i: int|
            0 <= i < fan_out(table, msgs, cert, tree).len() ==> {
                let d = #[trigger] fan_out(table, msgs, cert, tree)[i];
                table.contains_key(d.client_id) && d.session_id == table[d.client_id]
            },
    decreases msgs.len(),
{
    if msgs.len() > 0 {
        lemma_delivery_routing(table, msgs.drop_last(), cert, tree);
        let rest = fan_out(table, msgs.drop_last(), cert, tree);
        let f = fan_out(table, msgs, cert, tree);
        assert forall|i: int| 0 <= i < f.len() implies {
            let d = #[trigger] f[i];
            table.contains_key(d.client_id) && d.session_id == table[d.client_id]
        } by {
            if i < rest.len() {
                assert(f[i] == rest[i]);
            } else {
                assert(routed(table, msgs.last()));
                assert(f[i] == delivery_of(table, msgs.last(), cert, tree));
            }
        }
    }
}

/// Dead-letter dropping: a message addressed to a client id with no entry
/// in the routing table is never delivered.
pub proof fn lemma_dead_letter(
    table: Map<u64, u64>,
    msgs: Seq<MessageModel>,
    cert: Seq<u8>,
    tree: Seq<u8>,
    client_id: u64,
)
    requires
        !table.contains_key(client_id),
    ensures
        forall|i: int|
            0 <= i < fan_out(table, msgs, cert, tree).len() ==> (#[trigger] fan_out(
                table,
                msgs,
                cert,
                tree,
            )[i]).client_id != client_id,
{
    lemma_delivery_routing(table, msgs, cert, tree);
}

/// Reconnect overwrite: once a client id is re-registered to a new
/// session, every later delivery for that client goes to the new session
/// and the prior session receives none of them.
pub proof fn lemma_reconnect_overwrite(
    table: Map<u64, u64>,
    msgs: Seq<MessageModel>,
    cert: Seq<u8>,
    tree: Seq<u8>,
    client_id: u64,
    new_session: u64,
)
    ensures
        forall|i: int|
            0 <= i < fan_out(table.insert(client_id, new_session), msgs, cert, tree).len() ==> {
                let d = #[trigger] fan_out(table.insert(client_id, new_session), msgs, cert, tree)[i];
                d.client_id == client_id ==> d.session_id == new_session
            },
{
    lemma_delivery_routing(table.insert(client_id, new_session), msgs, cert, tree);
}

/// The deliveries of a batch addressed to one client, in delivery order.
pub open spec fn client_deliveries(ds: Seq<DeliveryModel>, client_id: u64) -> Seq<DeliveryModel>
    decreases ds.len(),
{
    if ds.len() == 0 {
        Seq::<DeliveryModel>::empty()
    } else {
        let rest = client_deliveries(ds.drop_last(), client_id);
        if ds.last().client_id == client_id {
            rest.push(ds.last())
        } else {
            rest
        }
    }
}

/// The messages of a batch that reach one client, in the canister's order.
pub open spec fn client_messages(
    table: Map<u64, u64>,
    msgs: Seq<MessageModel>,
    client_id: u64,
) -> Seq<MessageModel>
    decreases msgs.len(),
{
    if msgs.len() == 0 {
        Seq::<MessageModel>::empty()
    } else {
        let rest = client_messages(table, msgs.drop_last(), client_id);
        if msgs.last().client_id == client_id && routed(table, msgs.last()) {
            rest.push(msgs.last())
        } else {
            rest
        }
    }
}

/// Per-client order preservation: the stream a fixed client receives from
/// one batch is exactly its routed messages, in the order the canister
/// returned them.
pub proof fn lemma_per_client_order(
    table: Map<u64, u64>,
    msgs: Seq<MessageModel>,
    cert: Seq<u8>,
    tree: Seq<u8>,
    client_id: u64,
)
    ensures
        client_deliveries(fan_out(table, msgs, cert, tree), client_id) == client_messages(
            table,
            msgs,
            client_id,
        ).map_values(|m: MessageModel| delivery_of(table, m, cert, tree)),
    decreases msgs.len(),
{
    let f = fan_out(table, msgs, cert, tree);
    if msgs.len() == 0 {
        assert(client_deliveries(f, client_id) =~= client_messages(
            table,
            msgs,
            client_id,
        ).map_values(|m: MessageModel| delivery_of(table, m, cert, tree)));
    } else {
        lemma_per_client_order(table, msgs.drop_last(), cert, tree, client_id);
        let fd = fan_out(table, msgs.drop_last(), cert, tree);
        let last = msgs.last();
        if routed(table, last) {
            let d = delivery_of(table, last, cert, tree);
            assert(f == fd.push(d));
            assert(f.drop_last() =~= fd);
            assert(f.last() == d);
            if last.client_id == client_id {
                assert(client_deliveries(f, client_id) == client_deliveries(
                    fd,
                    client_id,
                ).push(d));
                assert(client_messages(table, msgs, client_id) == client_messages(
                    table,
                    msgs.drop_last(),
                    client_id,
                ).push(last));
                assert(client_messages(table, msgs, client_id).map_values(
                    |m: MessageModel| delivery_of(table, m, cert, tree),
                ) =~= client_messages(table, msgs.drop_last(), client_id).map_values(
                    |m: MessageModel| delivery_of(table, m, cert, tree),
                ).push(d));
            } else {
                assert(client_deliveries(f, client_id) == client_deliveries(fd, client_id));
                assert(client_messages(table, msgs, client_id) == client_messages(
                    table,
                    msgs.drop_last(),
                    client_id,
                ));
            }
        } else {
            assert(f == fd);
            assert(client_messages(table, msgs, client_id) == client_messages(
                table,
                msgs.drop_last(),
                client_id,
            ));
        }
    }
}

/// Nonce advance: after a batch whose highest observed sequence number is
/// `s`, the next poll uses `s + 1`.
pub proof fn lemma_nonce_advance(old_nonce: u64, msgs: Seq<MessageModel>, s: u64)
    requires
        highest_seq(msgs) == Some(s),
        s < u64::MAX,
        old_nonce <= s + 1,
    ensures
        nonce_after(old_nonce, msgs) == s + 1,
{
}

} // verus!
