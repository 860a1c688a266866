//! Wire-level data shapes exchanged with the canister and the session store.
//!
//! Each executable type has a mathematical model (`View`) over sequences of
//! characters and bytes; the contracts of the rest of the library speak of
//! these models.

use vstd::prelude::*;

verus! {

/// A client-to-canister application message as the canister's interface
/// declares it.
#[derive(Clone, Debug, PartialEq, Eq)]
pub struct WebsocketMessage {
    pub client_id: u64,
    pub sequence_num: u64,
    pub timestamp: u64,
    pub message: Vec<u8>,
}

/// One outbound message fetched from the canister's message log.
#[derive(Clone, Debug, PartialEq, Eq)]
pub struct EncodedMessage {
    pub client_id: u64,
    pub key: String,
    pub val: Vec<u8>,
}

/// One poll result: an ordered batch of outbound messages together with a
/// single certificate and proof tree covering the whole batch.
#[derive(Clone, Debug, PartialEq, Eq)]
pub struct CertMessages {
    pub messages: Vec<EncodedMessage>,
    pub cert: Vec<u8>,
    pub tree: Vec<u8>,
}

/// The frame delivered to a client: one outbound message with the batch's
/// certificate and proof tree attached, forwarded opaquely.
#[derive(Clone, Debug, PartialEq, Eq)]
pub struct CertMessage {
    pub key: String,
    pub val: Vec<u8>,
    pub cert: Vec<u8>,
    pub tree: Vec<u8>,
}

/// The record persisted for an authenticated client, used only to recover
/// bookkeeping after a process restart.
#[derive(Clone, Debug, PartialEq, Eq)]
pub struct SessionData {
    pub client_id: u64,
    pub canister_id: String,
    pub timestamp: u64,
}

/// Model of a `WebsocketMessage`.
pub struct WebsocketMessageModel {
    pub client_id: u64,
    pub sequence_num: u64,
    pub timestamp: u64,
    pub message: Seq<u8>,
}

/// Model of an `EncodedMessage`.
pub struct MessageModel {
    pub client_id: u64,
    pub key: Seq<char>,
    pub val: Seq<u8>,
}

/// Model of a `CertMessages` batch.
pub struct BatchModel {
    pub messages: Seq<MessageModel>,
    pub cert: Seq<u8>,
    pub tree: Seq<u8>,
}

/// Model of a `CertMessage` frame.
pub struct CertMessageModel {
    pub key: Seq<char>,
    pub val: Seq<u8>,
    pub cert: Seq<u8>,
    pub tree: Seq<u8>,
}

/// Model of a `SessionData` record.
pub struct SessionDataModel {
    pub client_id: u64,
    pub canister_id: Seq<char>,
    pub timestamp: u64,
}

/// Whether a persisted record names the given canister.
pub fn session_record_matches(record: &SessionData, canister_id: &String) -> (r: bool)
    ensures
        r == (record.canister_id@ == canister_id@),
{
    record.canister_id == *canister_id
}

/// A fresh byte vector with the same contents.
pub fn copy_bytes(v: &Vec<u8>) -> (r: Vec<u8>)
    ensures
        r@ == v@,
{
    let mut r: Vec<u8> = Vec::new();
    let mut i: usize = 0;
    while i < v.len()
        invariant
            0 <= i <= v.len(),
            r@ == v@.take(i as int),
        decreases v.len() - i,
    {
        r.push(v[i]);
        proof {
            assert(r@ =~= v@.take(i + 1));
        }
        i = i + 1;
    }
    proof {
        assert(v@.take(v@.len() as int) =~= v@);
    }
    r
}

impl View for WebsocketMessage {
    type V = WebsocketMessageModel;

    open spec fn view(&self) -> WebsocketMessageModel {
        WebsocketMessageModel {
            client_id: self.client_id,
            sequence_num: self.sequence_num,
            timestamp: self.timestamp,
            message: self.message@,
        }
    }
}

impl View for EncodedMessage {
    type V = MessageModel;

    open spec fn view(&self) -> MessageModel {
        MessageModel { client_id: self.client_id, key: self.key@, val: self.val@ }
    }
}

impl View for CertMessages {
    type V = BatchModel;

    open spec fn view(&self) -> BatchModel {
        BatchModel {
            messages: self.messages@.map_values(|m: EncodedMessage| m@),
            cert: self.cert@,
            tree: self.tree@,
        }
    }
}

impl View for CertMessage {
    type V = CertMessageModel;

    open spec fn view(&self) -> CertMessageModel {
        CertMessageModel { key: self.key@, val: self.val@, cert: self.cert@, tree: self.tree@ }
    }
}

impl View for SessionData {
    type V = SessionDataModel;

    open spec fn view(&self) -> SessionDataModel {
        SessionDataModel {
            client_id: self.client_id,
            canister_id: self.canister_id@,
            timestamp: self.timestamp,
        }
    }
}

} // verus!
