//! Verified core of a WebSocket-to-canister gateway.
//!
//! The gateway bridges ordinary WebSocket clients and a remote "canister"
//! that exposes a call interface and a pollable outbound message log.  This
//! crate holds the logic that decides what the gateway does: the
//! per-connection handshake and relay state machine, the per-canister
//! polling fan-out engine, and the coordinator's routing bookkeeping.
//! Network transport, persistence and task scheduling live outside, and are
//! handed plain values by this library.

pub mod coordinator;
pub mod keys;
pub mod poller;
pub mod session;
pub mod sigcheck;
pub mod wire;
