//! Reliable broadcast for a fixed cluster of nodes.
//!
//! The crate implements two message-driven state machines and the thin
//! runtime that owns them:
//!
//! * a provable-broadcast primitive (`pb`): a single sender collects
//!   partial signatures from echoing peers and combines them once a
//!   threshold of distinct signers is reached;
//! * a Bracha-style reliable-broadcast protocol (`rb`): initial, echo and
//!   vote phases drive every correct node to deliver the same value per
//!   originator and round;
//! * the runtime (`runtime`): packet dispatch, round bookkeeping and the
//!   store of each peer's latest proposed value (`store`).
//!
//! Addresses and rounds are plain unsigned integers — the protocol only
//! ever compares them and tests cluster membership — and values are byte
//! strings compared by content.
//!
//! Every transition is specified against a mathematical model of the node
//! state, and the protocol-level laws (delivery integrity, quorum
//! agreement, threshold exactness, idempotence of packet handling) are
//! proved in `laws`.

pub mod bytes;
pub mod crypto;
pub mod laws;
pub mod pb;
pub mod rb;
pub mod runtime;
pub mod store;
pub mod table;
