//! Core of a serverless collaborative-editing session.
//!
//! Peers join each other directly; one side of a join becomes the other's
//! authority. This crate holds the protocol messages, the wire codec for
//! them, the membership state, and the decision logic of the session event
//! loop. All I/O (transport, timers, the user interface) lives with the
//! driver that embeds this library.

pub mod addr;
pub mod bytestr;
pub mod listing;
pub mod node;
pub mod protocol;
pub mod state;
pub mod wire;
