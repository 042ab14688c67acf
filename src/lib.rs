//! A cross-chain counter protocol: a channel handshake, a packet processor
//! that increments a per-channel counter, and an acknowledgement codec whose
//! success payload may ask the sender to run a local callback.
pub mod ack;
pub mod bytes;
pub mod callback;
pub mod contract;
pub mod error;
pub mod escape;
pub mod ibc;
pub mod msg;
pub mod number;
pub mod response;
pub mod store;
