//! The Polkadot-specific part of a node's network service, as a verified state machine.
//!
//! It gossips the statements of validators on parachain candidates, fetches the block data of
//! candidates from the validators that have it, and lets collators and validators find each other.
//!
//! [`PolkadotProtocol`] holds the state. Each event (a peer connects, a message comes in, a session
//! starts) is a method that changes the state and returns the [`action::Action`]s that the node is
//! to perform, in their order. Where an action has a reply, its documentation names the method
//! that takes it. What each event does is stated in [`model`], on mathematical values; what follows
//! from it for the protocol as a whole is stated and proved in [`laws`].
use vstd::prelude::*;

pub mod action;
pub mod bytes;
pub mod codec;
pub mod key_table;
pub mod knowledge;
pub mod laws;
pub mod message;
pub mod model;
pub mod primitives;
pub mod protocol;
pub mod status;

pub use knowledge::Knowledge;
pub use message::Message;
pub use protocol::PolkadotProtocol;
pub use status::Status;

verus! {

/// Polkadot protocol id: the letters "dot".
pub const DOT_PROTOCOL_ID: [u8; 3] = [100, 111, 116];

} // verus!
