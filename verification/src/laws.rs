//! What holds of the protocol as a whole.
pub mod collators;
pub mod dispatch;
pub mod effects;
pub mod invariants;
pub mod knowledge;
pub mod peers;
pub mod responses;
pub mod runs;
pub mod views;
pub mod wire;
