//! Client library for the DhanHQ trading platform's live market feed.
//!
//! The verified core holds the binary packet codec, the JSON wire messages,
//! the subscription routing of the multi-connection feed manager and the
//! reconnect state machine of each connection slot.

pub mod constants;
pub mod error;
pub mod types;
pub mod ws;
