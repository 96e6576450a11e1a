//! The live market feed: packet codec, wire messages, subscription routing
//! and the per-connection reconnect state machine.

pub mod market_feed;
pub mod wire;
pub mod order_update;
pub mod manager;
pub mod connection;
