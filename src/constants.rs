//! Endpoints and limits of the DhanHQ API.

use vstd::prelude::*;

verus! {

/// Base URL for the DhanHQ REST API v2.
pub const API_BASE_URL: &'static str = "https://api.dhan.co";

/// Base URL for authentication endpoints.
pub const AUTH_BASE_URL: &'static str = "https://auth.dhan.co";

/// WebSocket endpoint for the live market feed (binary).
pub const WS_MARKET_FEED_URL: &'static str = "wss://api-feed.dhan.co";

/// WebSocket endpoint for live order updates (JSON).
pub const WS_ORDER_UPDATE_URL: &'static str = "wss://api-order-update.dhan.co";

/// Maximum concurrent WebSocket connections per user.
pub const MAX_CONNECTIONS: u8 = 5;

/// Maximum instruments per single connection.
pub const MAX_INSTRUMENTS_PER_CONNECTION: usize = 5000;

/// Maximum instruments per single subscribe or unsubscribe message.
pub const MAX_INSTRUMENTS_PER_SUBSCRIBE: usize = 100;

} // verus!
