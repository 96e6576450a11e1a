//! Shared types of the DhanHQ API.

pub mod enums;
