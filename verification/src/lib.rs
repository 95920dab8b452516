//! In-memory control plane for a pub/sub bridge: a registry of discovered
//! topics with rolling statistics, a store of bounded subscriptions, and the
//! pure dispatch decisions of the command loop.

pub mod bridge;
pub mod clock;
pub mod dispatch;
pub mod registry;
pub mod sample;
pub mod store;
