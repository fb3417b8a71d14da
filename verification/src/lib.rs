//! Resilient market-data subscription stream: the decisions of a self-healing
//! websocket client, stated with contracts and proved.
//!
//! The crate holds the reconnect state machine with its exponential backoff,
//! the per-frame decoding policy of the order-book feed, and the subscription
//! request that opens every session. Sockets, timers and the async runtime live
//! with the caller, which feeds the state machine events and carries out the
//! actions it answers with.

pub mod numbers;
pub mod backoff;
pub mod decimal;
pub mod error;
pub mod event;
pub mod json;
pub mod decode;
pub mod client;
pub mod driver;
