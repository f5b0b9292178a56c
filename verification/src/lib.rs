//! A small in-memory key-value store with an optional forwarding (proxy) mode.
//!
//! The `store` module holds the associative container itself; the `router`
//! module decides, for each inbound operation, whether it is served locally
//! or relayed to an upstream node, and shapes the response either way.

pub mod router;
pub mod store;
