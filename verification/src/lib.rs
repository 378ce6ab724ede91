//! Policy enforcement and audit ledger for supervised text generation.
//!
//! A validated policy ([`constitution`]) yields a denylist, the
//! [`supervisor::interceptor`] drops denied tokens from a generated answer, and
//! the [`supervisor::ledger`] records every exchange in a SHA-256 hash chain
//! whose laws are proved in [`supervisor::chain`]. The text itself comes from
//! an untrusted runtime behind the interface in [`runtime_bridge`].

pub mod constitution;
pub mod ratio;
pub mod runtime_bridge;
pub mod supervisor;
