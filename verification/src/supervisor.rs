//! Token interception and the hash-chained audit ledger.

pub mod chain;
pub mod digest;
pub mod interceptor;
pub mod ledger;
