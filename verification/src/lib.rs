//! An account-keyed voting ledger: per-account saturating vote counters, an
//! aggregate total, and a threshold check, together with a small demonstration
//! contract built from the same account table.

pub mod counts;
pub mod hello;
pub mod voting;
