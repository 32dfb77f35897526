//! A donation-ledger core.
//!
//! The library tracks a registry of payee organizations ("shelters"),
//! accepts donations either earmarked for one shelter or pooled across all
//! active shelters, deducts a fixed-percentage platform fee, and lets
//! shelters withdraw their accrued balance.
//!
//! The host environment that authenticates callers, holds the actual value
//! in custody, and delivers notification events is out of scope: every
//! operation takes the caller identity and any attached value as plain
//! arguments and returns the notification records it would emit.

pub mod errors;
pub mod events;
pub mod fees;
pub mod pool;
