//! An authenticated score registry: a single trusted oracle key signs score
//! updates for accounts, and anyone can read the stored score or a derived
//! trust decision.  Incoming updates are validated (range check, freshness
//! window, nonce-bound message digest, signature recovery) before they touch
//! persistent state; configuration changes are guarded by an owner check.

pub mod encode;
pub mod errors;
pub mod guard;
pub mod laws;
pub mod registry;
pub mod sig;
pub mod types;
