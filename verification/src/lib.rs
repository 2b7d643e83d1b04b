//! A reputation-management ledger for a collaborative knowledge platform.
//!
//! The crate tracks contributor identities, per-subject reputation scores,
//! issued credential tokens, disputes over score changes, recovery plans,
//! probation records, and analytics derived from all of the above. The whole
//! record store is held in one state value; every operation on it carries a
//! contract that pins down exactly which records change, which stay, and on
//! which inputs the operation fails with which error.
//!
//! Two collaborators stay outside the crate and are passed in as plain values:
//! the authorization provider (an `attested` flag on every mutating entry
//! point) and the ledger clock (a `now` timestamp in seconds, assumed
//! non-decreasing between calls).

pub mod idmap;
pub mod pairmap;
pub mod strmap;
pub mod types;
pub mod state;
pub mod identity;
pub mod reputation;
pub mod dispute;
pub mod recovery;
pub mod analytics;
pub mod laws;
