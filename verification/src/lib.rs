//! A delegated value ledger.
//!
//! The crate models an account-balance store with direct transfers,
//! spender-delegated transfers governed by time-bounded allowances,
//! irreversible supply reduction (burn), and a parallel registry of
//! uniquely identified items with admin-gated minting.
//!
//! Persistence, signature verification and the host clock are external
//! collaborators: every operation takes its durable state as an explicit
//! store value, the set of principals that sanctioned the invocation as an
//! [`auth::AuthGate`], and the current ledger ordinal as a plain argument.
//! Each mutating operation either commits all of its writes or leaves the
//! store exactly as it was.

pub mod auth;
pub mod errors;
pub mod lock;
pub mod nft;
pub mod pairmap;
pub mod submission;
pub mod sums;
pub mod token;
pub mod umap;
