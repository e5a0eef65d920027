//! A price-oracle aggregation engine: node registry, rate limiting,
//! submission validation, outlier-robust weighted-median aggregation,
//! and a bounded per-asset history with fallback lookup.
//!
//! The engine is pure: every operation takes the current ledger time as a
//! plain `u64` argument and works on explicit state, so that all of its
//! behaviour is captured by contracts. Storage, authorization and transport
//! are left to the host around the library.

pub mod aggregation;
pub mod error;
pub mod oracle;
pub mod oracle_node;
pub mod payment_schedule;
pub mod price_data;
pub mod seqs;
pub mod user_limits;
pub mod validation;

pub use error::OracleError;
