//! Gas accounting and native validity-predicate checking for a ledger
//! runtime: transaction-level and predicate-level gas meters, the
//! aggregator that merges gas usage from concurrently executed validity
//! predicates into one deterministic bill, the wrapper-transaction gas
//! limit with its rounding and refund rules, and the multitoken
//! conservation predicate that validates balance and minted-supply
//! changes across tokens.

pub mod address;
pub mod gas;
pub mod multitoken;
pub mod native_vp;
pub mod storage;
pub mod token;
pub mod wrapper;

pub use gas::Error;
