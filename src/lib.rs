//! A client-side view of a Bitcoin-anchored peg ledger: the keys under which the
//! node's replicated store keeps its state, and the verified decoding of what
//! comes back from those keys.
pub mod balance;
pub mod bytes;
pub mod error;
pub mod headers;
pub mod keys;
pub mod signatory;
pub mod snapshots;
pub mod transaction;
