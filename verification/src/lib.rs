//! Asset-movement request processing for a pool of locally held wallets.
//!
//! The library holds the verified core of a disperse/collect service:
//! 256-bit amount arithmetic, decimal amount parsing, percentage-of-balance
//! resolution, and the per-request decision logic for dispersing funds from
//! one wallet to many and collecting funds from many wallets into one.
//! Everything that talks to a chain node or to HTTP stays outside; the
//! library is handed plain values (balances, transaction hashes) and hands
//! back plain values (transfer actions, responses, errors).

pub mod amount;
pub mod collect;
pub mod disperse;
pub mod models;
pub mod registry;
pub mod uint256;
