//! Verified core of the Signet SDK: journal sets, order predicates and
//! Permit2 bitmaps, host-chain event extraction, and the RPC layer's
//! filter and subscription bookkeeping.
use vstd::prelude::*;

pub mod primitives;
pub mod hash;
pub mod journal;
pub mod journal_set;
pub mod orders;
pub mod filler;
pub mod fee_policy;
pub mod preflight;
pub mod events;
pub mod extract;
pub mod block;
pub mod block_range;
pub mod interest;
pub mod filters;
pub mod subs;
pub mod eth;
pub mod receipts;
pub mod signet;
pub mod tx_cache;

verus! {

} // verus!
