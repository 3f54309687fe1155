//! Address prefixes and size limits.

use vstd::prelude::*;

verus! {

pub const PREFIX_POOL: &'static str = "pool_state";

pub const PREFIX_POOL_VAULT: &'static str = "pool_vault";

pub const PREFIX_COMMITMENT: &'static str = "commitment_state";

pub const PREFIX_COMMITMENT_VAULT: &'static str = "commitment_vault";

pub const PREFIX_PROOF: &'static str = "proof";

pub const PREFIX_MERKLE_TREE: &'static str = "merkletree";

/// Max len of a string buffer in bytes
pub const NAME_DEFAULT_SIZE: usize = 32;

/// Maximum number of recent merkle roots to store in the pool state
pub const MAX_HISTORY: u8 = 32;

/// Max levels on the merkle tree. A tree with depth 64 can store 2^64
/// transactions.
pub const MAXIMUM_MERKLE_DEPTH: usize = 64;

} // verus!
