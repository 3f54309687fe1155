//! Errors of the pool, accumulator and proof operations.

use vstd::prelude::*;

verus! {

#[derive(Clone, Copy, Debug, PartialEq, Eq, Structural)]
pub enum ErrorCode {
    /// Invalid pool state for this instruction
    InvalidPoolState,
    /// Invalid commitment state for this instruction
    InvalidCommitmentState,
    /// Invalid recent root value
    InvalidRecentRoot,
    /// Invalid token account
    InvalidVaultAccount,
    /// Insufficient vault funds
    InsufficientVaultBalance,
    /// Invalid authority
    InvalidAuthority,
    /// Invalid vault owner
    InvalidVaultOwner,
    /// Merkle tree full
    MerkleTreeFull,
    /// Invalid merkle tree depth
    InvalidMerkleTreeDepth,
    /// Proof already verified
    ProofAlreadyVerified,
    /// Proof not verified
    ProofNotVerified,
    /// Invalid proof size
    InvalidProofSize,
    /// Invalid proof
    InvalidProof,
}

} // verus!
