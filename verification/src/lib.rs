//! Merkle accumulator, root history and chunked inclusion proofs for a
//! treasury pool, together with the time-lock and swap validation rules
//! that accompany it.

pub mod error;
pub mod full_tree;
pub mod hash;
pub mod pool;
pub mod session;
pub mod state;
pub mod swap_validator;
pub mod timelock;
pub mod utils;
