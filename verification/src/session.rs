//! Proof sessions: an inclusion path for one root and one commitment,
//! uploaded in chunks and then verified.

use vstd::prelude::*;
use crate::error::ErrorCode;
use crate::hash::{hash_eq, leaf_hash};
use crate::pool::{DataVersion, Pool};
use crate::state::{fold_path, hashes_view, MerkleTree};

verus! {

#[derive(Clone, Debug, PartialEq, Eq)]
pub struct Proof {
    pub data_version: DataVersion,
    pub pool: [u8; 32],
    pub pool_bump: u8,
    /// The saved root that the path must lead to
    pub merkle_root: [u8; 32],
    /// What the session proves to be in the tree
    pub commitment: [u8; 32],
    pub verified: bool,
    /// Count of hashes currently in the proof
    pub size: u8,
    pub data: Vec<[u8; 32]>,
}

impl Proof {
    /// Size in bytes of the fixed part of a stored proof.
    pub const LEN: usize = 8 + 1 + 32 + 1 + 32 + 32 + 1 + 1 + 4;

    /// The siblings uploaded so far, in upload order.
    pub open spec fn path(&self) -> Seq<Seq<u8>> {
        hashes_view(self.data@)
    }

    /// `size` counts the uploaded siblings.
    pub open spec fn wf(&self) -> bool {
        self.data@.len() == self.size
    }

    /// Everything but the path, its size and the verified flag is as in
    /// `other`.
    pub open spec fn same_binding(&self, other: &Proof) -> bool {
        &&& self.data_version == other.data_version
        &&& self.pool == other.pool
        &&& self.pool_bump == other.pool_bump
        &&& self.merkle_root == other.merkle_root
        &&& self.commitment == other.commitment
    }

    /// The session has not gone back from `earlier`: it holds at least as
    /// many siblings, and is verified if `earlier` was.
    pub open spec fn follows(&self, earlier: &Proof) -> bool {
        &&& self.size >= earlier.size
        &&& earlier.verified ==> self.verified
    }

    /// Whether `upload` accepts a chunk of `chunk_len` siblings, declared
    /// as `data_size` siblings to follow the first `existing_size`, for a
    /// tree of depth `levels`.
    pub open spec fn accepts_chunk(
        &self,
        levels: u8,
        existing_size: u8,
        data_size: u8,
        chunk_len: nat,
    ) -> bool {
        &&& existing_size == self.size
        &&& data_size == chunk_len
        &&& self.size + chunk_len <= levels
    }

    /// Opens a session for `merkle_root` and `commitment`. The root must
    /// be in the pool's ring of recent roots.
    pub fn open(
        pool: &Pool,
        pool_key: [u8; 32],
        pool_bump: u8,
        merkle_root: [u8; 32],
        commitment: [u8; 32],
    ) -> (r: Result<Proof, ErrorCode>)
        ensures
            !pool.ring().contains(merkle_root@) ==> r == Err::<Proof, ErrorCode>(
                ErrorCode::InvalidRecentRoot,
            ),
            pool.ring().contains(merkle_root@) ==> r is Ok && ({
                let session = r->Ok_0;
                &&& session.wf()
                &&& session.data_version == DataVersion::Version1
                &&& session.pool == pool_key
                &&& session.pool_bump == pool_bump
                &&& session.merkle_root == merkle_root
                &&& session.commitment == commitment
                &&& !session.verified
                &&& session.size == 0
                &&& session.data@ == Seq::<[u8; 32]>::empty()
            }),
    {
        if !pool.contains(&merkle_root) {
            return Err(ErrorCode::InvalidRecentRoot);
        }
        Ok(
            Proof {
                data_version: DataVersion::Version1,
                pool: pool_key,
                pool_bump,
                merkle_root,
                commitment,
                verified: false,
                size: 0,
                data: Vec::new(),
            },
        )
    }

    /// Appends a chunk of siblings to the path. The caller declares the
    /// size that it believes the session to have and the length of the
    /// chunk; the chunk is refused, and the session left as it is, unless
    /// both are right and the path stays within the depth of the tree.
    pub fn upload(
        &mut self,
        levels: u8,
        existing_size: u8,
        data_size: u8,
        data: &Vec<[u8; 32]>,
    ) -> (r: Result<(), ErrorCode>)
        ensures
            old(self).accepts_chunk(levels, existing_size, data_size, data@.len()) ==> {
                &&& r is Ok
                &&& final(self).data@ == old(self).data@ + data@
                &&& final(self).size == old(self).size + data@.len()
                &&& final(self).verified == old(self).verified
                &&& final(self).same_binding(old(self))
            },
            !old(self).accepts_chunk(levels, existing_size, data_size, data@.len()) ==> {
                &&& r == Err::<(), ErrorCode>(ErrorCode::InvalidProofSize)
                &&& *final(self) == *old(self)
            },
            existing_size != old(self).size ==> final(self).data == old(self).data,
            final(self).follows(old(self)),
            old(self).wf() ==> final(self).wf(),
    {
        if existing_size != self.size {
            return Err(ErrorCode::InvalidProofSize);
        }
        if data.len() != data_size as usize {
            return Err(ErrorCode::InvalidProofSize);
        }
        if data_size > levels || self.size > levels - data_size {
            return Err(ErrorCode::InvalidProofSize);
        }
        let ghost before = self.data@;
        let mut i: usize = 0;
        while i < data.len()
            invariant
                i <= data@.len(),
                self.data@ == before + data@.take(i as int),
                self.size == old(self).size,
                self.verified == old(self).verified,
                self.same_binding(old(self)),
            decreases data@.len() - i,
        {
            self.data.push(data[i]);
            i += 1;
        }
        self.size = self.size + data_size;
        Ok(())
    }

    /// What `settle` returns for a tree of depth `levels` and the digest
    /// `computed`.
    pub open spec fn settle_outcome(&self, levels: u8, computed: Seq<u8>) -> Result<
        (),
        ErrorCode,
    > {
        if self.verified {
            Err(ErrorCode::ProofAlreadyVerified)
        } else if self.size != levels {
            Err(ErrorCode::InvalidProofSize)
        } else if computed != self.merkle_root@ {
            Err(ErrorCode::InvalidProof)
        } else {
            Ok(())
        }
    }

    /// What `verify` returns for a tree of depth `levels` and `leaf`.
    pub open spec fn verify_outcome(&self, levels: u8, leaf: Seq<u8>) -> Result<(), ErrorCode> {
        self.settle_outcome(levels, fold_path(leaf_hash(leaf), self.path()))
    }

    /// Marks the session as verified if `computed`, the digest that its
    /// path leads to, is the session's root. The session must not be
    /// verified yet and must hold one sibling for each level of the tree.
    /// A session that is refused is left as it is.
    pub fn settle(&mut self, levels: u8, computed: &[u8; 32]) -> (r: Result<(), ErrorCode>)
        ensures
            r == old(self).settle_outcome(levels, computed@),
            r is Ok ==> {
                &&& final(self).verified
                &&& final(self).data == old(self).data
                &&& final(self).size == old(self).size
                &&& final(self).same_binding(old(self))
            },
            r is Err ==> *final(self) == *old(self),
            final(self).follows(old(self)),
            old(self).wf() ==> final(self).wf(),
    {
        if self.verified {
            return Err(ErrorCode::ProofAlreadyVerified);
        }
        if self.size != levels {
            return Err(ErrorCode::InvalidProofSize);
        }
        if !hash_eq(computed, &self.merkle_root) {
            return Err(ErrorCode::InvalidProof);
        }
        self.verified = true;
        Ok(())
    }

    /// Checks the uploaded path against the session's root for `leaf`,
    /// and marks the session as verified if it leads there. A session
    /// that is verified already, or whose path is not complete, is
    /// refused before anything is hashed. A session that is refused is
    /// left as it is.
    pub fn verify(&mut self, levels: u8, leaf: [u8; 32]) -> (r: Result<(), ErrorCode>)
        ensures
            r == old(self).verify_outcome(levels, leaf@),
            r is Ok ==> {
                &&& final(self).verified
                &&& final(self).data == old(self).data
                &&& final(self).size == old(self).size
                &&& final(self).same_binding(old(self))
            },
            r is Err ==> *final(self) == *old(self),
            final(self).follows(old(self)),
            old(self).wf() ==> final(self).wf(),
    {
        if self.verified {
            return Err(ErrorCode::ProofAlreadyVerified);
        }
        if self.size != levels {
            return Err(ErrorCode::InvalidProofSize);
        }
        let computed = MerkleTree::compute_root(&self.data, leaf);
        self.settle(levels, &computed)
    }

    /// A session that has not gone back from a second, which has not gone
    /// back from a third, has not gone back from the third: over any run
    /// of uploads and verifications the size never decreases and a
    /// verified session stays verified.
    pub proof fn lemma_follows_is_transitive(first: &Proof, second: &Proof, third: &Proof)
        requires
            second.follows(first),
            third.follows(second),
        ensures
            third.follows(first),
    {
    }

    /// Ends the session and gives up its storage, whether or not it was
    /// verified.
    pub fn close(self) {
    }
}

} // verus!
