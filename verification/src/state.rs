//! The incremental Merkle accumulator.

use vstd::prelude::*;
use vstd::arithmetic::power2::*;
use vstd::arithmetic::div_mod::lemma_div_denominator;
use vstd::bits::{lemma_u64_pow2_no_overflow, lemma_u64_shl_is_mul};
use crate::error::ErrorCode;
use crate::hash::{
    combine, hash_eq, hash_leaf, hash_left_right, hashv, hash, leaf_hash, lemma_combine_commutes,
    slices_view, spec_hashv,
};

verus! {

/// The contents of a list of digests.
pub open spec fn hashes_view(hashes: Seq<[u8; 32]>) -> Seq<Seq<u8>> {
    Seq::new(hashes.len(), |i: int| hashes[i]@)
}

/// The digest reached from `start` by pairing it with each element of
/// `path` in turn.
pub open spec fn fold_path(start: Seq<u8>, path: Seq<Seq<u8>>) -> Seq<u8>
    decreases path.len(),
{
    if path.len() == 0 {
        start
    } else {
        combine(fold_path(start, path.drop_last()), path.last())
    }
}

/// Whether the node above leaf `index` at height `level` is a left child.
pub open spec fn is_left(index: nat, level: nat) -> bool {
    (index / pow2(level)) % 2 == 0
}

/// The digest of an empty subtree of height `level`, for a tree whose
/// empty leaves have the digest `base`.
pub open spec fn zero_value(base: Seq<u8>, level: nat) -> Seq<u8>
    decreases level,
{
    if level == 0 {
        base
    } else {
        spec_hashv(seq![zero_value(base, (level - 1) as nat), zero_value(base, (level - 1) as nat)])
    }
}

/// The digest of an empty leaf for a tree made from `seeds`: the digest of
/// the digest of the seeds.
pub open spec fn seed_zero(seeds: Seq<Seq<u8>>) -> Seq<u8> {
    spec_hashv(seq![spec_hashv(seeds)])
}

/// The accumulator as a mathematical value.
pub struct TreeView {
    pub levels: nat,
    pub next_index: nat,
    pub root: Seq<u8>,
    pub filled_subtrees: Seq<Seq<u8>>,
    pub zero_values: Seq<Seq<u8>>,
}

impl TreeView {
    pub open spec fn wf(self) -> bool {
        &&& 1 <= self.levels <= 64
        &&& self.filled_subtrees.len() == self.levels
        &&& self.zero_values.len() == self.levels
        &&& self.next_index <= pow2(self.levels)
    }

    /// The tree right after creation, with empty leaves of digest `base`.
    pub open spec fn empty(base: Seq<u8>, levels: nat) -> TreeView {
        let zeros = Seq::new(levels, |i: int| zero_value(base, i as nat));
        TreeView {
            levels,
            next_index: 0,
            root: zeros[levels - 1],
            filled_subtrees: zeros,
            zero_values: zeros,
        }
    }

    /// No leaf can be added any more.
    pub open spec fn is_full(self) -> bool {
        self.next_index >= pow2(self.levels)
    }

    /// The sibling that the next leaf meets at `level`: the empty subtree
    /// where the leaf's branch is a left child, the stored left neighbour
    /// where it is a right child.
    pub open spec fn sibling(self, level: int) -> Seq<u8> {
        if is_left(self.next_index, level as nat) {
            self.zero_values[level]
        } else {
            self.filled_subtrees[level]
        }
    }

    /// The siblings of the next leaf, from the bottom up.
    pub open spec fn insertion_path(self) -> Seq<Seq<u8>> {
        Seq::new(self.levels, |i: int| self.sibling(i))
    }

    /// The tree after `leaf` has been added at `next_index`.
    pub open spec fn append(self, leaf: Seq<u8>) -> TreeView {
        let path = self.insertion_path();
        TreeView {
            levels: self.levels,
            next_index: self.next_index + 1,
            root: fold_path(leaf_hash(leaf), path),
            filled_subtrees: Seq::new(
                self.levels,
                |i: int|
                    if is_left(self.next_index, i as nat) {
                        fold_path(leaf_hash(leaf), path.take(i))
                    } else {
                        self.filled_subtrees[i]
                    },
            ),
            zero_values: self.zero_values,
        }
    }
}

#[derive(Clone, Debug, PartialEq, Eq)]
pub struct MerkleTree {
    /// Depth of the tree, from 1 to 64.
    pub levels: u8,
    /// Number of leaves added so far, which is the position of the next.
    pub next_index: u64,
    pub root: [u8; 32],
    pub filled_subtrees: Vec<[u8; 32]>,
    pub zero_values: Vec<[u8; 32]>,
}

impl View for MerkleTree {
    type V = TreeView;

    open spec fn view(&self) -> TreeView {
        TreeView {
            levels: self.levels as nat,
            next_index: self.next_index as nat,
            root: self.root@,
            filled_subtrees: hashes_view(self.filled_subtrees@),
            zero_values: hashes_view(self.zero_values@),
        }
    }
}

fn copy_hashes(hashes: &Vec<[u8; 32]>) -> (copy: Vec<[u8; 32]>)
    ensures
        copy@ == hashes@,
{
    let mut copy: Vec<[u8; 32]> = Vec::new();
    let mut i: usize = 0;
    while i < hashes.len()
        invariant
            i <= hashes.len(),
            copy@ == hashes@.take(i as int),
        decreases hashes.len() - i,
    {
        copy.push(hashes[i]);
        i += 1;
    }
    copy
}

impl MerkleTree {
    /// Size in bytes of the fixed part of a stored tree.
    pub const LEN: usize = 1 + 8 + 32 + 4 + 4;

    pub open spec fn wf(&self) -> bool {
        self@.wf()
    }

    /// No leaf can be added: every position is taken, or the leaf counter
    /// has reached the largest value it can hold.
    pub open spec fn is_full(&self) -> bool {
        self@.is_full() || self.next_index == u64::MAX
    }

    /// Size in bytes of `levels` digests.
    pub fn get_proof_size(levels: u8) -> (size: usize)
        ensures
            size == 32 * levels,
    {
        32 * (levels as usize)
    }

    /// An empty tree of depth `levels` whose zero values derive from `seeds`.
    pub fn new(seeds: &[&[u8]], levels: u8) -> (tree: MerkleTree)
        requires
            1 <= levels <= 64,
        ensures
            tree.wf(),
            tree@ == TreeView::empty(seed_zero(slices_view(seeds@)), levels as nat),
    {
        let zeros = MerkleTree::calc_zeros(levels, seeds);
        let filled = copy_hashes(&zeros);
        let tree = MerkleTree {
            levels,
            next_index: 0,
            root: zeros[levels as usize - 1],
            filled_subtrees: filled,
            zero_values: zeros,
        };
        proof {
            lemma_pow2_pos(levels as nat);
        }
        tree
    }

    /// The zero values of a tree of depth `levels` made from `seeds`.
    fn calc_zeros(levels: u8, seeds: &[&[u8]]) -> (zeros: Vec<[u8; 32]>)
        ensures
            zeros@.len() == levels,
            hashes_view(zeros@) == Seq::new(
                levels as nat,
                |i: int| zero_value(seed_zero(slices_view(seeds@)), i as nat),
            ),
    {
        let ghost base = seed_zero(slices_view(seeds@));
        let mut zeros: Vec<[u8; 32]> = Vec::new();
        if levels == 0 {
            return zeros;
        }
        let seed_digest = hashv(seeds);
        let mut current: [u8; 32] = hash(seed_digest.as_slice());
        zeros.push(current);
        let mut i: u8 = 1;
        while i < levels
            invariant
                1 <= i <= levels,
                zeros@.len() == i,
                current@ == zero_value(base, (i - 1) as nat),
                forall|j: int| 0 <= j < i ==> zeros@[j]@ == zero_value(base, j as nat),
            decreases levels - i,
        {
            let pair: [&[u8]; 2] = [current.as_slice(), current.as_slice()];
            let vals: &[&[u8]] = pair.as_slice();
            assert(slices_view(vals@) =~= seq![current@, current@]);
            current = hashv(vals);
            zeros.push(current);
            i += 1;
        }
        assert(hashes_view(zeros@) =~= Seq::new(
            levels as nat,
            |i: int| zero_value(base, i as nat),
        ));
        zeros
    }

    /// Returns the hash of left and right sorted and concatenated.
    pub fn hash_left_right(left: [u8; 32], right: [u8; 32]) -> (parent: [u8; 32])
        ensures
            parent@ == combine(left@, right@),
    {
        hash_left_right(left, right)
    }

    /// Whether the depth lies between 1 and 64, both tables hold one
    /// digest for each level, and the leaf counter is within the tree.
    pub fn is_well_formed(&self) -> (ok: bool)
        ensures
            ok == self.wf(),
    {
        proof {
            lemma2_to64();
            lemma2_to64_rest();
        }
        if self.levels == 0 || self.levels > 64 {
            return false;
        }
        if self.filled_subtrees.len() != self.levels as usize || self.zero_values.len()
            != self.levels as usize {
            return false;
        }
        if self.levels == 64 {
            return true;
        }
        let shift: u64 = self.levels as u64;
        proof {
            lemma_u64_pow2_no_overflow(shift as nat);
            lemma_u64_shl_is_mul(1u64, shift);
        }
        self.next_index <= (1u64 << shift)
    }

    /// The siblings that the next leaf will meet, from the bottom up: the
    /// path that proves it against the root right after it is added.
    pub fn insertion_path(&self) -> (path: Vec<[u8; 32]>)
        requires
            self.wf(),
        ensures
            hashes_view(path@) == self@.insertion_path(),
    {
        let levels: usize = self.levels as usize;
        let mut path: Vec<[u8; 32]> = Vec::new();
        let mut current_index: u64 = self.next_index;
        let mut i: usize = 0;
        proof {
            lemma2_to64();
        }
        while i < levels
            invariant
                i <= levels,
                levels == self.levels,
                self.wf(),
                path@.len() == i,
                current_index == self.next_index as nat / pow2(i as nat),
                forall|j: int| 0 <= j < i ==> path@[j]@ == self@.sibling(j),
            decreases levels - i,
        {
            if current_index % 2 == 0 {
                path.push(self.zero_values[i]);
            } else {
                path.push(self.filled_subtrees[i]);
            }
            proof {
                lemma_pow2_pos(i as nat);
                lemma_pow2_unfold((i + 1) as nat);
                lemma_div_denominator(self.next_index as int, pow2(i as nat) as int, 2);
            }
            current_index = current_index / 2;
            i += 1;
        }
        path
    }

    /// Whether no further leaf can be added.
    pub fn full(&self) -> (r: bool)
        ensures
            r == self.is_full(),
    {
        proof {
            lemma2_to64();
            lemma2_to64_rest();
        }
        if self.levels >= 64 {
            proof {
                if self.levels > 64 {
                    lemma_pow2_strictly_increases(64, self.levels as nat);
                }
            }
            self.next_index == u64::MAX
        } else {
            let shift: u64 = self.levels as u64;
            proof {
                lemma_u64_pow2_no_overflow(shift as nat);
                lemma_u64_shl_is_mul(1u64, shift);
            }
            self.next_index >= (1u64 << shift)
        }
    }

    /// The two children of the node at `level + 1` above the leaf that is
    /// being added, where `current` is the digest of the node at `level`
    /// above it and `position` that node's place in its row. A node on
    /// the left is stored as the left neighbour of what comes later, and
    /// has the zero value of its level to its right; a node on the right
    /// has the stored left neighbour to its left.
    pub fn children_at(&mut self, level: usize, position: u64, current: [u8; 32]) -> (children: (
        [u8; 32],
        [u8; 32],
    ))
        requires
            level < old(self).filled_subtrees@.len(),
            level < old(self).zero_values@.len(),
        ensures
            position % 2 == 0 ==> children == (current, old(self).zero_values@[level as int])
                && final(self).filled_subtrees@ == old(self).filled_subtrees@.update(
                level as int,
                current,
            ),
            position % 2 != 0 ==> children == (old(self).filled_subtrees@[level as int], current)
                && final(self).filled_subtrees@ == old(self).filled_subtrees@,
            final(self).zero_values == old(self).zero_values,
            final(self).levels == old(self).levels,
            final(self).next_index == old(self).next_index,
            final(self).root == old(self).root,
            old(self).wf() ==> final(self).wf(),
    {
        if position % 2 == 0 {
            let right: [u8; 32] = self.zero_values[level];
            self.filled_subtrees[level] = current;
            (current, right)
        } else {
            (self.filled_subtrees[level], current)
        }
    }

    /// Adds a leaf node to the merkle tree at the `next_index` position.
    pub fn add_leaf(&mut self, leaf: [u8; 32]) -> (r: Result<(), ErrorCode>)
        requires
            old(self).wf(),
        ensures
            final(self).wf(),
            old(self).is_full() ==> r == Err::<(), ErrorCode>(ErrorCode::MerkleTreeFull)
                && *final(self) == *old(self),
            !old(self).is_full() ==> r is Ok && final(self)@ == old(self)@.append(leaf@),
    {
        if self.full() {
            return Err(ErrorCode::MerkleTreeFull);
        }
        let ghost before = self@;
        let ghost path = before.insertion_path();
        let ghost start = leaf_hash(leaf@);
        let ghost after = before.append(leaf@);
        let levels: usize = self.levels as usize;
        let mut current_index: u64 = self.next_index;
        let mut current_hash: [u8; 32] = hash_leaf(&leaf);
        let mut i: usize = 0;
        proof {
            lemma2_to64();
        }
        while i < levels
            invariant
                i <= levels,
                levels == before.levels,
                before.wf(),
                path == before.insertion_path(),
                start == leaf_hash(leaf@),
                after == before.append(leaf@),
                self.levels == before.levels,
                self.next_index == before.next_index,
                hashes_view(self.zero_values@) == before.zero_values,
                self.filled_subtrees@.len() == levels,
                current_index == before.next_index / pow2(i as nat),
                current_hash@ == fold_path(start, path.take(i as int)),
                forall|j: int| 0 <= j < i ==> self.filled_subtrees@[j]@ == after.filled_subtrees[j],
                forall|j: int|
                    i <= j < levels ==> self.filled_subtrees@[j]@ == before.filled_subtrees[j],
            decreases levels - i,
        {
            let (left, right) = self.children_at(i, current_index, current_hash);
            proof {
                lemma_combine_commutes(left@, right@);
                assert(path.take(i + 1).drop_last() =~= path.take(i as int));
                lemma_pow2_pos(i as nat);
                lemma_pow2_unfold((i + 1) as nat);
                lemma_div_denominator(before.next_index as int, pow2(i as nat) as int, 2);
            }
            current_hash = hash_left_right(left, right);
            current_index = current_index / 2;
            i += 1;
        }
        proof {
            assert(path.take(levels as int) =~= path);
            lemma_u64_pow2_no_overflow(0);
        }
        self.root = current_hash;
        self.next_index += 1;
        proof {
            assert(self@.filled_subtrees =~= after.filled_subtrees);
        }
        Ok(())
    }

    /// The digest that `proof` leads to from `leaf`: the leaf's digest
    /// paired with each sibling in turn.
    pub fn compute_root(proof: &Vec<[u8; 32]>, leaf: [u8; 32]) -> (computed: [u8; 32])
        ensures
            computed@ == fold_path(leaf_hash(leaf@), hashes_view(proof@)),
    {
        let ghost path = hashes_view(proof@);
        let mut computed_hash: [u8; 32] = hash_leaf(&leaf);
        let mut i: usize = 0;
        while i < proof.len()
            invariant
                i <= proof.len(),
                path == hashes_view(proof@),
                computed_hash@ == fold_path(leaf_hash(leaf@), path.take(i as int)),
            decreases proof.len() - i,
        {
            proof {
                assert(path.take(i + 1).drop_last() =~= path.take(i as int));
            }
            computed_hash = hash_left_right(computed_hash, proof[i]);
            i += 1;
        }
        proof {
            assert(path.take(i as int) =~= path);
        }
        computed_hash
    }

    /// Returns true if a `leaf` can be proved to be a part of a Merkle tree
    /// defined by `root`. For this, a `proof` must be provided, containing
    /// sibling hashes on the branch from the leaf to the root of the tree.
    pub fn verify(proof: &Vec<[u8; 32]>, root: [u8; 32], leaf: [u8; 32]) -> (r: bool)
        ensures
            r == (fold_path(leaf_hash(leaf@), hashes_view(proof@)) == root@),
    {
        let computed_hash = MerkleTree::compute_root(proof, leaf);
        hash_eq(&computed_hash, &root)
    }
}

} // verus!
