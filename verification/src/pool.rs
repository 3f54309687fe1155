//! The treasury pool: its accumulator and the ring of recent roots.

use vstd::prelude::*;
use vstd::arithmetic::div_mod::{lemma_add_mod_noop, lemma_fundamental_div_mod, lemma_small_mod};
use crate::error::ErrorCode;
use crate::hash::{hash_eq, slices_view};
use crate::state::{hashes_view, seed_zero, MerkleTree, TreeView};
use crate::utils::{MAX_HISTORY, NAME_DEFAULT_SIZE};

verus! {

#[derive(Clone, Copy, Debug, PartialEq, Eq, Structural)]
pub enum DataVersion {
    Unknown,
    Version1,
}

impl Default for DataVersion {
    fn default() -> (version: DataVersion)
        ensures
            version == DataVersion::Unknown,
    {
        DataVersion::Unknown
    }
}

/// The ring of recent roots as a mathematical value.
pub struct RingView {
    pub slots: Seq<Seq<u8>>,
    pub cursor: nat,
}

impl RingView {
    pub open spec fn wf(self) -> bool {
        &&& 1 <= self.slots.len() <= 255
        &&& self.cursor < self.slots.len()
    }

    /// The ring after `root` has been written at the cursor and the cursor
    /// has moved on by one slot, back to the first after the last.
    pub open spec fn checkpoint(self, root: Seq<u8>) -> RingView {
        RingView {
            slots: self.slots.update(self.cursor as int, root),
            cursor: (self.cursor + 1) % self.slots.len(),
        }
    }

    /// Whether some slot holds `root`.
    pub open spec fn contains(self, root: Seq<u8>) -> bool {
        exists|i: int| 0 <= i < self.slots.len() && self.slots[i] == root
    }

    /// The slot at the cursor.
    pub open spec fn latest(self) -> Seq<u8> {
        self.slots[self.cursor as int]
    }

    /// The ring after each of `roots` has been saved in order.
    pub open spec fn checkpoint_all(self, roots: Seq<Seq<u8>>) -> RingView
        decreases roots.len(),
    {
        if roots.len() == 0 {
            self
        } else {
            self.checkpoint_all(roots.drop_last()).checkpoint(roots.last())
        }
    }
}

proof fn lemma_distinct_residues(a: int, b: int, n: int)
    requires
        0 <= a < b,
        b - a < n,
    ensures
        a % n != b % n,
{
    lemma_fundamental_div_mod(a, n);
    lemma_fundamental_div_mod(b, n);
    if a % n == b % n {
        let k = b / n - a / n;
        assert(b - a == n * k) by (nonlinear_arith)
            requires
                a == n * (a / n) + a % n,
                b == n * (b / n) + b % n,
                a % n == b % n,
                k == b / n - a / n,
        ;
        assert(false) by (nonlinear_arith)
            requires
                0 < n * k < n,
        ;
    }
}

/// Where the roots saved in a row end up: the cursor has moved on by their
/// number, and each of the last roots, as many as there are slots, lies in
/// the slot that the cursor pointed to when it was saved.
pub proof fn lemma_checkpoint_all(ring: RingView, roots: Seq<Seq<u8>>)
    requires
        ring.wf(),
    ensures
        ring.checkpoint_all(roots).wf(),
        ring.checkpoint_all(roots).slots.len() == ring.slots.len(),
        ring.checkpoint_all(roots).cursor == (ring.cursor + roots.len()) % ring.slots.len(),
        forall|j: int|
            0 <= j < roots.len() && roots.len() - j <= ring.slots.len() ==> ring.checkpoint_all(
                roots,
            ).slots[(ring.cursor as int + j) % (ring.slots.len() as int)] == #[trigger] roots[j],
    decreases roots.len(),
{
    let n = ring.slots.len() as int;
    let c = ring.cursor as int;
    if roots.len() == 0 {
        lemma_small_mod(ring.cursor, ring.slots.len());
    } else {
        let shorter = roots.drop_last();
        let after = ring.checkpoint_all(roots);
        lemma_checkpoint_all(ring, shorter);
        lemma_add_mod_noop(c + shorter.len(), 1, n);
        if n > 1 {
            lemma_small_mod(1, ring.slots.len());
        }
        assert forall|j: int|
            0 <= j < roots.len() && roots.len() - j <= n implies after.slots[(c + j) % n]
            == #[trigger] roots[j] by {
            if j < roots.len() - 1 {
                lemma_distinct_residues(c + j, c + roots.len() - 1, n);
                assert(shorter[j] == roots[j]);
            }
        }
    }
}

/// Each of the last saved roots, as many as the ring has slots, is still
/// in the ring.
pub proof fn lemma_recent_roots_contained(ring: RingView, roots: Seq<Seq<u8>>, j: int)
    requires
        ring.wf(),
        0 <= j < roots.len(),
        roots.len() - j <= ring.slots.len(),
    ensures
        ring.checkpoint_all(roots).contains(roots[j]),
{
    lemma_checkpoint_all(ring, roots);
    let n = ring.slots.len() as int;
    let at = (ring.cursor as int + j) % n;
    assert(0 <= at < n) by (nonlinear_arith)
        requires
            at == (ring.cursor as int + j) % n,
            n > 0,
    ;
}

#[derive(Clone, Debug, PartialEq, Eq)]
pub struct Pool {
    pub data_version: DataVersion,
    pub authority: [u8; 32],
    pub mint: [u8; 32],
    pub vault: [u8; 32],
    pub vault_bump: u8,
    /// Name of the pool, allows for multiple pools per authority
    pub name: String,
    /// A circular buffer of recent roots
    pub history_list: Vec<[u8; 32]>,
    /// Index of the slot that the next saved root is written to
    pub current_index: u8,
    pub merkle_tree: MerkleTree,
}

impl Pool {
    /// Size in bytes of the fixed part of a stored pool.
    pub const LEN: usize = 8 + 1 + 32 + 32 + 32 + 1 + 4 + NAME_DEFAULT_SIZE + 4 + 1
        + MerkleTree::LEN;

    /// The ring of recent roots that the pool holds.
    pub open spec fn ring(&self) -> RingView {
        RingView {
            slots: hashes_view(self.history_list@),
            cursor: self.current_index as nat,
        }
    }

    pub open spec fn wf(&self) -> bool {
        &&& self.ring().wf()
        &&& self.merkle_tree.wf()
    }

    /// Whether the ring has from 1 to 255 slots, the cursor points to one
    /// of them, and the tree is well formed.
    pub fn is_well_formed(&self) -> (ok: bool)
        ensures
            ok == self.wf(),
    {
        let len: usize = self.history_list.len();
        1 <= len && len <= 255 && (self.current_index as usize) < len
            && self.merkle_tree.is_well_formed()
    }

    /// Get the size of the history_list buffer for the given count.
    pub fn get_history_size(num: u8) -> (size: usize)
        ensures
            size == 32 * num,
    {
        32 * (num as usize)
    }

    /// A new pool with an empty tree of depth `levels`, whose zero values
    /// derive from `seeds`, and a ring of `MAX_HISTORY` slots that all hold
    /// the all-zero digest. The depth must lie between 1 and 64.
    pub fn new(
        authority: [u8; 32],
        mint: [u8; 32],
        vault: [u8; 32],
        vault_bump: u8,
        name: String,
        levels: u8,
        seeds: &[&[u8]],
    ) -> (r: Result<Pool, ErrorCode>)
        ensures
            !(1 <= levels <= 64) ==> r == Err::<Pool, ErrorCode>(ErrorCode::InvalidMerkleTreeDepth),
            1 <= levels <= 64 ==> r is Ok && ({
                let pool = r->Ok_0;
                &&& pool.wf()
                &&& pool.data_version == DataVersion::Version1
                &&& pool.authority == authority
                &&& pool.mint == mint
                &&& pool.vault == vault
                &&& pool.vault_bump == vault_bump
                &&& pool.name == name
                &&& pool.ring() == (RingView {
                    slots: Seq::new(MAX_HISTORY as nat, |i: int| Seq::new(32, |j: int| 0u8)),
                    cursor: 0,
                })
                &&& pool.merkle_tree@ == TreeView::empty(
                    seed_zero(slices_view(seeds@)),
                    levels as nat,
                )
            }),
    {
        if levels == 0 || levels > 64 {
            return Err(ErrorCode::InvalidMerkleTreeDepth);
        }
        let mut history_list: Vec<[u8; 32]> = Vec::new();
        let mut i: u8 = 0;
        while i < MAX_HISTORY
            invariant
                i <= MAX_HISTORY,
                history_list@.len() == i,
                forall|k: int| 0 <= k < i ==> history_list@[k]@ =~= Seq::new(32, |j: int| 0u8),
            decreases MAX_HISTORY - i,
        {
            history_list.push([0u8; 32]);
            i += 1;
        }
        let pool = Pool {
            data_version: DataVersion::Version1,
            authority,
            mint,
            vault,
            vault_bump,
            name,
            history_list,
            current_index: 0,
            merkle_tree: MerkleTree::new(seeds, levels),
        };
        assert(pool.ring().slots =~= Seq::new(
            MAX_HISTORY as nat,
            |i: int| Seq::new(32, |j: int| 0u8),
        ));
        Ok(pool)
    }

    /// Get the root in the slot at the cursor.
    pub fn get_recent_root(&self) -> (root: [u8; 32])
        requires
            self.current_index < self.history_list@.len(),
        ensures
            root@ == self.ring().latest(),
    {
        self.history_list[self.current_index as usize]
    }

    /// Whether `root` is one of the saved roots: a scan of every slot.
    pub fn contains(&self, root: &[u8; 32]) -> (found: bool)
        ensures
            found == self.ring().contains(root@),
    {
        let mut i: usize = 0;
        while i < self.history_list.len()
            invariant
                i <= self.history_list@.len(),
                forall|k: int| 0 <= k < i ==> self.ring().slots[k] != root@,
            decreases self.history_list@.len() - i,
        {
            if hash_eq(&self.history_list[i], root) {
                assert(self.ring().slots[i as int] == root@);
                return true;
            }
            i += 1;
        }
        false
    }

    /// Saves the tree's current root in the ring: overwrites the slot at
    /// the cursor, then moves the cursor on.
    pub fn save_recent_root(&mut self)
        requires
            old(self).wf(),
        ensures
            final(self).wf(),
            final(self).ring() == old(self).ring().checkpoint(old(self).merkle_tree.root@),
            final(self).ring().contains(old(self).merkle_tree.root@),
            final(self).merkle_tree == old(self).merkle_tree,
            final(self).data_version == old(self).data_version,
            final(self).authority == old(self).authority,
            final(self).mint == old(self).mint,
            final(self).vault == old(self).vault,
            final(self).vault_bump == old(self).vault_bump,
            final(self).name == old(self).name,
    {
        let slot: usize = self.current_index as usize;
        let len: usize = self.history_list.len();
        self.history_list[slot] = self.merkle_tree.root;
        let next: usize = (slot + 1) % len;
        self.current_index = next as u8;
        proof {
            assert(self.ring().slots =~= old(self).ring().slots.update(
                slot as int,
                old(self).merkle_tree.root@,
            ));
            assert(self.ring().slots[slot as int] == old(self).merkle_tree.root@);
        }
    }

    /// Adds a leaf to the pool's tree. The ring is left as it is: a root
    /// becomes provable only once it has been saved.
    pub fn add_leaf(&mut self, leaf: [u8; 32]) -> (r: Result<(), ErrorCode>)
        requires
            old(self).wf(),
        ensures
            final(self).wf(),
            old(self).merkle_tree.is_full() ==> r == Err::<(), ErrorCode>(
                ErrorCode::MerkleTreeFull,
            ) && *final(self) == *old(self),
            !old(self).merkle_tree.is_full() ==> r is Ok && final(self).merkle_tree@ == old(
                self,
            ).merkle_tree@.append(leaf@),
            final(self).history_list == old(self).history_list,
            final(self).current_index == old(self).current_index,
            final(self).data_version == old(self).data_version,
            final(self).authority == old(self).authority,
            final(self).mint == old(self).mint,
            final(self).vault == old(self).vault,
            final(self).vault_bump == old(self).vault_bump,
            final(self).name == old(self).name,
    {
        self.merkle_tree.add_leaf(leaf)
    }
}

} // verus!
