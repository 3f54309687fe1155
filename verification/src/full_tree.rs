//! The complete binary tree over a list of leaves, computed from scratch,
//! and the proofs that the incremental accumulator agrees with it.

use vstd::prelude::*;
use vstd::arithmetic::power2::*;
use vstd::arithmetic::div_mod::lemma_div_denominator;
use crate::hash::{combine, leaf_hash, lemma_combine_commutes, lemma_lex_le_total};
use crate::state::{fold_path, is_left, zero_value, TreeView};

verus! {

/// The digest of the node at `height` above the leaves and at position
/// `pos` from the left, in the complete tree whose first leaves are
/// `leaves` and whose other leaves are empty, with digest `empty`.
pub open spec fn node(leaves: Seq<Seq<u8>>, empty: Seq<u8>, height: nat, pos: nat) -> Seq<u8>
    decreases height,
{
    if height == 0 {
        if pos < leaves.len() {
            leaf_hash(leaves[pos as int])
        } else {
            empty
        }
    } else {
        combine(
            node(leaves, empty, (height - 1) as nat, 2 * pos),
            node(leaves, empty, (height - 1) as nat, 2 * pos + 1),
        )
    }
}

/// The root of the complete tree of depth `levels` over `leaves`.
pub open spec fn full_tree_root(leaves: Seq<Seq<u8>>, empty: Seq<u8>, levels: nat) -> Seq<u8> {
    node(leaves, empty, levels, 0)
}

/// The position of the other child of a node's parent.
pub open spec fn sibling_pos(pos: nat) -> nat {
    if pos % 2 == 0 {
        pos + 1
    } else {
        (pos - 1) as nat
    }
}

/// The siblings of leaf `index` in the complete tree, from the bottom up.
pub open spec fn full_tree_path(
    leaves: Seq<Seq<u8>>,
    empty: Seq<u8>,
    levels: nat,
    index: nat,
) -> Seq<Seq<u8>> {
    Seq::new(
        levels,
        |i: int| node(leaves, empty, i as nat, sibling_pos(index / pow2(i as nat))),
    )
}

impl TreeView {
    /// The tree after each of `leaves` has been added in order.
    pub open spec fn append_all(self, leaves: Seq<Seq<u8>>) -> TreeView
        decreases leaves.len(),
    {
        if leaves.len() == 0 {
            self
        } else {
            self.append_all(leaves.drop_last()).append(leaves.last())
        }
    }

    /// The accumulator holds exactly what the complete tree over `leaves`
    /// determines: its zero values are the empty subtrees, each stored
    /// left neighbour that a later leaf will read is the node of the
    /// complete tree at its place, and the root is the tree's root.
    pub open spec fn represents(self, leaves: Seq<Seq<u8>>) -> bool {
        &&& self.wf()
        &&& self.next_index == leaves.len()
        &&& forall|i: int|
            0 <= i < self.levels ==> #[trigger] self.zero_values[i] == zero_value(
                self.zero_values[0],
                i as nat,
            )
        &&& forall|i: int|
            0 <= i < self.levels && !is_left(self.next_index, i as nat)
                ==> #[trigger] self.filled_subtrees[i] == node(
                leaves,
                self.zero_values[0],
                i as nat,
                (self.next_index / pow2(i as nat) - 1) as nat,
            )
        &&& leaves.len() == 0 ==> self.root == self.zero_values[self.levels - 1]
        &&& leaves.len() > 0 ==> self.root == full_tree_root(
            leaves,
            self.zero_values[0],
            self.levels,
        )
    }
}

proof fn lemma_div_bounds(n: nat, p: nat)
    requires
        p > 0,
    ensures
        (n / p) * p <= n < (n / p + 1) * p,
        (n + 1) / p == n / p || (n + 1) / p == n / p + 1,
        n < p ==> n / p == 0,
{
    assert((n / p) * p <= n < (n / p + 1) * p) by (nonlinear_arith)
        requires
            p > 0,
    ;
    assert((n + 1) / p == n / p || (n + 1) / p == n / p + 1) by (nonlinear_arith)
        requires
            p > 0,
    ;
    assert(n < p ==> n / p == 0) by (nonlinear_arith)
        requires
            p > 0,
    ;
}

proof fn lemma_halve(n: nat, level: nat)
    ensures
        n / pow2(level + 1) == (n / pow2(level)) / 2,
        pow2(level + 1) == 2 * pow2(level),
        pow2(level) > 0,
{
    lemma_pow2_pos(level);
    lemma_pow2_unfold(level + 1);
    lemma_div_denominator(n as int, pow2(level) as int, 2);
}

/// A subtree that lies wholly beyond the leaves is an empty subtree.
pub proof fn lemma_node_beyond_leaves(
    leaves: Seq<Seq<u8>>,
    empty: Seq<u8>,
    height: nat,
    pos: nat,
)
    requires
        pos * pow2(height) >= leaves.len(),
    ensures
        node(leaves, empty, height, pos) == zero_value(empty, height),
    decreases height,
{
    if height == 0 {
        assert(pow2(0) == 1) by {
            lemma2_to64();
        }
    } else {
        let h = (height - 1) as nat;
        lemma_pow2_unfold(height);
        assert((2 * pos) * pow2(h) == pos * pow2(height) && (2 * pos + 1) * pow2(h) >= pos * pow2(
            height,
        )) by (nonlinear_arith)
            requires
                pow2(height) == 2 * pow2(h),
        ;
        lemma_node_beyond_leaves(leaves, empty, h, 2 * pos);
        lemma_node_beyond_leaves(leaves, empty, h, 2 * pos + 1);
        lemma_lex_le_total(zero_value(empty, h), zero_value(empty, h));
    }
}

/// A subtree that lies wholly within the leaves of `shorter` is the same
/// in every tree whose leaves begin with `shorter`.
pub proof fn lemma_node_within_prefix(
    shorter: Seq<Seq<u8>>,
    longer: Seq<Seq<u8>>,
    empty: Seq<u8>,
    height: nat,
    pos: nat,
)
    requires
        shorter.len() <= longer.len(),
        forall|i: int| 0 <= i < shorter.len() ==> shorter[i] == longer[i],
        (pos + 1) * pow2(height) <= shorter.len(),
    ensures
        node(shorter, empty, height, pos) == node(longer, empty, height, pos),
    decreases height,
{
    if height == 0 {
        assert(pow2(0) == 1) by {
            lemma2_to64();
        }
    } else {
        let h = (height - 1) as nat;
        lemma_pow2_unfold(height);
        assert((2 * pos + 1) * pow2(h) <= (pos + 1) * pow2(height) && (2 * pos + 2) * pow2(h) == (
        pos + 1) * pow2(height)) by (nonlinear_arith)
            requires
                pow2(height) == 2 * pow2(h),
        ;
        lemma_node_within_prefix(shorter, longer, empty, h, 2 * pos);
        lemma_node_within_prefix(shorter, longer, empty, h, 2 * pos + 1);
    }
}

/// Folding the first `height` siblings met by the next leaf gives the node
/// of the complete tree above that leaf.
proof fn lemma_partial_fold(t: TreeView, leaves: Seq<Seq<u8>>, leaf: Seq<u8>, height: nat)
    requires
        t.represents(leaves),
        !t.is_full(),
        height <= t.levels,
    ensures
        fold_path(leaf_hash(leaf), t.insertion_path().take(height as int)) == node(
            leaves.push(leaf),
            t.zero_values[0],
            height,
            t.next_index / pow2(height),
        ),
    decreases height,
{
    let n = t.next_index;
    let path = t.insertion_path();
    let longer = leaves.push(leaf);
    let empty = t.zero_values[0];
    if height == 0 {
        assert(pow2(0) == 1) by {
            lemma2_to64();
        }
    } else {
        let h = (height - 1) as nat;
        lemma_partial_fold(t, leaves, leaf, h);
        lemma_halve(n, h);
        let k = n / pow2(h);
        let below = fold_path(leaf_hash(leaf), path.take(h as int));
        assert(path.take(height as int).drop_last() =~= path.take(h as int));
        lemma_div_bounds(n, pow2(h));
        if is_left(n, h) {
            lemma_node_beyond_leaves(longer, empty, h, k + 1);
        } else {
            lemma_node_within_prefix(leaves, longer, empty, h, (k - 1) as nat);
            lemma_combine_commutes(below, t.filled_subtrees[h as int]);
        }
    }
}

/// Adding a leaf keeps the accumulator in step with the complete tree.
pub proof fn lemma_append_represents(t: TreeView, leaves: Seq<Seq<u8>>, leaf: Seq<u8>)
    requires
        t.represents(leaves),
        !t.is_full(),
    ensures
        t.append(leaf).represents(leaves.push(leaf)),
{
    let n = t.next_index;
    let after = t.append(leaf);
    let longer = leaves.push(leaf);
    let empty = t.zero_values[0];
    let path = t.insertion_path();
    lemma_partial_fold(t, leaves, leaf, t.levels);
    assert(path.take(t.levels as int) =~= path);
    lemma_pow2_pos(t.levels);
    lemma_div_bounds(n, pow2(t.levels));
    assert forall|i: int| 0 <= i < after.levels && !is_left(after.next_index, i as nat) implies
        #[trigger] after.filled_subtrees[i] == node(
        longer,
        empty,
        i as nat,
        (after.next_index / pow2(i as nat) - 1) as nat,
    ) by {
        let h = i as nat;
        lemma_pow2_pos(h);
        lemma_div_bounds(n, pow2(h));
        let k = n / pow2(h);
        if (n + 1) / pow2(h) == k {
            lemma_node_within_prefix(leaves, longer, empty, h, (k - 1) as nat);
        } else {
            lemma_partial_fold(t, leaves, leaf, h);
        }
    }
}

/// The tree made by adding `leaves` one by one to an empty tree is in step
/// with the complete tree over them.
pub proof fn lemma_append_all_represents(base: Seq<u8>, levels: nat, leaves: Seq<Seq<u8>>)
    requires
        1 <= levels <= 64,
        leaves.len() <= pow2(levels),
    ensures
        TreeView::empty(base, levels).append_all(leaves).represents(leaves),
        TreeView::empty(base, levels).append_all(leaves).levels == levels,
        TreeView::empty(base, levels).append_all(leaves).zero_values[0] == base,
    decreases leaves.len(),
{
    let start = TreeView::empty(base, levels);
    lemma_pow2_pos(levels);
    if leaves.len() == 0 {
        assert forall|i: int| 0 <= i < start.levels && !is_left(start.next_index, i as nat) implies
            #[trigger] start.filled_subtrees[i] == node(
            leaves,
            start.zero_values[0],
            i as nat,
            (start.next_index / pow2(i as nat) - 1) as nat,
        ) by {
            lemma_pow2_pos(i as nat);
            lemma_div_bounds(0, pow2(i as nat));
        }
    } else {
        lemma_append_all_represents(base, levels, leaves.drop_last());
        lemma_append_represents(
            start.append_all(leaves.drop_last()),
            leaves.drop_last(),
            leaves.last(),
        );
        assert(leaves.drop_last().push(leaves.last()) =~= leaves);
    }
}

/// After any number of leaves, from one up to the tree's capacity, have
/// been added to an empty tree, the accumulator's root is the root of the
/// complete tree computed from scratch over the same leaves.
pub proof fn lemma_root_is_full_tree_root(base: Seq<u8>, levels: nat, leaves: Seq<Seq<u8>>)
    requires
        1 <= levels <= 64,
        1 <= leaves.len() <= pow2(levels),
    ensures
        TreeView::empty(base, levels).append_all(leaves).root == full_tree_root(
            leaves,
            base,
            levels,
        ),
{
    lemma_append_all_represents(base, levels, leaves);
}

/// The siblings recorded while a leaf is added lead from that leaf to the
/// root that the tree has right after the addition.
pub proof fn lemma_insertion_path_verifies(t: TreeView, leaf: Seq<u8>)
    ensures
        fold_path(leaf_hash(leaf), t.insertion_path()) == t.append(leaf).root,
{
}

proof fn lemma_full_tree_partial_fold(
    leaves: Seq<Seq<u8>>,
    empty: Seq<u8>,
    levels: nat,
    index: nat,
    height: nat,
)
    requires
        index < leaves.len(),
        height <= levels,
    ensures
        fold_path(
            leaf_hash(leaves[index as int]),
            full_tree_path(leaves, empty, levels, index).take(height as int),
        ) == node(leaves, empty, height, index / pow2(height)),
    decreases height,
{
    let path = full_tree_path(leaves, empty, levels, index);
    if height == 0 {
        assert(pow2(0) == 1) by {
            lemma2_to64();
        }
    } else {
        let h = (height - 1) as nat;
        lemma_full_tree_partial_fold(leaves, empty, levels, index, h);
        lemma_halve(index, h);
        let k = index / pow2(h);
        let below = fold_path(leaf_hash(leaves[index as int]), path.take(h as int));
        assert(path.take(height as int).drop_last() =~= path.take(h as int));
        if k % 2 != 0 {
            lemma_combine_commutes(below, node(leaves, empty, h, sibling_pos(k)));
        }
    }
}

/// In the complete tree over `leaves`, the siblings of any leaf lead from
/// that leaf to the root, whatever leaves were added after it.
pub proof fn lemma_full_tree_path_verifies(
    leaves: Seq<Seq<u8>>,
    empty: Seq<u8>,
    levels: nat,
    index: nat,
)
    requires
        index < leaves.len() <= pow2(levels),
    ensures
        fold_path(
            leaf_hash(leaves[index as int]),
            full_tree_path(leaves, empty, levels, index),
        ) == full_tree_root(leaves, empty, levels),
{
    let path = full_tree_path(leaves, empty, levels, index);
    lemma_full_tree_partial_fold(leaves, empty, levels, index, levels);
    assert(path.take(levels as int) =~= path);
    lemma_pow2_pos(levels);
    lemma_div_bounds(index, pow2(levels));
}

/// Where the accumulator is in step with the complete tree over `leaves`,
/// the siblings of any of these leaves in the complete tree lead from the
/// leaf to the accumulator's root.
pub proof fn lemma_represented_leaf_verifies(t: TreeView, leaves: Seq<Seq<u8>>, index: nat)
    requires
        t.represents(leaves),
        index < leaves.len(),
    ensures
        fold_path(
            leaf_hash(leaves[index as int]),
            full_tree_path(leaves, t.zero_values[0], t.levels, index),
        ) == t.root,
{
    lemma_full_tree_path_verifies(leaves, t.zero_values[0], t.levels, index);
}

/// The leaf added at the last free position is accepted and fills the
/// tree, so that no further leaf is.
pub proof fn lemma_last_position_fills(t: TreeView, leaf: Seq<u8>)
    requires
        t.wf(),
        t.next_index == pow2(t.levels) - 1,
    ensures
        !t.is_full(),
        t.append(leaf).wf(),
        t.append(leaf).is_full(),
{
}

} // verus!
