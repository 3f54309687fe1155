use splitter::error::ErrorCode;
use splitter::pool::{DataVersion, Pool};
use splitter::session::Proof;
use splitter::utils::{MAXIMUM_MERKLE_DEPTH, MAX_HISTORY, NAME_DEFAULT_SIZE, PREFIX_MERKLE_TREE};

fn pool_of_depth(levels: u8) -> Result<Pool, ErrorCode> {
    let seeds: [&[u8]; 2] = [PREFIX_MERKLE_TREE.as_bytes(), b"S"];
    Pool::new([1u8; 32], [2u8; 32], [3u8; 32], 254, String::from("treasury"), levels, &seeds)
}

fn numbered(n: u8) -> [u8; 32] {
    let mut v = [0x5au8; 32];
    v[31] = n;
    v
}

#[test]
fn new_pool_holds_what_it_was_given() {
    let pool = pool_of_depth(5).unwrap();
    assert_eq!(pool.data_version, DataVersion::Version1);
    assert_eq!(pool.authority, [1u8; 32]);
    assert_eq!(pool.mint, [2u8; 32]);
    assert_eq!(pool.vault, [3u8; 32]);
    assert_eq!(pool.vault_bump, 254);
    assert_eq!(pool.name, "treasury");
    assert_eq!(pool.history_list, vec![[0u8; 32]; 32]);
    assert_eq!(pool.current_index, 0);
    assert_eq!(pool.merkle_tree.levels, 5);
    assert_eq!(pool.merkle_tree.next_index, 0);
    assert_eq!(pool.merkle_tree.zero_values.len(), 5);
    assert_eq!(pool.merkle_tree.root, pool.merkle_tree.zero_values[4]);
}

#[test]
fn new_pool_refuses_a_depth_out_of_range() {
    assert_eq!(pool_of_depth(0).err(), Some(ErrorCode::InvalidMerkleTreeDepth));
    assert_eq!(pool_of_depth(65).err(), Some(ErrorCode::InvalidMerkleTreeDepth));
    assert_eq!(pool_of_depth(255).err(), Some(ErrorCode::InvalidMerkleTreeDepth));
    assert!(pool_of_depth(1).is_ok());
    assert!(pool_of_depth(64).is_ok());
}

#[test]
fn sizes_and_limits() {
    assert_eq!(Pool::get_history_size(0), 0);
    assert_eq!(Pool::get_history_size(32), 1024);
    assert_eq!(Pool::get_history_size(255), 8160);
    assert_eq!(Pool::LEN, 196);
    assert_eq!(MAX_HISTORY, 32);
    assert_eq!(NAME_DEFAULT_SIZE, 32);
    assert_eq!(MAXIMUM_MERKLE_DEPTH, 64);
    assert_eq!(DataVersion::default(), DataVersion::Unknown);
}

#[test]
fn saving_a_root_overwrites_the_slot_at_the_cursor_and_moves_on() {
    let mut pool = pool_of_depth(3).unwrap();
    let empty_root = pool.merkle_tree.root;
    assert!(!pool.contains(&empty_root));
    pool.save_recent_root();
    assert_eq!(pool.current_index, 1);
    assert_eq!(pool.history_list[0], empty_root);
    assert!(pool.contains(&empty_root));
    assert_eq!(pool.get_recent_root(), [0u8; 32]);

    pool.add_leaf(numbered(1)).unwrap();
    let root = pool.merkle_tree.root;
    assert!(!pool.contains(&root));
    pool.save_recent_root();
    assert_eq!(pool.current_index, 2);
    assert_eq!(pool.history_list[1], root);
    assert_eq!(pool.history_list[0], empty_root);
    assert!(pool.contains(&root));
    assert!(pool.contains(&empty_root));
}

#[test]
fn adding_leaves_does_not_save_roots() {
    let mut pool = pool_of_depth(3).unwrap();
    pool.add_leaf(numbered(1)).unwrap();
    pool.add_leaf(numbered(2)).unwrap();
    assert_eq!(pool.history_list, vec![[0u8; 32]; 32]);
    assert_eq!(pool.current_index, 0);
    assert_eq!(pool.merkle_tree.next_index, 2);
}

#[test]
fn ring_keeps_the_last_32_roots() {
    let mut pool = pool_of_depth(6).unwrap();
    let mut roots = Vec::new();
    for n in 0..40u8 {
        pool.add_leaf(numbered(n)).unwrap();
        roots.push(pool.merkle_tree.root);
        pool.save_recent_root();
        assert_eq!(pool.current_index, (n + 1) % 32);
        for (i, root) in roots.iter().enumerate() {
            assert_eq!(pool.contains(root), roots.len() - i <= 32);
        }
    }
    assert_eq!(pool.current_index, 8);
    assert_eq!(pool.get_recent_root(), roots[8]);
    assert_eq!(pool.history_list[7], roots[39]);
    assert_eq!(pool.history_list.len(), 32);
}

#[test]
fn full_tree_refuses_a_leaf_and_leaves_the_pool_unchanged() {
    let mut pool = pool_of_depth(1).unwrap();
    assert_eq!(pool.add_leaf(numbered(1)), Ok(()));
    assert_eq!(pool.add_leaf(numbered(2)), Ok(()));
    let root = pool.merkle_tree.root;
    assert_eq!(pool.add_leaf(numbered(3)), Err(ErrorCode::MerkleTreeFull));
    assert_eq!(pool.merkle_tree.root, root);
    assert_eq!(pool.merkle_tree.next_index, 2);
}

#[test]
fn session_for_a_root_never_saved_is_refused() {
    let mut pool = pool_of_depth(2).unwrap();
    pool.add_leaf(numbered(1)).unwrap();
    let unsaved = pool.merkle_tree.root;
    let r = Proof::open(&pool, [9u8; 32], 255, unsaved, numbered(1));
    assert_eq!(r.err(), Some(ErrorCode::InvalidRecentRoot));
    let r = Proof::open(&pool, [9u8; 32], 255, [0x77u8; 32], numbered(1));
    assert_eq!(r.err(), Some(ErrorCode::InvalidRecentRoot));
    pool.save_recent_root();
    assert!(Proof::open(&pool, [9u8; 32], 255, unsaved, numbered(1)).is_ok());
}

#[test]
fn well_formed_pools_have_a_cursor_within_the_ring() {
    let pool = pool_of_depth(3).unwrap();
    assert!(pool.is_well_formed());
    let mut beyond = pool.clone();
    beyond.current_index = 32;
    assert!(!beyond.is_well_formed());
    let mut empty = pool.clone();
    empty.history_list.clear();
    assert!(!empty.is_well_formed());
    let mut one = pool.clone();
    one.history_list.truncate(1);
    assert!(one.is_well_formed());
    one.save_recent_root();
    assert_eq!(one.current_index, 0);
    assert_eq!(one.history_list, vec![pool.merkle_tree.root]);
    let mut bad_tree = pool.clone();
    bad_tree.merkle_tree.zero_values.pop();
    assert!(!bad_tree.is_well_formed());
}
