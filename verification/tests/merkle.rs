use tic_tac_toe_core::merkle::{
    empty_hashes, leaf_hash, merge, recompute_root, updated_root, verify_proof,
};
use tic_tac_toe_core::{cell_index, empty_board_root, Cell, MerkleTree};

#[test]
fn empty_board_round_trip() {
    let board = [[Cell::Empty; 3]; 3];
    let tree = MerkleTree::from_board(&board);
    assert_eq!(tree.root(), empty_board_root());
}

#[test]
fn proof_verify_and_update() {
    let mut board = [[Cell::Empty; 3]; 3];
    board[1][1] = Cell::X; // (x=1, y=1) is index 4

    let tree = MerkleTree::from_board(&board);
    let root = tree.root();

    let idx = cell_index(1, 1);
    let siblings = tree.inclusion_proof(idx);

    // Verify existing value
    assert!(verify_proof(&root, 1, 1, Cell::X, &siblings));
    assert!(!verify_proof(&root, 1, 1, Cell::Empty, &siblings));

    // Compute new root after placing O at (1,1)
    let new_root = updated_root(idx, Cell::O, &siblings);

    // Build a fresh tree with the update applied and compare roots
    board[1][1] = Cell::O;
    let tree2 = MerkleTree::from_board(&board);
    assert_eq!(new_root, tree2.root());
}

#[test]
fn proof_every_cell() {
    let mut board = [[Cell::Empty; 3]; 3];
    for y in 0..3usize {
        for x in 0..3usize {
            board[y][x] = if (x + y) % 2 == 0 { Cell::X } else { Cell::O };
        }
    }
    let tree = MerkleTree::from_board(&board);
    let root = tree.root();
    for y in 0..3u8 {
        for x in 0..3u8 {
            let idx = cell_index(x, y);
            let siblings = tree.inclusion_proof(idx);
            let cell = board[y as usize][x as usize];
            assert!(verify_proof(&root, x, y, cell, &siblings), "failed at ({x},{y})");
        }
    }
}

/// Every leaf index, the unused ones too, is proved by its own path.
#[test]
fn unused_leaves_are_proved_empty() {
    let mut board = [[Cell::Empty; 3]; 3];
    board[2][2] = Cell::O;
    let tree = MerkleTree::from_board(&board);
    for index in 9..16u8 {
        let siblings = tree.inclusion_proof(index);
        assert_eq!(recompute_root(index, Cell::Empty, &siblings), tree.root());
        assert_ne!(recompute_root(index, Cell::O, &siblings), tree.root());
    }
}

#[test]
fn leaf_hashes_have_known_values() {
    assert_eq!(
        hex::encode(leaf_hash(Cell::Empty)),
        "6e340b9cffb37a989ca544e6bb780a2c78901d3fb33738768511a30617afa01d"
    );
    assert_eq!(
        hex::encode(leaf_hash(Cell::X)),
        "4bf5122f344554c53bde2ebb8cd2b7e3d1600ad631c385a5d7cce23c7785459a"
    );
    assert_eq!(
        hex::encode(leaf_hash(Cell::O)),
        "dbc1b4c900ffe48d575b5da5c638040125f65db0fe3e24494b76ea986457d986"
    );
}

#[test]
fn empty_subtrees_have_known_values() {
    let hashes = empty_hashes();
    assert_eq!(hashes[0], leaf_hash(Cell::Empty));
    assert_eq!(hashes[1], merge(&hashes[0], &hashes[0]));
    assert_eq!(
        hex::encode(hashes[1]),
        "b289dea92ca5aba5f2e1891a1af11be27914c48854db0fe5b4bb95c137e0f2d6"
    );
    assert_eq!(
        hex::encode(empty_board_root()),
        "94ae79e5ca8c33072ed2b957a9dfbda4fc3b85e204638ef32b0e97089f3ceb3c"
    );
}

#[test]
fn board_root_has_known_value() {
    let mut board = [[Cell::Empty; 3]; 3];
    board[1][1] = Cell::X;
    assert_eq!(
        hex::encode(MerkleTree::from_board(&board).root()),
        "bb6c754597613acc49d169c4bd8e30354b195b3fe24b4c6a219e29589f289748"
    );
}

/// The siblings of a leaf are the hashes of the subtrees beside its path.
#[test]
fn siblings_run_from_leaf_to_root() {
    let board = [[Cell::Empty; 3]; 3];
    let siblings = MerkleTree::from_board(&board).inclusion_proof(4);
    let hashes = empty_hashes();
    for level in 0..4usize {
        assert_eq!(siblings[level], hashes[level]);
    }
}

#[test]
fn merge_is_ordered() {
    let x = leaf_hash(Cell::X);
    let o = leaf_hash(Cell::O);
    assert_ne!(merge(&x, &o), merge(&o, &x));
}

#[test]
fn cell_indices_follow_rows() {
    assert_eq!(cell_index(0, 0), 0);
    assert_eq!(cell_index(2, 0), 2);
    assert_eq!(cell_index(0, 1), 3);
    assert_eq!(cell_index(2, 2), 8);
    assert_eq!(cell_index(0, 85), 255);
}

/// Boards that differ in one cell have different roots.
#[test]
fn different_boards_have_different_roots() {
    let mut roots = vec![empty_board_root()];
    for y in 0..3usize {
        for x in 0..3usize {
            for cell in [Cell::X, Cell::O] {
                let mut board = [[Cell::Empty; 3]; 3];
                board[y][x] = cell;
                let root = MerkleTree::from_board(&board).root();
                assert!(!roots.contains(&root));
                roots.push(root);
            }
        }
    }
}
