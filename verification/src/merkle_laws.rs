//! What the Merkle tree guarantees: honest proofs verify, they carry over an update,
//! and two proofs can disagree only by exhibiting a SHA-256 collision.

use crate::crypto::{sha256_collision, sha256_digest};
use crate::merkle::{
    ancestor, board_cells, board_digest, board_leaves, empty_board, empty_subtree, leaf_cell,
    leaf_digest, leaf_index, level_width, node_digest, path_digest, path_preimage, path_root,
    sibling_of, sibling_path, subtree, tree_root,
};
use crate::types::{Board, Cell, Hash32, TREE_DEPTH};
use vstd::prelude::*;

verus! {

/// A node off the path of a leaf does not see that leaf.
proof fn lemma_off_path(leaves: Seq<Hash32>, index: int, digest: Hash32, level: nat, i: int)
    requires
        leaves.len() == 16,
        0 <= index < 16,
        level <= TREE_DEPTH,
        0 <= i < level_width(level),
        i != ancestor(index, level),
    ensures
        subtree(leaves.update(index, digest), level, i) == subtree(leaves, level, i),
    decreases level,
{
    if level > 0 {
        lemma_off_path(leaves, index, digest, (level - 1) as nat, 2 * i);
        lemma_off_path(leaves, index, digest, (level - 1) as nat, 2 * i + 1);
    }
}

/// The path of a leaf stays within the tree.
proof fn lemma_ancestor_in_range(index: int, level: nat)
    requires
        0 <= index < 16,
        level <= TREE_DEPTH,
    ensures
        0 <= ancestor(index, level) < level_width(level),
        level < TREE_DEPTH ==> 0 <= sibling_of(ancestor(index, level)) < level_width(level),
{
    reveal_with_fuel(ancestor, 5);
    reveal_with_fuel(level_width, 5);
    assert(level == 0 || level == 1 || level == 2 || level == 3 || level == 4);
}

proof fn lemma_walk(leaves: Seq<Hash32>, index: int, cell: Cell, level: nat)
    requires
        leaves.len() == 16,
        0 <= index < 16,
        level <= TREE_DEPTH,
    ensures
        path_digest(index, cell, sibling_path(leaves, index), level) == subtree(
            leaves.update(index, leaf_digest(cell)),
            level,
            ancestor(index, level),
        ),
    decreases level,
{
    if level > 0 {
        let k = (level - 1) as nat;
        let node = ancestor(index, k);
        lemma_walk(leaves, index, cell, k);
        lemma_ancestor_in_range(index, k);
        lemma_off_path(leaves, index, leaf_digest(cell), k, sibling_of(node));
        assert(ancestor(index, level) == node / 2);
    }
}

/// The siblings of a leaf stay valid when that leaf is rewritten: walking up from
/// `cell` along the sibling path of leaf `index` arrives at the root of the tree in
/// which that leaf holds `cell`, and every other leaf what it held.
pub proof fn proof_survives_update(leaves: Seq<Hash32>, index: int, cell: Cell)
    requires
        leaves.len() == 16,
        0 <= index < 16,
    ensures
        path_root(index, cell, sibling_path(leaves, index)) == tree_root(
            leaves.update(index, leaf_digest(cell)),
        ),
{
    lemma_walk(leaves, index, cell, TREE_DEPTH as nat);
    reveal_with_fuel(ancestor, 5);
}

/// Every leaf of a board's tree, used or unused, is proved by its own sibling path.
pub proof fn honest_proof_verifies(cells: Seq<Cell>, index: int)
    requires
        cells.len() == 9,
        0 <= index < 16,
    ensures
        path_root(
            index,
            leaf_cell(cells, index),
            sibling_path(board_leaves(cells), index),
        ) == board_digest(cells),
{
    let leaves = board_leaves(cells);
    proof_survives_update(leaves, index, leaf_cell(cells, index));
    assert(leaves.update(index, leaf_digest(leaf_cell(cells, index))) =~= leaves);
}

/// Placing `cell` on a board and keeping the siblings of its leaf gives the root of
/// the new board, with no need to rebuild the tree.
pub proof fn honest_update_commits(cells: Seq<Cell>, index: int, cell: Cell)
    requires
        cells.len() == 9,
        0 <= index < 9,
    ensures
        path_root(index, cell, sibling_path(board_leaves(cells), index)) == board_digest(
            cells.update(index, cell),
        ),
{
    let leaves = board_leaves(cells);
    proof_survives_update(leaves, index, cell);
    assert(leaves.update(index, leaf_digest(cell)) =~= board_leaves(cells.update(index, cell)));
}

proof fn lemma_empty_level(level: nat, i: int)
    requires
        level <= TREE_DEPTH,
        0 <= i < level_width(level),
    ensures
        subtree(board_leaves(empty_board()), level, i) == empty_subtree(level),
    decreases level,
{
    if level > 0 {
        lemma_empty_level((level - 1) as nat, 2 * i);
        lemma_empty_level((level - 1) as nat, 2 * i + 1);
    }
}

/// The precomputed root of empty subtrees is the root of the empty board.
pub proof fn empty_root_commits_to_empty_board()
    ensures
        empty_subtree(TREE_DEPTH as nat) == board_digest(empty_board()),
{
    reveal_with_fuel(level_width, 5);
    lemma_empty_level(TREE_DEPTH as nat, 0);
}

/// A SHA-256 collision among the inputs hashed on two walks up the tree.
pub open spec fn walks_collide(
    index: int,
    cell_a: Cell,
    siblings_a: Seq<Hash32>,
    cell_b: Cell,
    siblings_b: Seq<Hash32>,
) -> bool {
    exists|level: nat|
        level <= TREE_DEPTH && sha256_collision(
            #[trigger] path_preimage(index, cell_a, siblings_a, level),
            path_preimage(index, cell_b, siblings_b, level),
        )
}

proof fn lemma_walks_agree(
    index: int,
    cell_a: Cell,
    siblings_a: Seq<Hash32>,
    cell_b: Cell,
    siblings_b: Seq<Hash32>,
    level: nat,
)
    requires
        level <= TREE_DEPTH,
        path_digest(index, cell_a, siblings_a, level) == path_digest(
            index,
            cell_b,
            siblings_b,
            level,
        ),
        !walks_collide(index, cell_a, siblings_a, cell_b, siblings_b),
    ensures
        cell_a == cell_b,
        forall|k: int| 0 <= k < level ==> siblings_a[k] == siblings_b[k],
    decreases level,
{
    let pre_a = path_preimage(index, cell_a, siblings_a, level);
    let pre_b = path_preimage(index, cell_b, siblings_b, level);
    assert(pre_a == pre_b);
    if level == 0 {
        assert(pre_a[0] == pre_b[0]);
    } else {
        let k = (level - 1) as nat;
        let below_a = path_digest(index, cell_a, siblings_a, k);
        let below_b = path_digest(index, cell_b, siblings_b, k);
        let left = ancestor(index, k) % 2 == 0;
        let own: int = if left {
            0
        } else {
            32
        };
        assert forall|i: int| 0 <= i < 32 implies below_a@[i] == below_b@[i] by {
            assert(pre_a[own + i] == pre_b[own + i]);
        }
        assert forall|i: int|
            0 <= i < 32 implies siblings_a[k as int]@[i] == siblings_b[k as int]@[i] by {
            assert(pre_a[32 - own + i] == pre_b[32 - own + i]);
        }
        assert(below_a =~= below_b);
        assert(siblings_a[k as int] =~= siblings_b[k as int]);
        lemma_walks_agree(index, cell_a, siblings_a, cell_b, siblings_b, k);
    }
}

/// Proofs are binding: two proofs for one leaf that arrive at one root show the same
/// cell and the same siblings, unless the two walks exhibit a SHA-256 collision.
pub proof fn accepted_proofs_agree(
    index: int,
    cell_a: Cell,
    siblings_a: Seq<Hash32>,
    cell_b: Cell,
    siblings_b: Seq<Hash32>,
)
    requires
        siblings_a.len() == TREE_DEPTH,
        siblings_b.len() == TREE_DEPTH,
        path_root(index, cell_a, siblings_a) == path_root(index, cell_b, siblings_b),
    ensures
        (cell_a == cell_b && siblings_a == siblings_b) || walks_collide(
            index,
            cell_a,
            siblings_a,
            cell_b,
            siblings_b,
        ),
{
    if !walks_collide(index, cell_a, siblings_a, cell_b, siblings_b) {
        lemma_walks_agree(index, cell_a, siblings_a, cell_b, siblings_b, TREE_DEPTH as nat);
        assert(siblings_a =~= siblings_b);
    }
}

/// A proof accepted against the root of a board shows the cell that the board holds
/// and the siblings of that leaf, unless it exhibits a SHA-256 collision. Claiming that
/// an occupied cell is empty takes such a collision.
pub proof fn accepted_proof_shows_the_board(
    cells: Seq<Cell>,
    index: int,
    cell: Cell,
    siblings: Seq<Hash32>,
)
    requires
        cells.len() == 9,
        0 <= index < 9,
        siblings.len() == TREE_DEPTH,
        path_root(index, cell, siblings) == board_digest(cells),
    ensures
        (cell == cells[index] && siblings == sibling_path(board_leaves(cells), index))
            || walks_collide(
            index,
            cell,
            siblings,
            cells[index],
            sibling_path(board_leaves(cells), index),
        ),
{
    honest_proof_verifies(cells, index);
    accepted_proofs_agree(
        index,
        cell,
        siblings,
        cells[index],
        sibling_path(board_leaves(cells), index),
    );
}

/// A SHA-256 collision among the inputs hashed on the ways up from some cell of two boards.
pub open spec fn boards_collide(cells_a: Seq<Cell>, cells_b: Seq<Cell>) -> bool {
    exists|index: int|
        0 <= index < 9 && #[trigger] walks_collide(
            index,
            cells_a[index],
            sibling_path(board_leaves(cells_a), index),
            cells_b[index],
            sibling_path(board_leaves(cells_b), index),
        )
}

/// A board root commits to its board: two boards with one root are equal, unless their
/// trees exhibit a SHA-256 collision.
pub proof fn board_root_is_binding(cells_a: Seq<Cell>, cells_b: Seq<Cell>)
    requires
        cells_a.len() == 9,
        cells_b.len() == 9,
        board_digest(cells_a) == board_digest(cells_b),
    ensures
        cells_a == cells_b || boards_collide(cells_a, cells_b),
{
    if !boards_collide(cells_a, cells_b) {
        assert forall|index: int| 0 <= index < 9 implies cells_a[index] == cells_b[index] by {
            honest_proof_verifies(cells_a, index);
            accepted_proof_shows_the_board(
                cells_b,
                index,
                cells_a[index],
                sibling_path(board_leaves(cells_a), index),
            );
        }
        assert(cells_a =~= cells_b);
    }
}

/// What is hashed: one byte for a leaf, 0 for an empty cell, 1 for X and 2 for O; the left
/// hash and then the right one for a node.
pub proof fn hashes_are_of_these_bytes(cell: Cell, left: Hash32, right: Hash32)
    ensures
        cell == Cell::Empty ==> leaf_digest(cell) == sha256_digest(seq![0u8]),
        cell == Cell::X ==> leaf_digest(cell) == sha256_digest(seq![1u8]),
        cell == Cell::O ==> leaf_digest(cell) == sha256_digest(seq![2u8]),
        node_digest(left, right) == sha256_digest(left@ + right@),
{
}

/// Every node of a tree above the leaves hashes its two children, and the root is the one
/// node at height 4. The all-empty subtrees are built the same way.
pub proof fn nodes_hash_their_children(leaves: Seq<Hash32>, level: nat, i: int)
    ensures
        subtree(leaves, 0, i) == leaves[i],
        subtree(leaves, level + 1, i) == sha256_digest(
            subtree(leaves, level, 2 * i)@ + subtree(leaves, level, 2 * i + 1)@,
        ),
        tree_root(leaves) == subtree(leaves, 4, 0),
        empty_subtree(0) == sha256_digest(seq![0u8]),
        empty_subtree(level + 1) == sha256_digest(empty_subtree(level)@ + empty_subtree(level)@),
{
}

/// The leaves of a board: cell `(x, y)` stands at position `3 * y + x`, and the positions
/// after the ninth hold empty cells.
pub proof fn leaves_hold_the_board(board: Board, x: int, y: int)
    ensures
        leaf_index(x, y) == 3 * y + x,
        board_cells(board).len() == 9,
        0 <= x < 3 && 0 <= y < 3 ==> board_cells(board)[3 * y + x] == board@[y]@[x],
        board_leaves(board_cells(board)).len() == 16,
        0 <= x < 3 && 0 <= y < 3 ==> board_leaves(board_cells(board))[3 * y + x] == leaf_digest(
            board@[y]@[x],
        ),
        forall|i: int|
            9 <= i < 16 ==> #[trigger] board_leaves(board_cells(board))[i] == sha256_digest(
                seq![0u8],
            ),
        board_digest(board_cells(board)) == tree_root(board_leaves(board_cells(board))),
        empty_board().len() == 9,
        forall|i: int| 0 <= i < 9 ==> #[trigger] empty_board()[i] == Cell::Empty,
{
}

/// The siblings of a leaf are four: at each height, the node that differs from the node on
/// the path in its last bit.
pub proof fn siblings_lie_beside_the_path(leaves: Seq<Hash32>, index: int)
    requires
        0 <= index < 16,
    ensures
        sibling_path(leaves, index).len() == 4,
        sibling_path(leaves, index)[0] == subtree(
            leaves,
            0,
            if index % 2 == 0 { index + 1 } else { index - 1 },
        ),
        sibling_path(leaves, index)[1] == subtree(
            leaves,
            1,
            if (index / 2) % 2 == 0 { index / 2 + 1 } else { index / 2 - 1 },
        ),
        sibling_path(leaves, index)[2] == subtree(
            leaves,
            2,
            if (index / 4) % 2 == 0 { index / 4 + 1 } else { index / 4 - 1 },
        ),
        sibling_path(leaves, index)[3] == subtree(
            leaves,
            3,
            if (index / 8) % 2 == 0 { index / 8 + 1 } else { index / 8 - 1 },
        ),
{
    reveal_with_fuel(ancestor, 5);
}

/// The walk up from a leaf, hash by hash: bit `k` of the index tells whether the hash so far
/// comes before the sibling at height `k` or after it. Bits above the fourth do not matter.
pub proof fn the_walk_follows_the_index(index: u8, cell: Cell, siblings: Seq<Hash32>)
    ensures
        ({
            let h0 = leaf_digest(cell);
            let h1 = if index % 2 == 0 {
                sha256_digest(h0@ + siblings[0]@)
            } else {
                sha256_digest(siblings[0]@ + h0@)
            };
            let h2 = if (index / 2) % 2 == 0 {
                sha256_digest(h1@ + siblings[1]@)
            } else {
                sha256_digest(siblings[1]@ + h1@)
            };
            let h3 = if (index / 4) % 2 == 0 {
                sha256_digest(h2@ + siblings[2]@)
            } else {
                sha256_digest(siblings[2]@ + h2@)
            };
            let h4 = if (index / 8) % 2 == 0 {
                sha256_digest(h3@ + siblings[3]@)
            } else {
                sha256_digest(siblings[3]@ + h3@)
            };
            path_root(index as int, cell, siblings) == h4
        }),
{
    reveal_with_fuel(ancestor, 5);
    reveal_with_fuel(path_preimage, 5);
}

} // verus!
