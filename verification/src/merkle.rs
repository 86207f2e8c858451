//! Depth-4 Sparse Merkle Tree over a 3x3 Tic-Tac-Toe board.
//!
//! ## Layout
//!
//! ```text
//! Depth 4  ->  16 leaves, indexed 0..=15
//! Board mapping: index = y * 3 + x   (indices 0..=8 used, 9..=15 always Empty)
//!
//! Root (depth 0)
//!  |-- [0..7]   (depth 1, left)
//!  |    |-- [0..3]  (depth 2)
//!  |    |    |-- [0,1]  (depth 3) -> leaf 0 = (0,0), leaf 1 = (1,0)
//!  |    |    `-- [2,3]  (depth 3) -> leaf 2 = (2,0), leaf 3 = (0,1)
//!  |    `-- [4..7]  (depth 2)
//!  |         |-- [4,5]  (depth 3) -> leaf 4 = (1,1), leaf 5 = (2,1)
//!  |         `-- [6,7]  (depth 3) -> leaf 6 = (0,2), leaf 7 = (1,2)
//!  `-- [8..15] (depth 1, right)
//!       |-- [8..11] (depth 2)
//!       |    |-- [8,9]   (depth 3) -> leaf 8 = (2,2), leaf 9 = unused
//!       |    `-- [10,11] (depth 3) -> unused
//!       `-- [12..15] (depth 2) -> all unused
//! ```
//!
//! ## Proof format
//!
//! `siblings[0]` = sibling at leaf level (closest to leaf)
//! `siblings[TREE_DEPTH - 1]` = sibling closest to root
//!
//! Verification: walk from leaf to root, at bit `k` of the index,
//! bit=0 means we are the left child (sibling is right):
//!   `current = SHA256(current || siblings[k])`
//! bit=1 means we are the right child (sibling is left):
//!   `current = SHA256(siblings[k] || current)`

use crate::crypto::sha256;
use crate::types::{bytes_equal, Board, Cell, Hash32, TREE_DEPTH, TREE_LEVELS};
use vstd::prelude::*;

verus! {

// ---------------------------------------------------------------------------
// Model
// ---------------------------------------------------------------------------

/// The byte hashed for a cell.
pub open spec fn cell_byte(cell: Cell) -> u8 {
    match cell {
        Cell::Empty => 0,
        Cell::X => 1,
        Cell::O => 2,
    }
}

/// The hash of a leaf that holds `cell`.
pub open spec fn leaf_digest(cell: Cell) -> Hash32 {
    crate::crypto::sha256_digest(seq![cell_byte(cell)])
}

/// The hash of an internal node.
pub open spec fn node_digest(left: Hash32, right: Hash32) -> Hash32 {
    crate::crypto::sha256_digest(left@ + right@)
}

/// The hash of an all-empty subtree of the given height.
pub open spec fn empty_subtree(height: nat) -> Hash32
    decreases height,
{
    if height == 0 {
        leaf_digest(Cell::Empty)
    } else {
        node_digest(empty_subtree((height - 1) as nat), empty_subtree((height - 1) as nat))
    }
}

/// The hash of the `i`-th node at height `level` over the given leaf hashes.
pub open spec fn subtree(leaves: Seq<Hash32>, level: nat, i: int) -> Hash32
    decreases level,
{
    if level == 0 {
        leaves[i]
    } else {
        node_digest(
            subtree(leaves, (level - 1) as nat, 2 * i),
            subtree(leaves, (level - 1) as nat, 2 * i + 1),
        )
    }
}

/// The root over sixteen leaf hashes.
pub open spec fn tree_root(leaves: Seq<Hash32>) -> Hash32 {
    subtree(leaves, TREE_DEPTH as nat, 0)
}

/// The node on the path from leaf `index` to the root, at height `level`.
pub open spec fn ancestor(index: int, level: nat) -> int
    decreases level,
{
    if level == 0 {
        index
    } else {
        ancestor(index, (level - 1) as nat) / 2
    }
}

/// The other child of the parent of node `i`.
pub open spec fn sibling_of(i: int) -> int {
    if i % 2 == 0 {
        i + 1
    } else {
        i - 1
    }
}

/// The sibling path of leaf `index`, from the leaf level upward.
pub open spec fn sibling_path(leaves: Seq<Hash32>, index: int) -> Seq<Hash32> {
    Seq::new(
        TREE_DEPTH as nat,
        |k: int| subtree(leaves, k as nat, sibling_of(ancestor(index, k as nat))),
    )
}

/// The bytes hashed at height `level` when walking up from a leaf that holds `cell`
/// along `siblings`.
pub open spec fn path_preimage(index: int, cell: Cell, siblings: Seq<Hash32>, level: nat) -> Seq<u8>
    decreases level,
{
    if level == 0 {
        seq![cell_byte(cell)]
    } else {
        let k = (level - 1) as nat;
        let below = crate::crypto::sha256_digest(path_preimage(index, cell, siblings, k));
        if ancestor(index, k) % 2 == 0 {
            below@ + siblings[k as int]@
        } else {
            siblings[k as int]@ + below@
        }
    }
}

/// The hash reached at height `level` of that walk.
pub open spec fn path_digest(index: int, cell: Cell, siblings: Seq<Hash32>, level: nat) -> Hash32 {
    crate::crypto::sha256_digest(path_preimage(index, cell, siblings, level))
}

/// The root that the walk arrives at.
pub open spec fn path_root(index: int, cell: Cell, siblings: Seq<Hash32>) -> Hash32 {
    path_digest(index, cell, siblings, TREE_DEPTH as nat)
}

/// The leaf index of a board coordinate.
pub open spec fn leaf_index(x: int, y: int) -> int {
    y * 3 + x
}

/// The nine cells of a board, in leaf order.
pub open spec fn board_cells(board: Board) -> Seq<Cell> {
    Seq::new(9, |i: int| board@[i / 3]@[i % 3])
}

/// The cell that leaf `i` of the tree over a board holds.
pub open spec fn leaf_cell(cells: Seq<Cell>, i: int) -> Cell {
    if 0 <= i < 9 {
        cells[i]
    } else {
        Cell::Empty
    }
}

/// The sixteen leaf hashes of a board.
pub open spec fn board_leaves(cells: Seq<Cell>) -> Seq<Hash32> {
    Seq::new(16, |i: int| leaf_digest(leaf_cell(cells, i)))
}

/// The root that commits to a board.
pub open spec fn board_digest(cells: Seq<Cell>) -> Hash32 {
    tree_root(board_leaves(cells))
}

/// The board with nothing on it.
pub open spec fn empty_board() -> Seq<Cell> {
    Seq::new(9, |i: int| Cell::Empty)
}

// ---------------------------------------------------------------------------
// Low-level hash helpers
// ---------------------------------------------------------------------------

pub fn leaf_hash(cell: Cell) -> (digest: Hash32)
    ensures
        digest == leaf_digest(cell),
{
    let byte: u8 = match cell {
        Cell::Empty => 0,
        Cell::X => 1,
        Cell::O => 2,
    };
    let preimage: [u8; 1] = [byte];
    let digest = sha256(preimage.as_slice());
    proof {
        assert(preimage@ =~= seq![cell_byte(cell)]);
        assert(digest =~= leaf_digest(cell));
    }
    digest
}

pub fn merge(left: &Hash32, right: &Hash32) -> (digest: Hash32)
    ensures
        digest == node_digest(*left, *right),
{
    let mut preimage: [u8; 64] = [0u8; 64];
    let mut i: usize = 0;
    while i < 32
        invariant
            i <= 32,
            forall|j: int| 0 <= j < i ==> preimage@[j] == left@[j],
            forall|j: int| 0 <= j < i ==> preimage@[32 + j] == right@[j],
        decreases 32 - i,
    {
        preimage[i] = left[i];
        preimage[32 + i] = right[i];
        i += 1;
    }
    let digest = sha256(preimage.as_slice());
    proof {
        assert forall|j: int| 0 <= j < 64 implies preimage@[j] == (left@ + right@)[j] by {
            if j >= 32 {
                assert(preimage@[32 + (j - 32)] == right@[j - 32]);
            }
        }
        assert(preimage@ =~= left@ + right@);
        assert(digest =~= node_digest(*left, *right));
    }
    digest
}

// ---------------------------------------------------------------------------
// Precomputed empty-subtree hashes
// ---------------------------------------------------------------------------

/// Returns `[h0, h1, h2, h3, h4]` where:
/// - `h0` = hash of an empty leaf
/// - `h_k` = hash of an all-empty subtree of height k
pub fn empty_hashes() -> (hashes: [Hash32; TREE_LEVELS])
    ensures
        forall|k: int| 0 <= k < TREE_LEVELS ==> hashes@[k] == empty_subtree(k as nat),
{
    let mut h: [Hash32; TREE_LEVELS] = [[0u8; 32]; TREE_LEVELS];
    h[0] = leaf_hash(Cell::Empty);
    let mut k: usize = 1;
    while k <= TREE_DEPTH
        invariant
            1 <= k <= TREE_LEVELS,
            forall|j: int| 0 <= j < k ==> h@[j] == empty_subtree(j as nat),
        decreases TREE_LEVELS - k,
    {
        h[k] = merge(&h[k - 1], &h[k - 1]);
        k += 1;
    }
    h
}

/// Root of a fully-empty board (all 16 leaves = Empty).
pub fn empty_board_root() -> (root: Hash32)
    ensures
        root == empty_subtree(TREE_DEPTH as nat),
{
    empty_hashes()[TREE_DEPTH]
}

// ---------------------------------------------------------------------------
// Key / index helpers
// ---------------------------------------------------------------------------

/// Map board coordinate to SMT leaf index.
pub fn cell_index(x: u8, y: u8) -> (index: u8)
    requires
        y * 3 + x <= u8::MAX,
    ensures
        index == leaf_index(x as int, y as int),
{
    y * 3 + x
}

// ---------------------------------------------------------------------------
// Proof verification
// ---------------------------------------------------------------------------

/// Recompute the root from `(index, cell, siblings)` and check it equals `root`.
pub fn verify_proof(root: &Hash32, x: u8, y: u8, cell: Cell, siblings: &[Hash32; TREE_DEPTH]) -> (ok: bool)
    requires
        y * 3 + x <= u8::MAX,
    ensures
        ok == (path_root(leaf_index(x as int, y as int), cell, siblings@) == *root),
{
    bytes_equal(&recompute_root(cell_index(x, y), cell, siblings), root)
}

/// Walk from leaf to root using the sibling path, returning the computed root.
pub fn recompute_root(index: u8, cell: Cell, siblings: &[Hash32; TREE_DEPTH]) -> (root: Hash32)
    ensures
        root == path_root(index as int, cell, siblings@),
{
    let mut cur: Hash32 = leaf_hash(cell);
    let mut k: usize = 0;
    while k < TREE_DEPTH
        invariant
            k <= TREE_DEPTH,
            cur == path_digest(index as int, cell, siblings@, k as nat),
        decreases TREE_DEPTH - k,
    {
        let bit: u8 = (index >> k) & 1;
        proof {
            lemma_index_bit(index, k);
        }
        cur = if bit == 0 {
            merge(&cur, &siblings[k])
        } else {
            merge(&siblings[k], &cur)
        };
        k += 1;
    }
    cur
}

/// Compute the new root after replacing the cell at `index` with `new_cell`,
/// reusing the same `siblings` (they are all off the updated path).
pub fn updated_root(index: u8, new_cell: Cell, siblings: &[Hash32; TREE_DEPTH]) -> (root: Hash32)
    ensures
        root == path_root(index as int, new_cell, siblings@),
{
    recompute_root(index, new_cell, siblings)
}

/// Bit `k` of the index says which child the path goes through at height `k`.
proof fn lemma_index_bit(index: u8, k: usize)
    requires
        k < TREE_DEPTH,
    ensures
        ((index >> k) & 1) as int == ancestor(index as int, k as nat) % 2,
{
    reveal_with_fuel(ancestor, 5);
    assert(k == 0 || k == 1 || k == 2 || k == 3);
    assert((index >> 0usize) & 1 == index % 2) by (bit_vector);
    assert((index >> 1usize) & 1 == (index / 2) % 2) by (bit_vector);
    assert((index >> 2usize) & 1 == (index / 2 / 2) % 2) by (bit_vector);
    assert((index >> 3usize) & 1 == (index / 2 / 2 / 2) % 2) by (bit_vector);
}

// ---------------------------------------------------------------------------
// Full-tree builder (used by the server to generate proofs)
// ---------------------------------------------------------------------------

/// In-memory representation of the full depth-4 SMT for a given board state.
/// The server keeps a board and rebuilds this whenever it needs proofs.
///
/// Its view is the sequence of its sixteen leaf hashes.
pub struct MerkleTree {
    /// `nodes[level]` has `16 >> level` entries.
    /// `nodes[0]` = 16 leaf hashes; `nodes[4]` = 1 root hash.
    nodes: Vec<Vec<Hash32>>,
}

/// The number of nodes at height `level`.
pub open spec fn level_width(level: nat) -> nat
    decreases level,
{
    if level == 0 {
        16
    } else {
        level_width((level - 1) as nat) / 2
    }
}

/// Whether `row` is level `level` of the tree over `leaves`.
pub open spec fn is_level(row: Seq<Hash32>, leaves: Seq<Hash32>, level: nat) -> bool {
    &&& row.len() == level_width(level)
    &&& forall|i: int| 0 <= i < row.len() ==> row[i] == subtree(leaves, level, i)
}

/// The leaf level of the tree over `board`.
fn leaf_row(board: &Board) -> (leaves: Vec<Hash32>)
    ensures
        leaves@ == board_leaves(board_cells(*board)),
{
    let empty = empty_hashes();
    let mut leaves: Vec<Hash32> = Vec::new();
    let mut i: usize = 0;
    while i < 16
        invariant
            i <= 16,
            leaves@.len() == i,
            forall|j: int| 0 <= j < i ==> leaves@[j] == leaf_digest(leaf_cell(board_cells(*board), j)),
            empty@[0] == leaf_digest(Cell::Empty),
        decreases 16 - i,
    {
        if i < 9 {
            leaves.push(leaf_hash(board[i / 3][i % 3]));
        } else {
            leaves.push(empty[0]);
        }
        i += 1;
    }
    assert(leaves@ =~= board_leaves(board_cells(*board)));
    leaves
}

/// The level above `row`: each node hashes two neighbours.
fn parent_row(row: &Vec<Hash32>) -> (parents: Vec<Hash32>)
    ensures
        parents@.len() == row@.len() / 2,
        forall|i: int|
            0 <= i < parents@.len() ==> parents@[i] == node_digest(row@[2 * i], row@[2 * i + 1]),
{
    let width: usize = row.len();
    let n: usize = width / 2;
    let mut parents: Vec<Hash32> = Vec::new();
    let mut i: usize = 0;
    while i < n
        invariant
            i <= n,
            width == row@.len(),
            n == width / 2,
            parents@.len() == i,
            forall|j: int| 0 <= j < i ==> parents@[j] == node_digest(row@[2 * j], row@[2 * j + 1]),
        decreases n - i,
    {
        parents.push(merge(&row[2 * i], &row[2 * i + 1]));
        i += 1;
    }
    parents
}

impl View for MerkleTree {
    type V = Seq<Hash32>;

    closed spec fn view(&self) -> Seq<Hash32> {
        self.nodes@[0]@
    }
}

impl MerkleTree {
    #[verifier::type_invariant]
    spec fn well_formed(self) -> bool {
        &&& self.nodes@.len() == TREE_LEVELS
        &&& forall|level: int|
            0 <= level < TREE_LEVELS ==> is_level(
                #[trigger] self.nodes@[level]@,
                self.nodes@[0]@,
                level as nat,
            )
    }

    /// Build the tree from the current board state.
    pub fn from_board(board: &Board) -> (tree: Self)
        ensures
            tree@ == board_leaves(board_cells(*board)),
    {
        let leaves = leaf_row(board);
        let ghost hashes = leaves@;
        let mut nodes: Vec<Vec<Hash32>> = Vec::new();
        nodes.push(leaves);
        let mut level: usize = 1;
        while level <= TREE_DEPTH
            invariant
                1 <= level <= TREE_LEVELS,
                nodes@.len() == level,
                nodes@[0]@ == hashes,
                forall|l: int|
                    0 <= l < level ==> is_level(#[trigger] nodes@[l]@, hashes, l as nat),
            decreases TREE_LEVELS - level,
        {
            proof {
                reveal_with_fuel(level_width, 5);
                assert(is_level(nodes@[level - 1]@, hashes, (level - 1) as nat));
            }
            let row = parent_row(&nodes[level - 1]);
            assert(is_level(row@, hashes, level as nat));
            nodes.push(row);
            level += 1;
        }
        MerkleTree { nodes }
    }

    /// Root hash of this tree.
    pub fn root(&self) -> (root: Hash32)
        ensures
            root == tree_root(self@),
    {
        proof {
            use_type_invariant(self);
            reveal_with_fuel(level_width, 5);
            assert(is_level(self.nodes@[4]@, self@, 4));
        }
        self.nodes[TREE_DEPTH][0]
    }

    /// Sibling path for the leaf at the given index.
    /// `siblings[0]` is the sibling at leaf level.
    pub fn inclusion_proof(&self, index: u8) -> (siblings: [Hash32; TREE_DEPTH])
        requires
            index < 16,
        ensures
            siblings@ == sibling_path(self@, index as int),
    {
        let mut siblings: [Hash32; TREE_DEPTH] = [[0u8; 32]; TREE_DEPTH];
        let mut idx: usize = index as usize;
        let mut level: usize = 0;
        proof {
            use_type_invariant(self);
            reveal_with_fuel(level_width, 5);
        }
        while level < TREE_DEPTH
            invariant
                level <= TREE_DEPTH,
                idx == ancestor(index as int, level as nat),
                idx < level_width(level as nat),
                self.nodes@.len() == TREE_LEVELS,
                forall|l: int|
                    0 <= l < TREE_LEVELS ==> is_level(
                        #[trigger] self.nodes@[l]@,
                        self@,
                        l as nat,
                    ),
                forall|k: int|
                    0 <= k < level ==> siblings@[k] == subtree(
                        self@,
                        k as nat,
                        sibling_of(ancestor(index as int, k as nat)),
                    ),
            decreases TREE_DEPTH - level,
        {
            proof {
                reveal_with_fuel(level_width, 5);
                assert(is_level(self.nodes@[level as int]@, self@, level as nat));
            }
            let sibling: usize = if idx % 2 == 0 {
                idx + 1
            } else {
                idx - 1
            };
            siblings[level] = self.nodes[level][sibling];
            idx /= 2;
            level += 1;
        }
        assert(siblings@ =~= sibling_path(self@, index as int));
        siblings
    }
}

} // verus!
