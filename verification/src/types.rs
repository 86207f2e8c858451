//! The data of the game: cells, players, committed metadata, moves and witnesses.

use vstd::prelude::*;

verus! {

/// A SHA-256 digest.
pub type Hash32 = [u8; 32];

pub type PublicKey = [u8; 32];

pub type Signature = [u8; 64];

/// Unique, randomly-generated identifier for one game instance.
pub type GameId = [u8; 32];

/// The 3x3 board, indexed `board[y][x]`.
pub type Board = [[Cell; 3]; 3];

/// Depth of the Sparse Merkle Tree. Depth 4 means 16 leaves (indices 0 to 15).
/// Board cells use indices 0 to 8 (`y * 3 + x`); indices 9 to 15 are permanently Empty.
pub const TREE_DEPTH: usize = 4;

/// Number of levels of the tree, counting both the leaves and the root.
pub const TREE_LEVELS: usize = 5;

#[derive(Debug, Clone, Copy, PartialEq, Eq, Structural)]
pub enum Cell {
    Empty,
    X,
    O,
}

#[derive(Debug, Clone, Copy, PartialEq, Eq, Structural)]
pub enum Player {
    X,
    O,
}

/// The mark that `player` places.
pub open spec fn mark_of(player: Player) -> Cell {
    match player {
        Player::X => Cell::X,
        Player::O => Cell::O,
    }
}

/// Whose turn follows that of `player`.
pub open spec fn opponent(player: Player) -> Player {
    match player {
        Player::X => Player::O,
        Player::O => Player::X,
    }
}

impl Player {
    pub fn to_cell(self) -> (cell: Cell)
        ensures
            cell == mark_of(self),
    {
        match self {
            Player::X => Cell::X,
            Player::O => Cell::O,
        }
    }

    pub fn other(self) -> (player: Player)
        ensures
            player == opponent(self),
    {
        match self {
            Player::X => Player::O,
            Player::O => Player::X,
        }
    }
}

/// All mutable game metadata committed alongside the board root.
///
/// Fixed 99-byte serialization (no length ambiguity in the hash preimage):
///   `[0..32]`  game_id      - isolates state roots across games, preventing cross-game replay
///   `[32..64]` pubkey_x
///   `[64..96]` pubkey_y
///   `[96]`     move_count
///   `[97]`     next_player  (0 = X, 1 = O)
///   `[98]`     game_over    (0 = active, 1 = finished)
#[derive(Debug)]
pub struct GameMeta {
    pub game_id: GameId,
    pub pubkey_x: PublicKey,
    pub pubkey_y: PublicKey,
    pub move_count: u8,
    pub next_player: Player,
    pub game_over: bool,
}

/// The byte that stands for a player in the encoding of [`GameMeta`].
pub open spec fn player_byte(player: Player) -> u8 {
    match player {
        Player::X => 0,
        Player::O => 1,
    }
}

/// The byte that stands for the `game_over` flag in the encoding of [`GameMeta`].
pub open spec fn flag_byte(flag: bool) -> u8 {
    if flag {
        1
    } else {
        0
    }
}

/// The fixed-width encoding of the metadata.
pub open spec fn meta_bytes(meta: GameMeta) -> Seq<u8> {
    meta.game_id@ + meta.pubkey_x@ + meta.pubkey_y@ + seq![
        meta.move_count,
        player_byte(meta.next_player),
        flag_byte(meta.game_over),
    ]
}

/// The public key registered for `player`.
pub open spec fn key_of(meta: GameMeta, player: Player) -> PublicKey {
    match player {
        Player::X => meta.pubkey_x,
        Player::O => meta.pubkey_y,
    }
}

impl Clone for GameMeta {
    fn clone(&self) -> (copy: Self)
        ensures
            copy == *self,
    {
        GameMeta {
            game_id: self.game_id,
            pubkey_x: self.pubkey_x,
            pubkey_y: self.pubkey_y,
            move_count: self.move_count,
            next_player: self.next_player,
            game_over: self.game_over,
        }
    }
}

impl GameMeta {
    /// Deterministic 99-byte encoding used in the state-root preimage.
    pub fn to_bytes(&self) -> (bytes: [u8; 99])
        ensures
            bytes@ == meta_bytes(*self),
    {
        let mut b: [u8; 99] = [0u8; 99];
        let mut i: usize = 0;
        while i < 32
            invariant
                i <= 32,
                forall|j: int| 0 <= j < i ==> b@[j] == self.game_id@[j],
                forall|j: int| 0 <= j < i ==> b@[32 + j] == self.pubkey_x@[j],
                forall|j: int| 0 <= j < i ==> b@[64 + j] == self.pubkey_y@[j],
            decreases 32 - i,
        {
            b[i] = self.game_id[i];
            b[32 + i] = self.pubkey_x[i];
            b[64 + i] = self.pubkey_y[i];
            i += 1;
        }
        b[96] = self.move_count;
        b[97] = match self.next_player {
            Player::X => 0,
            Player::O => 1,
        };
        b[98] = if self.game_over {
            1
        } else {
            0
        };
        proof {
            assert forall|j: int| 0 <= j < 99 implies b@[j] == meta_bytes(*self)[j] by {
                if 32 <= j < 64 {
                    assert(b@[32 + (j - 32)] == self.pubkey_x@[j - 32]);
                } else if 64 <= j < 96 {
                    assert(b@[64 + (j - 64)] == self.pubkey_y@[j - 64]);
                }
            }
            assert(b@ =~= meta_bytes(*self));
        }
        b
    }
}

/// Externally supplied move from a player.
#[derive(Debug, Clone)]
pub enum PlayerMove {
    /// One-time initialisation: registers the two players for a specific game.
    /// The server generates `game_id` randomly; the transition binds it into the state root.
    CreateGame { game_id: GameId, pubkey_x: PublicKey, pubkey_y: PublicKey },
    /// Place a mark at (x, y). The signature covers `prior_state_root || [x, y]`.
    /// `prior_state_root` already encodes `game_id` (via [`GameMeta`]), so no explicit
    /// game_id is needed here.
    Play { pubkey: PublicKey, signature: Signature, x: u8, y: u8 },
}

/// Merkle inclusion proof for one board cell.
#[derive(Debug, Clone)]
pub struct CellProof {
    pub x: u8,
    pub y: u8,
    /// Authenticated value of this cell in the committed board.
    pub cell: Cell,
    /// Sibling hashes from leaf level (index 0) up toward the root (index `TREE_DEPTH - 1`).
    pub siblings: [Hash32; TREE_DEPTH],
}

/// Everything the transition needs beyond the move itself.
/// For CreateGame the witness is empty; for Play it carries the full state
/// decommitment plus the minimal set of cell proofs.
#[derive(Debug, Clone)]
pub enum Witness {
    CreateGame,
    Play {
        game_meta: GameMeta,
        board_root: Hash32,
        /// Proofs for every cell on any win-check line through the played cell.
        cell_proofs: Vec<CellProof>,
    },
}

#[derive(Debug, Clone, Copy, PartialEq, Eq, Structural)]
pub enum Winner {
    X,
    O,
    Draw,
}

/// Whether two hashes, keys or identifiers hold the same bytes.
pub(crate) fn bytes_equal(a: &[u8; 32], b: &[u8; 32]) -> (equal: bool)
    ensures
        equal == (*a == *b),
{
    let mut i: usize = 0;
    while i < 32
        invariant
            i <= 32,
            forall|j: int| 0 <= j < i ==> a@[j] == b@[j],
        decreases 32 - i,
    {
        if a[i] != b[i] {
            return false;
        }
        i += 1;
    }
    assert(*a =~= *b);
    true
}

/// The metadata encoding loses nothing: metadata with equal encodings is equal, and
/// every encoding is 99 bytes long.
pub proof fn meta_encoding_is_injective(a: GameMeta, b: GameMeta)
    ensures
        meta_bytes(a).len() == 99,
        meta_bytes(a) == meta_bytes(b) ==> a == b,
{
    if meta_bytes(a) == meta_bytes(b) {
        let s = meta_bytes(a);
        let t = meta_bytes(b);
        assert forall|i: int| 0 <= i < 32 implies a.game_id@[i] == b.game_id@[i] by {
            assert(s[i] == t[i]);
        }
        assert forall|i: int| 0 <= i < 32 implies a.pubkey_x@[i] == b.pubkey_x@[i] by {
            assert(s[32 + i] == t[32 + i]);
        }
        assert forall|i: int| 0 <= i < 32 implies a.pubkey_y@[i] == b.pubkey_y@[i] by {
            assert(s[64 + i] == t[64 + i]);
        }
        assert(a.game_id =~= b.game_id);
        assert(a.pubkey_x =~= b.pubkey_x);
        assert(a.pubkey_y =~= b.pubkey_y);
        assert(s[96] == t[96]);
        assert(s[97] == t[97]);
        assert(s[98] == t[98]);
    }
}

/// Each player places the mark of that name, never `Empty` and never the other player's;
/// the turn always passes to the other player; and each player has a registered key.
pub proof fn players_are_distinct(player: Player, meta: GameMeta)
    ensures
        opponent(player) != player,
        opponent(opponent(player)) == player,
        mark_of(player) != Cell::Empty,
        mark_of(player) != mark_of(opponent(player)),
        mark_of(player) == Cell::X <==> player == Player::X,
        mark_of(player) == Cell::O <==> player == Player::O,
        player == Player::X ==> key_of(meta, player) == meta.pubkey_x,
        player == Player::O ==> key_of(meta, player) == meta.pubkey_y,
{
}

/// Where each field stands in the 99 bytes of the metadata, and what stands for the player
/// to move and for the end of the game.
pub proof fn meta_encoding_layout(meta: GameMeta)
    ensures
        meta_bytes(meta).len() == 99,
        forall|i: int| 0 <= i < 32 ==> #[trigger] meta_bytes(meta)[i] == meta.game_id@[i],
        forall|i: int| 32 <= i < 64 ==> #[trigger] meta_bytes(meta)[i] == meta.pubkey_x@[i - 32],
        forall|i: int| 64 <= i < 96 ==> #[trigger] meta_bytes(meta)[i] == meta.pubkey_y@[i - 64],
        meta_bytes(meta)[96] == meta.move_count,
        meta_bytes(meta)[97] == 0 <==> meta.next_player == Player::X,
        meta_bytes(meta)[97] == 1 <==> meta.next_player == Player::O,
        meta_bytes(meta)[98] == 0 <==> !meta.game_over,
        meta_bytes(meta)[98] == 1 <==> meta.game_over,
{
}

} // verus!
