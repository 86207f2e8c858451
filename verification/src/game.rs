//! State Transition Function (STF): the pure core of the game.
//!
//! `stf` has no I/O and no side effects. It accepts the prior committed state,
//! a player move, and the minimal witness needed to validate that move, and
//! returns the new committed state root together with an optional game result.

use crate::crypto::{
    ed25519_key_decodes, ed25519_verifies, key_decodes, sha256, sha256_digest, signature_verifies,
};
use crate::lines::{has_won, on_win_line, precedes, required_cells, wins_through};
use crate::merkle::{
    cell_index, empty_board_root, empty_subtree, leaf_index, path_root, updated_root, verify_proof,
};
use crate::text::{decimal, decimal_text};
use crate::types::{
    bytes_equal, key_of, mark_of, meta_bytes, opponent, Cell, CellProof, GameId, GameMeta, Hash32,
    Player, PlayerMove, PublicKey, Signature, Winner, Witness, TREE_DEPTH,
};
use vstd::prelude::*;
use vstd::string::*;

verus! {

// ---------------------------------------------------------------------------
// Error type
// ---------------------------------------------------------------------------

/// Why a move was refused.
#[derive(Debug)]
pub enum StfError {
    /// Witness type does not match move type.
    WitnessMismatch,
    /// Game already exists (prior root is not zero).
    GameAlreadyExists,
    /// Game is over.
    GameOver,
    /// State commitment mismatch: witness is inconsistent with prior root.
    StateCommitmentMismatch,
    /// Coordinate out of range.
    InvalidCoords(u8, u8),
    /// Not this player's turn.
    NotYourTurn,
    /// Invalid public key bytes.
    InvalidPublicKey,
    /// Signature verification failed.
    InvalidSignature,
    /// Invalid Merkle proof for a cell.
    InvalidMerkleProof(u8, u8),
    /// The cell is already occupied.
    CellOccupied(u8, u8),
    /// Missing required cell proof.
    MissingCellProof(u8, u8),
}

/// A coordinate as it is shown to a player.
pub open spec fn coords_text(x: u8, y: u8) -> Seq<char> {
    "("@ + decimal(x as nat) + ","@ + decimal(y as nat) + ")"@
}

/// What a player is told of a refused move.
pub open spec fn error_text(error: StfError) -> Seq<char> {
    match error {
        StfError::WitnessMismatch => "witness type does not match move type"@,
        StfError::GameAlreadyExists => "game already exists (prior root is not zero)"@,
        StfError::GameOver => "game is over"@,
        StfError::StateCommitmentMismatch => {
            "state commitment mismatch: witness is inconsistent with prior root"@
        },
        StfError::InvalidCoords(x, y) => "coordinate out of range: "@ + coords_text(x, y),
        StfError::NotYourTurn => "not this player's turn"@,
        StfError::InvalidPublicKey => "invalid public key bytes"@,
        StfError::InvalidSignature => "signature verification failed"@,
        StfError::InvalidMerkleProof(x, y) => "invalid Merkle proof for cell "@ + coords_text(x, y),
        StfError::CellOccupied(x, y) => "cell "@ + coords_text(x, y) + " is already occupied"@,
        StfError::MissingCellProof(x, y) => "missing required cell proof for "@ + coords_text(x, y),
    }
}

/// `before (x,y) after`, without the spaces.
fn around_coords(before: &str, x: u8, y: u8, after: &str) -> (text: String)
    ensures
        text@ == before@ + coords_text(x, y) + after@,
{
    let mut text = before.to_owned();
    text.append("(");
    text.append(decimal_text(x).as_str());
    text.append(",");
    text.append(decimal_text(y).as_str());
    text.append(")");
    text.append(after);
    assert(text@ =~= before@ + coords_text(x, y) + after@);
    text
}

impl StfError {
    /// The message for this error.
    pub fn message(&self) -> (text: String)
        ensures
            text@ == error_text(*self),
    {
        proof {
            reveal_strlit("");
        }
        let text = match *self {
            StfError::WitnessMismatch => "witness type does not match move type".to_owned(),
            StfError::GameAlreadyExists => "game already exists (prior root is not zero)".to_owned(),
            StfError::GameOver => "game is over".to_owned(),
            StfError::StateCommitmentMismatch => {
                "state commitment mismatch: witness is inconsistent with prior root".to_owned()
            },
            StfError::InvalidCoords(x, y) => around_coords("coordinate out of range: ", x, y, ""),
            StfError::NotYourTurn => "not this player's turn".to_owned(),
            StfError::InvalidPublicKey => "invalid public key bytes".to_owned(),
            StfError::InvalidSignature => "signature verification failed".to_owned(),
            StfError::InvalidMerkleProof(x, y) => {
                around_coords("invalid Merkle proof for cell ", x, y, "")
            },
            StfError::CellOccupied(x, y) => around_coords("cell ", x, y, " is already occupied"),
            StfError::MissingCellProof(x, y) => {
                around_coords("missing required cell proof for ", x, y, "")
            },
        };
        assert(text@ =~= error_text(*self));
        text
    }
}

// ---------------------------------------------------------------------------
// Model
// ---------------------------------------------------------------------------

/// Whether a root is all zeros: the prior root of a game that does not exist yet.
pub open spec fn is_zero(root: Hash32) -> bool {
    forall|i: int| 0 <= i < 32 ==> root@[i] == 0
}

/// The bytes hashed into a state root.
pub open spec fn state_preimage(meta: GameMeta, board_root: Hash32) -> Seq<u8> {
    meta_bytes(meta) + board_root@
}

/// `SHA-256( game_meta.to_bytes() || board_root )`
pub open spec fn state_digest(meta: GameMeta, board_root: Hash32) -> Hash32 {
    sha256_digest(state_preimage(meta, board_root))
}

/// The message that authorises a move at `(x, y)` from a given state.
pub open spec fn signed_bytes(prior: Hash32, x: u8, y: u8) -> Seq<u8> {
    prior@ + seq![x, y]
}

/// The first proof, from position `from` on, that speaks of the cell `(x, y)`.
pub open spec fn find_proof_from(proofs: Seq<CellProof>, x: u8, y: u8, from: nat) -> Option<
    CellProof,
>
    decreases proofs.len() - from,
{
    if from >= proofs.len() {
        None
    } else if proofs[from as int].x == x && proofs[from as int].y == y {
        Some(proofs[from as int])
    } else {
        find_proof_from(proofs, x, y, from + 1)
    }
}

/// The first proof that speaks of the cell `(x, y)`.
pub open spec fn find_proof(proofs: Seq<CellProof>, x: u8, y: u8) -> Option<CellProof> {
    find_proof_from(proofs, x, y, 0)
}

/// Why the cell `(x, y)` is not authenticated, if it is not.
pub open spec fn cell_rejection(
    board_root: Hash32,
    proofs: Seq<CellProof>,
    x: u8,
    y: u8,
) -> Option<StfError> {
    match find_proof(proofs, x, y) {
        None => Some(StfError::MissingCellProof(x, y)),
        Some(p) => if path_root(leaf_index(x as int, y as int), p.cell, p.siblings@) != board_root {
            Some(StfError::InvalidMerkleProof(x, y))
        } else {
            None
        },
    }
}

/// The first reason to refuse the cells on the win-check lines of `(x, y)`, scanning the
/// board column by column from position `from` (column `from / 3`, row `from % 3`).
pub open spec fn proofs_rejection_from(
    board_root: Hash32,
    proofs: Seq<CellProof>,
    x: u8,
    y: u8,
    from: nat,
) -> Option<StfError>
    decreases 9 - from,
{
    if from >= 9 {
        None
    } else {
        let cx = (from / 3) as u8;
        let cy = (from % 3) as u8;
        if on_win_line(x, y, cx, cy) && cell_rejection(board_root, proofs, cx, cy) is Some {
            cell_rejection(board_root, proofs, cx, cy)
        } else {
            proofs_rejection_from(board_root, proofs, x, y, from + 1)
        }
    }
}

/// Why a `Play` move is refused, if it is, on the checks that precede the signature,
/// where `derived` is the state root of what the witness claims.
pub open spec fn claim_rejection(
    prior: Hash32,
    derived: Hash32,
    pubkey: PublicKey,
    x: u8,
    y: u8,
    meta: GameMeta,
) -> Option<StfError> {
    if derived != prior {
        Some(StfError::StateCommitmentMismatch)
    } else if meta.game_over {
        Some(StfError::GameOver)
    } else if x > 2 || y > 2 {
        Some(StfError::InvalidCoords(x, y))
    } else if pubkey != key_of(meta, meta.next_player) {
        Some(StfError::NotYourTurn)
    } else {
        None
    }
}

/// Why a `Play` move is refused, if it is, on the signature and on the board, given
/// whether the key decodes and whether the signature verifies.
pub open spec fn board_rejection(
    key_ok: bool,
    signature_ok: bool,
    x: u8,
    y: u8,
    board_root: Hash32,
    proofs: Seq<CellProof>,
) -> Option<StfError> {
    if !key_ok {
        Some(StfError::InvalidPublicKey)
    } else if !signature_ok {
        Some(StfError::InvalidSignature)
    } else if proofs_rejection_from(board_root, proofs, x, y, 0) is Some {
        proofs_rejection_from(board_root, proofs, x, y, 0)
    } else if find_proof(proofs, x, y).unwrap().cell != Cell::Empty {
        Some(StfError::CellOccupied(x, y))
    } else {
        None
    }
}

/// Why a `Play` move is refused, if it is: the first check that fails.
pub open spec fn play_rejection(
    prior: Hash32,
    pubkey: PublicKey,
    signature: Signature,
    x: u8,
    y: u8,
    meta: GameMeta,
    board_root: Hash32,
    proofs: Seq<CellProof>,
) -> Option<StfError> {
    match claim_rejection(prior, state_digest(meta, board_root), pubkey, x, y, meta) {
        Some(error) => Some(error),
        None => board_rejection(
            ed25519_key_decodes(pubkey@),
            ed25519_verifies(pubkey@, signed_bytes(prior, x, y), signature@),
            x,
            y,
            board_root,
            proofs,
        ),
    }
}

/// The board after the move, as the witness shows it: the new mark at the played cell,
/// and elsewhere the proved value (`Empty` where nothing is proved).
pub open spec fn post_move_cells(proofs: Seq<CellProof>, x: u8, y: u8, mark: Cell) -> spec_fn(
    u8,
    u8,
) -> Cell {
    |cx: u8, cy: u8|
        if cx == x && cy == y {
            mark
        } else {
            match find_proof(proofs, cx, cy) {
                Some(p) => p.cell,
                None => Cell::Empty,
            }
        }
}

/// The result of the game after `player`'s move: a win, a draw on the ninth move, or
/// none yet.
pub open spec fn game_result(player: Player, won: bool, move_count: int) -> Option<Winner> {
    if won {
        Some(
            match player {
                Player::X => Winner::X,
                Player::O => Winner::O,
            },
        )
    } else if move_count == 9 {
        Some(Winner::Draw)
    } else {
        None
    }
}

/// The metadata of a new game.
pub open spec fn new_game_meta(game_id: GameId, pubkey_x: PublicKey, pubkey_y: PublicKey) -> GameMeta {
    GameMeta {
        game_id,
        pubkey_x,
        pubkey_y,
        move_count: 0,
        next_player: Player::X,
        game_over: false,
    }
}

/// The metadata after a move with the given result: one more move, the other player's
/// turn, and the game over if there is a result.
pub open spec fn next_meta(meta: GameMeta, result: Option<Winner>) -> GameMeta {
    GameMeta {
        game_id: meta.game_id,
        pubkey_x: meta.pubkey_x,
        pubkey_y: meta.pubkey_y,
        move_count: (meta.move_count + 1) as u8,
        next_player: opponent(meta.next_player),
        game_over: result is Some,
    }
}

/// The result of the game after an accepted move.
pub open spec fn play_result(x: u8, y: u8, meta: GameMeta, proofs: Seq<CellProof>) -> Option<Winner> {
    let mark = mark_of(meta.next_player);
    game_result(
        meta.next_player,
        wins_through(x, y, mark, post_move_cells(proofs, x, y, mark)),
        meta.move_count + 1,
    )
}

/// The new state root and the result of the game after an accepted move.
pub open spec fn play_outcome(x: u8, y: u8, meta: GameMeta, proofs: Seq<CellProof>) -> (
    Hash32,
    Option<Winner>,
) {
    let result = play_result(x, y, meta, proofs);
    let new_board_root = path_root(
        leaf_index(x as int, y as int),
        mark_of(meta.next_player),
        find_proof(proofs, x, y).unwrap().siblings@,
    );
    (state_digest(next_meta(meta, result), new_board_root), result)
}

/// What the transition function returns.
pub open spec fn transition(prior: Hash32, mv: PlayerMove, witness: Witness) -> Result<
    (Hash32, Option<Winner>),
    StfError,
> {
    match (mv, witness) {
        (PlayerMove::CreateGame { game_id, pubkey_x, pubkey_y }, Witness::CreateGame) => {
            if !is_zero(prior) {
                Err(StfError::GameAlreadyExists)
            } else {
                Ok(
                    (
                        state_digest(
                            new_game_meta(game_id, pubkey_x, pubkey_y),
                            empty_subtree(TREE_DEPTH as nat),
                        ),
                        None,
                    ),
                )
            }
        },
        (
            PlayerMove::Play { pubkey, signature, x, y },
            Witness::Play { game_meta, board_root, cell_proofs },
        ) => {
            match play_rejection(
                prior,
                pubkey,
                signature,
                x,
                y,
                game_meta,
                board_root,
                cell_proofs@,
            ) {
                Some(error) => Err(error),
                None => Ok(play_outcome(x, y, game_meta, cell_proofs@)),
            }
        },
        _ => Err(StfError::WitnessMismatch),
    }
}

/// Whether the move would be accepted from a state whose move counter is already at its
/// largest value. No game gets there: a game ends with its ninth move.
pub open spec fn counter_exhausted(prior: Hash32, mv: PlayerMove, witness: Witness) -> bool {
    &&& transition(prior, mv, witness) is Ok
    &&& witness matches Witness::Play { game_meta, .. } && game_meta.move_count == u8::MAX
}

// ---------------------------------------------------------------------------
// State-root construction
// ---------------------------------------------------------------------------

/// `state_root = SHA-256( game_meta.to_bytes() || board_root )`
pub fn state_root(meta: &GameMeta, board_root: &Hash32) -> (root: Hash32)
    ensures
        root == state_digest(*meta, *board_root),
{
    let encoded = meta.to_bytes();
    let mut preimage: [u8; 131] = [0u8; 131];
    let mut i: usize = 0;
    while i < 131
        invariant
            i <= 131,
            encoded@ == meta_bytes(*meta),
            forall|j: int| 0 <= j < i ==> preimage@[j] == state_preimage(*meta, *board_root)[j],
        decreases 131 - i,
    {
        preimage[i] = if i < 99 {
            encoded[i]
        } else {
            board_root[i - 99]
        };
        i += 1;
    }
    let root = sha256(preimage.as_slice());
    proof {
        assert(preimage@ =~= state_preimage(*meta, *board_root));
        assert(root =~= state_digest(*meta, *board_root));
    }
    root
}

// ---------------------------------------------------------------------------
// Signature message construction
// ---------------------------------------------------------------------------

/// The message a player signs when they want to play at (x, y) from a given state.
/// Binds the move to the exact prior state, preventing replay.
pub fn play_message(prior_state_root: &Hash32, x: u8, y: u8) -> (msg: [u8; 34])
    ensures
        msg@ == signed_bytes(*prior_state_root, x, y),
{
    let mut msg: [u8; 34] = [0u8; 34];
    let mut i: usize = 0;
    while i < 32
        invariant
            i <= 32,
            forall|j: int| 0 <= j < i ==> msg@[j] == prior_state_root@[j],
        decreases 32 - i,
    {
        msg[i] = prior_state_root[i];
        i += 1;
    }
    msg[32] = x;
    msg[33] = y;
    assert(msg@ =~= signed_bytes(*prior_state_root, x, y));
    msg
}

// ---------------------------------------------------------------------------
// Witness lookup
// ---------------------------------------------------------------------------

/// The first proof in the list for the cell at `(x, y)`.
pub fn find_cell<'a>(proofs: &'a [CellProof], x: u8, y: u8) -> (found: Option<&'a CellProof>)
    ensures
        match found {
            Some(p) => find_proof(proofs@, x, y) == Some(*p),
            None => find_proof(proofs@, x, y) is None,
        },
{
    let mut i: usize = 0;
    while i < proofs.len()
        invariant
            i <= proofs@.len(),
            find_proof(proofs@, x, y) == find_proof_from(proofs@, x, y, i as nat),
        decreases proofs@.len() - i,
    {
        if proofs[i].x == x && proofs[i].y == y {
            return Some(&proofs[i]);
        }
        i += 1;
    }
    None
}

/// Check the Merkle proof of every cell on a win-check line through `(x, y)`.
fn check_proofs(board_root: &Hash32, proofs: &[CellProof], x: u8, y: u8) -> (checked: Result<
    (),
    StfError,
>)
    requires
        x <= 2,
        y <= 2,
    ensures
        match checked {
            Ok(_) => proofs_rejection_from(*board_root, proofs@, x, y, 0) is None,
            Err(error) => proofs_rejection_from(*board_root, proofs@, x, y, 0) == Some(error),
        },
{
    let cells = required_cells(x, y);
    let mut i: usize = 0;
    while i < cells.len()
        invariant
            x <= 2,
            y <= 2,
            i <= cells@.len(),
            forall|cx: u8, cy: u8| #[trigger]
                cells@.contains((cx, cy)) <==> on_win_line(x, y, cx, cy),
            forall|a: int, b: int| 0 <= a < b < cells@.len() ==> precedes(cells@[a], cells@[b]),
            forall|k: int|
                0 <= k < i ==> cell_rejection(
                    *board_root,
                    proofs@,
                    (#[trigger] cells@[k]).0,
                    cells@[k].1,
                ) is None,
        decreases cells@.len() - i,
    {
        let (cx, cy) = cells[i];
        assert(cells@.contains((cx, cy)));
        proof {
            lemma_scan_reaches(*board_root, proofs@, x, y, cells@, i as int);
        }
        match find_cell(proofs, cx, cy) {
            None => {
                return Err(StfError::MissingCellProof(cx, cy));
            },
            Some(proof_of_cell) => {
                if !verify_proof(board_root, cx, cy, proof_of_cell.cell, &proof_of_cell.siblings) {
                    return Err(StfError::InvalidMerkleProof(cx, cy));
                }
            },
        }
        i += 1;
    }
    proof {
        lemma_scan_skips(*board_root, proofs@, x, y, cells@, cells@.len() as int, 0, 9);
    }
    Ok(())
}

/// The position of a coordinate in the scan of the board.
spec fn scan_position(cell: (u8, u8)) -> int {
    cell.0 * 3 + cell.1
}

/// The scan passes over every position between `from` and `to` where no cell, or one
/// of the first `n` listed cells, is required.
proof fn lemma_scan_skips(
    board_root: Hash32,
    proofs: Seq<CellProof>,
    x: u8,
    y: u8,
    cells: Seq<(u8, u8)>,
    n: int,
    from: nat,
    to: nat,
)
    requires
        x <= 2,
        y <= 2,
        from <= to <= 9,
        0 <= n <= cells.len(),
        forall|cx: u8, cy: u8| #[trigger]
            cells.contains((cx, cy)) <==> on_win_line(x, y, cx, cy),
        forall|k: int|
            0 <= k < n ==> cell_rejection(
                board_root,
                proofs,
                (#[trigger] cells[k]).0,
                cells[k].1,
            ) is None,
        forall|k: int| n <= k < cells.len() ==> scan_position(#[trigger] cells[k]) >= to,
    ensures
        proofs_rejection_from(board_root, proofs, x, y, from) == proofs_rejection_from(
            board_root,
            proofs,
            x,
            y,
            to,
        ),
    decreases to - from,
{
    if from < to {
        let cx = (from / 3) as u8;
        let cy = (from % 3) as u8;
        if on_win_line(x, y, cx, cy) {
            assert(cells.contains((cx, cy)));
            let k = choose|k: int| 0 <= k < cells.len() && cells[k] == (cx, cy);
            assert(scan_position(cells[k]) == from);
            assert(cells[k].0 == cx && cells[k].1 == cy);
        }
        lemma_scan_skips(board_root, proofs, x, y, cells, n, from + 1, to);
    }
}

/// Once the first `i` listed cells are authenticated, the scan goes on at the next one.
proof fn lemma_scan_reaches(
    board_root: Hash32,
    proofs: Seq<CellProof>,
    x: u8,
    y: u8,
    cells: Seq<(u8, u8)>,
    i: int,
)
    requires
        x <= 2,
        y <= 2,
        0 <= i < cells.len(),
        forall|cx: u8, cy: u8| #[trigger]
            cells.contains((cx, cy)) <==> on_win_line(x, y, cx, cy),
        forall|a: int, b: int| 0 <= a < b < cells.len() ==> precedes(cells[a], cells[b]),
        forall|k: int|
            0 <= k < i ==> cell_rejection(
                board_root,
                proofs,
                (#[trigger] cells[k]).0,
                cells[k].1,
            ) is None,
    ensures
        cells[i].0 < 3,
        cells[i].1 < 3,
        cell_rejection(board_root, proofs, cells[i].0, cells[i].1) is Some
            ==> proofs_rejection_from(board_root, proofs, x, y, 0) == cell_rejection(
            board_root,
            proofs,
            cells[i].0,
            cells[i].1,
        ),
{
    let cell = cells[i];
    assert(cells.contains((cell.0, cell.1)));
    let position = scan_position(cell);
    assert forall|k: int| i <= k < cells.len() implies scan_position(#[trigger] cells[k])
        >= position by {
        assert(cells.contains((cells[k].0, cells[k].1)));
        if k > i {
            assert(precedes(cells[i], cells[k]));
        }
    }
    lemma_scan_skips(board_root, proofs, x, y, cells, i, 0, position as nat);
    assert((position / 3) as u8 == cell.0);
    assert((position % 3) as u8 == cell.1);
}

// ---------------------------------------------------------------------------
// STF
// ---------------------------------------------------------------------------

/// The checks on a `Play` move that precede the signature, where `derived_root` is the
/// state root of what the witness claims.
pub fn check_claim(
    prior_state_root: &Hash32,
    derived_root: &Hash32,
    pubkey: &PublicKey,
    x: u8,
    y: u8,
    game_meta: &GameMeta,
) -> (checked: Result<(), StfError>)
    ensures
        match checked {
            Ok(_) => claim_rejection(*prior_state_root, *derived_root, *pubkey, x, y, *game_meta)
                is None,
            Err(error) => claim_rejection(
                *prior_state_root,
                *derived_root,
                *pubkey,
                x,
                y,
                *game_meta,
            ) == Some(error),
        },
{
    // 1. Compare the state root of the witness with the prior root
    if !bytes_equal(derived_root, prior_state_root) {
        return Err(StfError::StateCommitmentMismatch);
    }
    // 2. Game must still be active
    if game_meta.game_over {
        return Err(StfError::GameOver);
    }
    // 3. Coordinate bounds
    if x > 2 || y > 2 {
        return Err(StfError::InvalidCoords(x, y));
    }
    // 4. Correct player's turn
    let expected_pubkey: PublicKey = match game_meta.next_player {
        Player::X => game_meta.pubkey_x,
        Player::O => game_meta.pubkey_y,
    };
    if !bytes_equal(pubkey, &expected_pubkey) {
        return Err(StfError::NotYourTurn);
    }
    Ok(())
}

/// The checks on a `Play` move from the signature on, given whether the key decodes and
/// whether the signature verifies. Returns the siblings of the played cell if they pass.
pub fn check_board(
    key_ok: bool,
    signature_ok: bool,
    x: u8,
    y: u8,
    board_root: &Hash32,
    cell_proofs: &[CellProof],
) -> (checked: Result<[Hash32; TREE_DEPTH], StfError>)
    requires
        x <= 2,
        y <= 2,
    ensures
        match checked {
            Ok(siblings) => board_rejection(key_ok, signature_ok, x, y, *board_root, cell_proofs@)
                is None && find_proof(cell_proofs@, x, y) is Some && siblings == find_proof(
                cell_proofs@,
                x,
                y,
            ).unwrap().siblings,
            Err(error) => board_rejection(
                key_ok,
                signature_ok,
                x,
                y,
                *board_root,
                cell_proofs@,
            ) == Some(error),
        },
{
    if !key_ok {
        return Err(StfError::InvalidPublicKey);
    }
    if !signature_ok {
        return Err(StfError::InvalidSignature);
    }
    // 6. Verify Merkle proofs for every cell on a win-check line through (x,y)
    match check_proofs(board_root, cell_proofs, x, y) {
        Ok(_) => {},
        Err(error) => {
            return Err(error);
        },
    }
    // 7. Played cell must be empty
    proof {
        accepted_proofs_cover_required_cells(*board_root, cell_proofs@, x, y, x, y);
    }
    match find_cell(cell_proofs, x, y) {
        None => Err(StfError::MissingCellProof(x, y)),
        Some(played_proof) => if played_proof.cell != Cell::Empty {
            Err(StfError::CellOccupied(x, y))
        } else {
            Ok(played_proof.siblings)
        },
    }
}

/// All checks on a `Play` move, in order. Returns the siblings of the played cell if the
/// move is valid.
pub fn check_play(
    prior_state_root: &Hash32,
    pubkey: &PublicKey,
    signature: &Signature,
    x: u8,
    y: u8,
    game_meta: &GameMeta,
    board_root: &Hash32,
    cell_proofs: &[CellProof],
) -> (checked: Result<[Hash32; TREE_DEPTH], StfError>)
    ensures
        ({
            let rejection = play_rejection(
                *prior_state_root,
                *pubkey,
                *signature,
                x,
                y,
                *game_meta,
                *board_root,
                cell_proofs@,
            );
            match checked {
                Ok(siblings) => rejection is None && find_proof(cell_proofs@, x, y) is Some
                    && siblings == find_proof(cell_proofs@, x, y).unwrap().siblings,
                Err(error) => rejection == Some(error),
            }
        }),
{
    let derived_root = state_root(game_meta, board_root);
    match check_claim(prior_state_root, &derived_root, pubkey, x, y, game_meta) {
        Ok(_) => {},
        Err(error) => {
            return Err(error);
        },
    }
    // 5. Signature: player signs (prior_state_root || x || y)
    let key_ok = key_decodes(pubkey);
    let msg = play_message(prior_state_root, x, y);
    let signature_ok = key_ok && signature_verifies(pubkey, msg.as_slice(), signature);
    check_board(key_ok, signature_ok, x, y, board_root, cell_proofs)
}

proof fn lemma_scan_is_clean(
    board_root: Hash32,
    proofs: Seq<CellProof>,
    x: u8,
    y: u8,
    from: nat,
    cx: u8,
    cy: u8,
)
    requires
        cx < 3,
        cy < 3,
        on_win_line(x, y, cx, cy),
        from <= cx * 3 + cy,
        proofs_rejection_from(board_root, proofs, x, y, from) is None,
    ensures
        cell_rejection(board_root, proofs, cx, cy) is None,
    decreases 9 - from,
{
    if from < cx * 3 + cy {
        lemma_scan_is_clean(board_root, proofs, x, y, from + 1, cx, cy);
    } else {
        assert((from / 3) as u8 == cx);
        assert((from % 3) as u8 == cy);
    }
}

/// A witness whose proofs are all accepted proves every required cell.
pub proof fn accepted_proofs_cover_required_cells(
    board_root: Hash32,
    proofs: Seq<CellProof>,
    x: u8,
    y: u8,
    cx: u8,
    cy: u8,
)
    requires
        x <= 2,
        y <= 2,
        on_win_line(x, y, cx, cy),
        proofs_rejection_from(board_root, proofs, x, y, 0) is None,
    ensures
        cell_rejection(board_root, proofs, cx, cy) is None,
{
    lemma_scan_is_clean(board_root, proofs, x, y, 0, cx, cy);
}

/// The new state root and the result of the game after an accepted move, where
/// `siblings` are those of the played cell.
pub fn apply_play(
    x: u8,
    y: u8,
    game_meta: &GameMeta,
    siblings: &[Hash32; TREE_DEPTH],
    cell_proofs: &[CellProof],
) -> (outcome: (Hash32, Option<Winner>))
    requires
        x <= 2,
        y <= 2,
        game_meta.move_count < u8::MAX,
        find_proof(cell_proofs@, x, y) matches Some(p) && *siblings == p.siblings,
    ensures
        outcome == play_outcome(x, y, *game_meta, cell_proofs@),
{
    // 8. Compute new board root (siblings are unchanged: only the path to (x,y) changes)
    let new_mark = game_meta.next_player.to_cell();
    let new_board_root = updated_root(cell_index(x, y), new_mark, siblings);

    // 9. Win check using post-move cell values:
    //    - (x,y)   -> new_mark  (freshly placed)
    //    - others  -> value from their proof (authenticated against prior board_root)
    let ghost model = post_move_cells(cell_proofs@, x, y, new_mark);
    let get_cell = |cx: u8, cy: u8| -> (cell: Cell)
        ensures
            cell == model(cx, cy),
        {
            if cx == x && cy == y {
                new_mark
            } else {
                match find_cell(cell_proofs, cx, cy) {
                    Some(p) => p.cell,
                    None => Cell::Empty,
                }
            }
        };

    let new_move_count: u8 = game_meta.move_count + 1;
    assert(crate::lines::computes(get_cell, model));
    let won = has_won(x, y, new_mark, get_cell);
    let draw = !won && new_move_count == 9;

    let winner = if won {
        Some(
            match game_meta.next_player {
                Player::X => Winner::X,
                Player::O => Winner::O,
            },
        )
    } else if draw {
        Some(Winner::Draw)
    } else {
        None
    };

    let new_meta = GameMeta {
        game_id: game_meta.game_id,
        pubkey_x: game_meta.pubkey_x,
        pubkey_y: game_meta.pubkey_y,
        move_count: new_move_count,
        next_player: game_meta.next_player.other(),
        game_over: winner.is_some(),
    };

    (state_root(&new_meta, &new_board_root), winner)
}

/// Pure state-transition function.
///
/// # Arguments
/// * `prior_state_root` - commitment to the previous game state; `[0u8;32]` means no game yet
/// * `mv`              - the player's move
/// * `witness`         - auxiliary data needed to validate `mv` against `prior_state_root`
///
/// # Returns
/// `(new_state_root, Option<Winner>)` on success, or an `StfError` if the move is invalid.
///
/// The move counter must have room for an accepted move; [`stf_checked`] tests that.
pub fn stf(prior_state_root: Hash32, mv: PlayerMove, witness: Witness) -> (result: Result<
    (Hash32, Option<Winner>),
    StfError,
>)
    requires
        !counter_exhausted(prior_state_root, mv, witness),
    ensures
        result == transition(prior_state_root, mv, witness),
{
    match (mv, witness) {
        // CreateGame: one-time initialisation
        (PlayerMove::CreateGame { game_id, pubkey_x, pubkey_y }, Witness::CreateGame) => {
            let zero: Hash32 = [0u8; 32];
            assert(is_zero(prior_state_root) ==> prior_state_root =~= zero);
            if !bytes_equal(&prior_state_root, &zero) {
                return Err(StfError::GameAlreadyExists);
            }
            let meta = GameMeta {
                game_id,
                pubkey_x,
                pubkey_y,
                move_count: 0,
                next_player: Player::X,
                game_over: false,
            };
            let board_root = empty_board_root();
            Ok((state_root(&meta, &board_root), None))
        },
        // Play: place a mark on the board
        (
            PlayerMove::Play { pubkey, signature, x, y },
            Witness::Play { game_meta, board_root, cell_proofs },
        ) => {
            match check_play(
                &prior_state_root,
                &pubkey,
                &signature,
                x,
                y,
                &game_meta,
                &board_root,
                cell_proofs.as_slice(),
            ) {
                Err(error) => Err(error),
                Ok(siblings) => Ok(
                    apply_play(x, y, &game_meta, &siblings, cell_proofs.as_slice()),
                ),
            }
        },
        _ => Err(StfError::WitnessMismatch),
    }
}

/// [`stf`] for any input at all: `None` if the move is valid but the move counter has no
/// room for it.
pub fn stf_checked(prior_state_root: Hash32, mv: PlayerMove, witness: Witness) -> (result: Option<
    Result<(Hash32, Option<Winner>), StfError>,
>)
    ensures
        result == if counter_exhausted(prior_state_root, mv, witness) {
            None
        } else {
            Some(transition(prior_state_root, mv, witness))
        },
{
    match (&mv, &witness) {
        (
            PlayerMove::Play { pubkey, signature, x, y },
            Witness::Play { game_meta, board_root, cell_proofs },
        ) => {
            if game_meta.move_count == u8::MAX {
                return match check_play(
                    &prior_state_root,
                    pubkey,
                    signature,
                    *x,
                    *y,
                    game_meta,
                    board_root,
                    cell_proofs.as_slice(),
                ) {
                    Ok(_) => None,
                    Err(error) => Some(Err(error)),
                };
            }
        },
        _ => {},
    }
    Some(stf(prior_state_root, mv, witness))
}

} // verus!
