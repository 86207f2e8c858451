//! What the transition function guarantees as a whole: commitments are binding, moves
//! cannot be replayed, honest moves are accepted, and only legal moves are.
//!
//! Nothing here assumes that SHA-256 has no collisions. Where a guarantee rests on that,
//! the law names the two inputs that collide if the guarantee fails.

use crate::crypto::{ed25519_key_decodes, ed25519_verifies, sha256_collision, sha256_digest};
use crate::game::{
    accepted_proofs_cover_required_cells, cell_rejection, claim_rejection, counter_exhausted,
    error_text, find_proof, find_proof_from, game_result, is_zero, new_game_meta, next_meta,
    play_outcome, play_rejection, post_move_cells, proofs_rejection_from, signed_bytes,
    state_digest, state_preimage, transition, StfError,
};
use crate::lines::{
    a_win_fills_a_whole_line, cell_reader, on_win_line, winning_reads_required_cells, wins_through,
};
use crate::merkle::{
    board_digest, board_leaves, empty_board, leaf_index, path_root, sibling_path,
};
use crate::merkle_laws::{
    accepted_proof_shows_the_board, board_root_is_binding, boards_collide,
    empty_root_commits_to_empty_board, honest_proof_verifies, honest_update_commits, walks_collide,
};
use crate::text::decimal;
use crate::types::{
    key_of, mark_of, meta_bytes, meta_encoding_is_injective, Cell, CellProof, GameId, GameMeta,
    Hash32, Player, PlayerMove, PublicKey, Signature, Winner, Witness,
};
use vstd::prelude::*;

verus! {

// ---------------------------------------------------------------------------
// Commitments and replay
// ---------------------------------------------------------------------------

/// A state root is binding: two states with one root have the same metadata and the same
/// board root, unless their encodings are a SHA-256 collision.
pub proof fn state_root_is_binding(
    meta_a: GameMeta,
    board_root_a: Hash32,
    meta_b: GameMeta,
    board_root_b: Hash32,
)
    requires
        state_digest(meta_a, board_root_a) == state_digest(meta_b, board_root_b),
    ensures
        (meta_a == meta_b && board_root_a == board_root_b) || sha256_collision(
            state_preimage(meta_a, board_root_a),
            state_preimage(meta_b, board_root_b),
        ),
{
    let a = state_preimage(meta_a, board_root_a);
    let b = state_preimage(meta_b, board_root_b);
    meta_encoding_is_injective(meta_a, meta_b);
    meta_encoding_is_injective(meta_b, meta_a);
    if a == b {
        assert forall|i: int| 0 <= i < 99 implies meta_bytes(meta_a)[i] == meta_bytes(meta_b)[i] by {
            assert(a[i] == b[i]);
        }
        assert(meta_bytes(meta_a) =~= meta_bytes(meta_b));
        assert forall|i: int| 0 <= i < 32 implies board_root_a@[i] == board_root_b@[i] by {
            assert(a[99 + i] == b[99 + i]);
        }
        assert(board_root_a =~= board_root_b);
    }
}

/// A state root commits to the whole game: two states with one root have the same metadata
/// and the same board, unless their encodings or their trees exhibit a SHA-256 collision.
pub proof fn state_root_commits_to_the_board(
    meta_a: GameMeta,
    cells_a: Seq<Cell>,
    meta_b: GameMeta,
    cells_b: Seq<Cell>,
)
    requires
        cells_a.len() == 9,
        cells_b.len() == 9,
        state_digest(meta_a, board_digest(cells_a)) == state_digest(meta_b, board_digest(cells_b)),
    ensures
        (meta_a == meta_b && cells_a == cells_b) || sha256_collision(
            state_preimage(meta_a, board_digest(cells_a)),
            state_preimage(meta_b, board_digest(cells_b)),
        ) || boards_collide(cells_a, cells_b),
{
    state_root_is_binding(meta_a, board_digest(cells_a), meta_b, board_digest(cells_b));
    if board_digest(cells_a) == board_digest(cells_b) {
        board_root_is_binding(cells_a, cells_b);
    }
}

/// The signed message determines the prior state and the coordinates: a signature for one
/// cell is not one for another, nor for the same cell in another state.
pub proof fn signed_message_is_injective(
    prior_a: Hash32,
    x_a: u8,
    y_a: u8,
    prior_b: Hash32,
    x_b: u8,
    y_b: u8,
)
    requires
        signed_bytes(prior_a, x_a, y_a) == signed_bytes(prior_b, x_b, y_b),
    ensures
        prior_a == prior_b,
        x_a == x_b,
        y_a == y_b,
{
    let a = signed_bytes(prior_a, x_a, y_a);
    let b = signed_bytes(prior_b, x_b, y_b);
    assert forall|i: int| 0 <= i < 32 implies prior_a@[i] == prior_b@[i] by {
        assert(a[i] == prior_a@[i] && b[i] == prior_b@[i]);
    }
    assert(prior_a =~= prior_b);
    assert(a[32] == x_a && b[32] == x_b);
    assert(a[33] == y_a && b[33] == y_b);
}

/// States of different games, or of one game at different move counts, have different
/// roots and different signed messages at every coordinate, unless their encodings are a
/// SHA-256 collision. So a signature made for one of them is on another message in the
/// other.
pub proof fn moves_cannot_be_replayed(
    meta_a: GameMeta,
    board_root_a: Hash32,
    x_a: u8,
    y_a: u8,
    meta_b: GameMeta,
    board_root_b: Hash32,
    x_b: u8,
    y_b: u8,
)
    requires
        meta_a.game_id != meta_b.game_id || meta_a.move_count != meta_b.move_count,
    ensures
        ({
            let root_a = state_digest(meta_a, board_root_a);
            let root_b = state_digest(meta_b, board_root_b);
            (root_a != root_b && signed_bytes(root_a, x_a, y_a) != signed_bytes(root_b, x_b, y_b))
                || sha256_collision(
                state_preimage(meta_a, board_root_a),
                state_preimage(meta_b, board_root_b),
            )
        }),
{
    let root_a = state_digest(meta_a, board_root_a);
    let root_b = state_digest(meta_b, board_root_b);
    if root_a == root_b {
        state_root_is_binding(meta_a, board_root_a, meta_b, board_root_b);
    } else if signed_bytes(root_a, x_a, y_a) == signed_bytes(root_b, x_b, y_b) {
        signed_message_is_injective(root_a, x_a, y_a, root_b, x_b, y_b);
    }
}

/// Games with different identifiers start from different roots, whoever plays them,
/// unless the encodings of their first states are a SHA-256 collision.
pub proof fn new_games_are_isolated(
    prior: Hash32,
    game_id_a: GameId,
    pubkey_x_a: PublicKey,
    pubkey_y_a: PublicKey,
    game_id_b: GameId,
    pubkey_x_b: PublicKey,
    pubkey_y_b: PublicKey,
)
    requires
        is_zero(prior),
        game_id_a != game_id_b,
    ensures
        ({
            let a = transition(
                prior,
                PlayerMove::CreateGame {
                    game_id: game_id_a,
                    pubkey_x: pubkey_x_a,
                    pubkey_y: pubkey_y_a,
                },
                Witness::CreateGame,
            );
            let b = transition(
                prior,
                PlayerMove::CreateGame {
                    game_id: game_id_b,
                    pubkey_x: pubkey_x_b,
                    pubkey_y: pubkey_y_b,
                },
                Witness::CreateGame,
            );
            let board_root = crate::merkle::empty_subtree(4);
            a is Ok && b is Ok && (a.unwrap().0 != b.unwrap().0 || sha256_collision(
                state_preimage(new_game_meta(game_id_a, pubkey_x_a, pubkey_y_a), board_root),
                state_preimage(new_game_meta(game_id_b, pubkey_x_b, pubkey_y_b), board_root),
            ))
        }),
{
    let board_root = crate::merkle::empty_subtree(4);
    let meta_a = new_game_meta(game_id_a, pubkey_x_a, pubkey_y_a);
    let meta_b = new_game_meta(game_id_b, pubkey_x_b, pubkey_y_b);
    moves_cannot_be_replayed(meta_a, board_root, 0, 0, meta_b, board_root, 0, 0);
}

/// A game is created once: `CreateGame` is accepted from the all-zero root and refused
/// from every other root. In particular it is refused, whatever it asks for, from the root
/// that creating a game returned, if that is not all zeros.
pub proof fn a_game_is_created_once(
    prior: Hash32,
    game_id: GameId,
    pubkey_x: PublicKey,
    pubkey_y: PublicKey,
    game_id_again: GameId,
    pubkey_x_again: PublicKey,
    pubkey_y_again: PublicKey,
)
    ensures
        ({
            let created = transition(
                prior,
                PlayerMove::CreateGame { game_id, pubkey_x, pubkey_y },
                Witness::CreateGame,
            );
            let again = transition(
                created.unwrap().0,
                PlayerMove::CreateGame {
                    game_id: game_id_again,
                    pubkey_x: pubkey_x_again,
                    pubkey_y: pubkey_y_again,
                },
                Witness::CreateGame,
            );
            let refused = Err::<(Hash32, Option<Winner>), StfError>(StfError::GameAlreadyExists);
            if is_zero(prior) {
                &&& created is Ok && created.unwrap().1 is None
                &&& !is_zero(created.unwrap().0) ==> again == refused
            } else {
                created == refused
            }
        }),
{
}

// ---------------------------------------------------------------------------
// Completeness
// ---------------------------------------------------------------------------

/// Whether the witness proves every required cell as it stands on the board, with the
/// siblings of its leaf.
pub open spec fn proofs_are_honest(
    cells: Seq<Cell>,
    proofs: Seq<CellProof>,
    x: u8,
    y: u8,
) -> bool {
    forall|cx: u8, cy: u8| #[trigger]
        on_win_line(x, y, cx, cy) ==> find_proof(proofs, cx, cy) is Some && {
            let p = find_proof(proofs, cx, cy).unwrap();
            let index = leaf_index(cx as int, cy as int);
            p.cell == cells[index] && p.siblings@ == sibling_path(board_leaves(cells), index)
        }
}

/// Why a move on a board is refused, if it is, when the witness is honest.
pub open spec fn move_refusal(
    prior: Hash32,
    pubkey: PublicKey,
    signature: Signature,
    x: u8,
    y: u8,
    meta: GameMeta,
    cells: Seq<Cell>,
) -> Option<StfError> {
    if meta.game_over {
        Some(StfError::GameOver)
    } else if x > 2 || y > 2 {
        Some(StfError::InvalidCoords(x, y))
    } else if pubkey != key_of(meta, meta.next_player) {
        Some(StfError::NotYourTurn)
    } else if !ed25519_key_decodes(pubkey@) {
        Some(StfError::InvalidPublicKey)
    } else if !ed25519_verifies(pubkey@, signed_bytes(prior, x, y), signature@) {
        Some(StfError::InvalidSignature)
    } else if cells[leaf_index(x as int, y as int)] != Cell::Empty {
        Some(StfError::CellOccupied(x, y))
    } else {
        None
    }
}

/// The board after a move.
pub open spec fn board_after(cells: Seq<Cell>, x: u8, y: u8, player: Player) -> Seq<Cell> {
    cells.update(leaf_index(x as int, y as int), mark_of(player))
}

/// The result of the game after a move on a board.
pub open spec fn result_after(cells: Seq<Cell>, x: u8, y: u8, meta: GameMeta) -> Option<Winner> {
    game_result(
        meta.next_player,
        wins_through(
            x,
            y,
            mark_of(meta.next_player),
            cell_reader(board_after(cells, x, y, meta.next_player)),
        ),
        meta.move_count + 1,
    )
}

/// The root that commits to the state after a move, and the result of the game.
pub open spec fn outcome_after(cells: Seq<Cell>, x: u8, y: u8, meta: GameMeta) -> (
    Hash32,
    Option<Winner>,
) {
    let result = result_after(cells, x, y, meta);
    (
        state_digest(
            next_meta(meta, result),
            board_digest(board_after(cells, x, y, meta.next_player)),
        ),
        result,
    )
}

proof fn lemma_clean_cells_pass(
    board_root: Hash32,
    proofs: Seq<CellProof>,
    x: u8,
    y: u8,
    from: nat,
)
    requires
        forall|cx: u8, cy: u8| #[trigger]
            on_win_line(x, y, cx, cy) && cx < 3 && cy < 3 ==> cell_rejection(
                board_root,
                proofs,
                cx,
                cy,
            ) is None,
    ensures
        proofs_rejection_from(board_root, proofs, x, y, from) is None,
    decreases 9 - from,
{
    if from < 9 {
        lemma_clean_cells_pass(board_root, proofs, x, y, from + 1);
        assert(on_win_line(x, y, (from / 3) as u8, (from % 3) as u8) ==> (from / 3) < 3 && (from % 3)
            < 3);
    }
}

/// What the proofs of an honest witness, or of one that shows the board, lead to.
proof fn lemma_outcome_of_shown_board(
    cells: Seq<Cell>,
    proofs: Seq<CellProof>,
    x: u8,
    y: u8,
    meta: GameMeta,
)
    requires
        cells.len() == 9,
        x <= 2,
        y <= 2,
        proofs_are_honest(cells, proofs, x, y),
    ensures
        play_outcome(x, y, meta, proofs) == outcome_after(cells, x, y, meta),
{
    let mark = mark_of(meta.next_player);
    let index = leaf_index(x as int, y as int);
    let after = board_after(cells, x, y, meta.next_player);
    assert(on_win_line(x, y, x, y));
    honest_update_commits(cells, index, mark);
    assert forall|cx: u8, cy: u8| #[trigger] on_win_line(x, y, cx, cy) implies post_move_cells(
        proofs,
        x,
        y,
        mark,
    )(cx, cy) == cell_reader(after)(cx, cy) by {
        assert(cx < 3 && cy < 3);
        assert(leaf_index(cx as int, cy as int) == index ==> cx == x && cy == y);
    }
    winning_reads_required_cells(
        x,
        y,
        mark,
        post_move_cells(proofs, x, y, mark),
        cell_reader(after),
    );
}

/// What a move on a board leads to, when the witness is honest.
pub open spec fn verdict(
    prior: Hash32,
    pubkey: PublicKey,
    signature: Signature,
    x: u8,
    y: u8,
    meta: GameMeta,
    cells: Seq<Cell>,
) -> Result<(Hash32, Option<Winner>), StfError> {
    match move_refusal(prior, pubkey, signature, x, y, meta, cells) {
        Some(error) => Err(error),
        None => Ok(outcome_after(cells, x, y, meta)),
    }
}

/// Completeness: from a root that commits to a board, a move with an honest witness is
/// refused only for a reason that lies in the game, and an accepted move leads to the root
/// that commits to the board with the mark placed, and to the result on that board.
pub proof fn honest_moves_are_judged_by_the_board(
    prior: Hash32,
    pubkey: PublicKey,
    signature: Signature,
    x: u8,
    y: u8,
    meta: GameMeta,
    cells: Seq<Cell>,
    cell_proofs: Vec<CellProof>,
)
    requires
        cells.len() == 9,
        prior == state_digest(meta, board_digest(cells)),
        x <= 2 && y <= 2 ==> proofs_are_honest(cells, cell_proofs@, x, y),
    ensures
        transition(
            prior,
            PlayerMove::Play { pubkey, signature, x, y },
            Witness::Play { game_meta: meta, board_root: board_digest(cells), cell_proofs },
        ) == verdict(prior, pubkey, signature, x, y, meta, cells),
{
    if x <= 2 && y <= 2 {
        let root = board_digest(cells);
        let proofs = cell_proofs@;
        assert forall|cx: u8, cy: u8| #[trigger]
            on_win_line(x, y, cx, cy) && cx < 3 && cy < 3 implies cell_rejection(
            root,
            proofs,
            cx,
            cy,
        ) is None by {
            honest_proof_verifies(cells, leaf_index(cx as int, cy as int));
        }
        lemma_clean_cells_pass(root, proofs, x, y, 0);
        lemma_outcome_of_shown_board(cells, proofs, x, y, meta);
        assert(on_win_line(x, y, x, y));
    }
}

// ---------------------------------------------------------------------------
// Soundness
// ---------------------------------------------------------------------------

/// A SHA-256 collision that a witness exhibits against the state it claims to open: in
/// the state root, or on the walk of one of its proofs.
pub open spec fn witness_collides(
    meta: GameMeta,
    cells: Seq<Cell>,
    claimed_meta: GameMeta,
    claimed_board_root: Hash32,
    proofs: Seq<CellProof>,
    x: u8,
    y: u8,
) -> bool {
    ||| sha256_collision(
        state_preimage(claimed_meta, claimed_board_root),
        state_preimage(meta, board_digest(cells)),
    )
    ||| exists|cx: u8, cy: u8| #[trigger]
        on_win_line(x, y, cx, cy) && find_proof(proofs, cx, cy) is Some && {
            let p = find_proof(proofs, cx, cy).unwrap();
            let index = leaf_index(cx as int, cy as int);
            walks_collide(
                index,
                p.cell,
                p.siblings@,
                cells[index],
                sibling_path(board_leaves(cells), index),
            )
        }
}

/// Soundness: from a root that commits to a board, a move is accepted, whatever the
/// witness, only if it is legal there (the game is active, it is this player's turn and
/// signature, the cell is on the board and empty), and it then leads to the root that
/// commits to the board with the mark placed and to the result on that board; unless the
/// witness exhibits a SHA-256 collision.
pub proof fn accepted_moves_are_legal(
    prior: Hash32,
    pubkey: PublicKey,
    signature: Signature,
    x: u8,
    y: u8,
    meta: GameMeta,
    cells: Seq<Cell>,
    witness: Witness,
)
    requires
        cells.len() == 9,
        prior == state_digest(meta, board_digest(cells)),
        transition(prior, PlayerMove::Play { pubkey, signature, x, y }, witness) is Ok,
    ensures
        witness matches Witness::Play { game_meta, board_root, cell_proofs } && ((move_refusal(
            prior,
            pubkey,
            signature,
            x,
            y,
            meta,
            cells,
        ) is None && transition(prior, PlayerMove::Play { pubkey, signature, x, y }, witness)
            == Ok::<_, StfError>(outcome_after(cells, x, y, meta))) || witness_collides(
            meta,
            cells,
            game_meta,
            board_root,
            cell_proofs@,
            x,
            y,
        )),
{
    if let Witness::Play { game_meta, board_root, cell_proofs } = witness {
        let proofs = cell_proofs@;
        if !witness_collides(meta, cells, game_meta, board_root, proofs, x, y) {
            let root = board_digest(cells);
            state_root_is_binding(game_meta, board_root, meta, root);
            assert(game_meta == meta && board_root == root);
            assert forall|cx: u8, cy: u8| #[trigger] on_win_line(x, y, cx, cy) implies find_proof(
                proofs,
                cx,
                cy,
            ) is Some && {
                let p = find_proof(proofs, cx, cy).unwrap();
                let index = leaf_index(cx as int, cy as int);
                p.cell == cells[index] && p.siblings@ == sibling_path(board_leaves(cells), index)
            } by {
                accepted_proofs_cover_required_cells(root, proofs, x, y, cx, cy);
                let p = find_proof(proofs, cx, cy).unwrap();
                accepted_proof_shows_the_board(
                    cells,
                    leaf_index(cx as int, cy as int),
                    p.cell,
                    p.siblings@,
                );
            }
            assert(proofs_are_honest(cells, proofs, x, y));
            assert(on_win_line(x, y, x, y));
            lemma_outcome_of_shown_board(cells, proofs, x, y, meta);
        }
    }
}

/// A collision that excuses a law is a real one: two different inputs with one SHA-256
/// digest.
pub proof fn collisions_are_real(
    meta: GameMeta,
    cells: Seq<Cell>,
    claimed_meta: GameMeta,
    claimed_board_root: Hash32,
    proofs: Seq<CellProof>,
    x: u8,
    y: u8,
    cells_b: Seq<Cell>,
)
    requires
        witness_collides(meta, cells, claimed_meta, claimed_board_root, proofs, x, y)
            || boards_collide(cells, cells_b),
    ensures
        exists|a: Seq<u8>, b: Seq<u8>|
            a != b && #[trigger] sha256_digest(a) == #[trigger] sha256_digest(b),
{
}

/// A finished game stays finished: from the root of a finished game no move is accepted,
/// whatever the witness, unless the witness and the state are a SHA-256 collision.
pub proof fn finished_games_accept_no_move(
    meta: GameMeta,
    board_root: Hash32,
    pubkey: PublicKey,
    signature: Signature,
    x: u8,
    y: u8,
    witness: Witness,
)
    requires
        meta.game_over,
    ensures
        transition(
            state_digest(meta, board_root),
            PlayerMove::Play { pubkey, signature, x, y },
            witness,
        ) is Err || (witness matches Witness::Play {
            game_meta,
            board_root: claimed_board_root,
            ..
        } && sha256_collision(
            state_preimage(game_meta, claimed_board_root),
            state_preimage(meta, board_root),
        )),
{
    match witness {
        Witness::CreateGame => {},
        Witness::Play { game_meta, board_root: claimed_board_root, cell_proofs } => {
            if state_digest(game_meta, claimed_board_root) == state_digest(meta, board_root) {
                state_root_is_binding(game_meta, claimed_board_root, meta, board_root);
            }
        },
    }
}

// ---------------------------------------------------------------------------
// Witness minimality
// ---------------------------------------------------------------------------

proof fn lemma_same_required_proofs(
    board_root: Hash32,
    proofs_a: Seq<CellProof>,
    proofs_b: Seq<CellProof>,
    x: u8,
    y: u8,
    from: nat,
)
    requires
        forall|cx: u8, cy: u8| #[trigger]
            on_win_line(x, y, cx, cy) ==> find_proof(proofs_a, cx, cy) == find_proof(
                proofs_b,
                cx,
                cy,
            ),
    ensures
        proofs_rejection_from(board_root, proofs_a, x, y, from) == proofs_rejection_from(
            board_root,
            proofs_b,
            x,
            y,
            from,
        ),
    decreases 9 - from,
{
    if from < 9 {
        lemma_same_required_proofs(board_root, proofs_a, proofs_b, x, y, from + 1);
        assert(on_win_line(x, y, (from / 3) as u8, (from % 3) as u8) ==> find_proof(
            proofs_a,
            (from / 3) as u8,
            (from % 3) as u8,
        ) == find_proof(proofs_b, (from / 3) as u8, (from % 3) as u8));
    }
}

/// The required cells are all that matters: two witnesses that agree on the proofs of the
/// required cells are judged alike and lead to the same outcome, whatever else they hold.
pub proof fn only_required_proofs_matter(
    prior: Hash32,
    pubkey: PublicKey,
    signature: Signature,
    x: u8,
    y: u8,
    meta: GameMeta,
    board_root: Hash32,
    proofs_a: Seq<CellProof>,
    proofs_b: Seq<CellProof>,
)
    requires
        forall|cx: u8, cy: u8| #[trigger]
            on_win_line(x, y, cx, cy) ==> find_proof(proofs_a, cx, cy) == find_proof(
                proofs_b,
                cx,
                cy,
            ),
    ensures
        play_rejection(prior, pubkey, signature, x, y, meta, board_root, proofs_a)
            == play_rejection(prior, pubkey, signature, x, y, meta, board_root, proofs_b),
        x <= 2 && y <= 2 ==> play_outcome(x, y, meta, proofs_a) == play_outcome(
            x,
            y,
            meta,
            proofs_b,
        ),
{
    lemma_same_required_proofs(board_root, proofs_a, proofs_b, x, y, 0);
    if x <= 2 && y <= 2 {
        assert(on_win_line(x, y, x, y));
        let mark = mark_of(meta.next_player);
        winning_reads_required_cells(
            x,
            y,
            mark,
            post_move_cells(proofs_a, x, y, mark),
            post_move_cells(proofs_b, x, y, mark),
        );
    }
}

/// A refusal of the proofs is the refusal of some required cell.
proof fn lemma_rejected_cell(
    board_root: Hash32,
    proofs: Seq<CellProof>,
    x: u8,
    y: u8,
    from: nat,
) -> (cell: (u8, u8))
    requires
        proofs_rejection_from(board_root, proofs, x, y, from) is Some,
    ensures
        on_win_line(x, y, cell.0, cell.1),
        cell_rejection(board_root, proofs, cell.0, cell.1) == proofs_rejection_from(
            board_root,
            proofs,
            x,
            y,
            from,
        ),
    decreases 9 - from,
{
    let cell = ((from / 3) as u8, (from % 3) as u8);
    if on_win_line(x, y, cell.0, cell.1) && cell_rejection(board_root, proofs, cell.0, cell.1)
        is Some {
        cell
    } else {
        lemma_rejected_cell(board_root, proofs, x, y, from + 1)
    }
}

/// Leaving out a required cell is noticed: if some required cell has no proof, the move
/// is refused. Where nothing else is wrong with the move, and every required cell that has
/// a proof has a valid one, the refusal names a required cell whose proof is missing.
pub proof fn missing_proofs_are_refused(
    prior: Hash32,
    pubkey: PublicKey,
    signature: Signature,
    x: u8,
    y: u8,
    meta: GameMeta,
    board_root: Hash32,
    proofs: Seq<CellProof>,
    cx: u8,
    cy: u8,
)
    requires
        on_win_line(x, y, cx, cy),
        find_proof(proofs, cx, cy) is None,
    ensures
        play_rejection(prior, pubkey, signature, x, y, meta, board_root, proofs) is Some,
        ({
            &&& claim_rejection(prior, state_digest(meta, board_root), pubkey, x, y, meta) is None
            &&& ed25519_key_decodes(pubkey@)
            &&& ed25519_verifies(pubkey@, signed_bytes(prior, x, y), signature@)
            &&& forall|ax: u8, ay: u8| #[trigger]
                on_win_line(x, y, ax, ay) && find_proof(proofs, ax, ay) is Some
                    ==> cell_rejection(board_root, proofs, ax, ay) is None
        }) ==> exists|ax: u8, ay: u8| #[trigger]
            on_win_line(x, y, ax, ay) && find_proof(proofs, ax, ay) is None && play_rejection(
                prior,
                pubkey,
                signature,
                x,
                y,
                meta,
                board_root,
                proofs,
            ) == Some(StfError::MissingCellProof(ax, ay)),
{
    if x <= 2 && y <= 2 {
        if proofs_rejection_from(board_root, proofs, x, y, 0) is None {
            accepted_proofs_cover_required_cells(board_root, proofs, x, y, cx, cy);
        } else {
            let cell = lemma_rejected_cell(board_root, proofs, x, y, 0);
            assert(on_win_line(x, y, cell.0, cell.1));
        }
    }
}

// ---------------------------------------------------------------------------
// The rules, in terms of what goes in and what comes out
// ---------------------------------------------------------------------------

/// The bytes behind a state root and behind a signature: a root is the SHA-256 digest of the
/// metadata's encoding and the board root, and a move is signed over the root, `x` and `y`.
pub proof fn roots_and_messages_are_of_these_bytes(
    meta: GameMeta,
    board_root: Hash32,
    prior: Hash32,
    x: u8,
    y: u8,
)
    ensures
        state_digest(meta, board_root) == sha256_digest(meta_bytes(meta) + board_root@),
        state_preimage(meta, board_root) == meta_bytes(meta) + board_root@,
        signed_bytes(prior, x, y).len() == 34,
        forall|i: int| 0 <= i < 32 ==> #[trigger] signed_bytes(prior, x, y)[i] == prior@[i],
        signed_bytes(prior, x, y)[32] == x,
        signed_bytes(prior, x, y)[33] == y,
        is_zero(prior) <==> prior@ == Seq::new(32, |i: int| 0u8),
{
    if is_zero(prior) {
        assert(prior@ =~= Seq::new(32, |i: int| 0u8));
    } else {
        let i = choose|i: int| 0 <= i < 32 && prior@[i] != 0;
        assert(Seq::new(32, |i: int| 0u8)[i] == 0);
    }
}

proof fn lemma_first_proof(proofs: Seq<CellProof>, x: u8, y: u8, from: nat)
    requires
        from <= proofs.len(),
    ensures
        match find_proof_from(proofs, x, y, from) {
            Some(p) => exists|i: int|
                from <= i < proofs.len() && #[trigger] proofs[i] == p && p.x == x && p.y == y && (
                forall|j: int|
                    from <= j < i ==> !((#[trigger] proofs[j]).x == x && proofs[j].y == y)),
            None => forall|i: int|
                from <= i < proofs.len() ==> !((#[trigger] proofs[i]).x == x && proofs[i].y == y),
        },
    decreases proofs.len() - from,
{
    if from < proofs.len() && !(proofs[from as int].x == x && proofs[from as int].y == y) {
        lemma_first_proof(proofs, x, y, from + 1);
        if let Some(p) = find_proof_from(proofs, x, y, from + 1) {
            let i = choose|i: int|
                from + 1 <= i < proofs.len() && #[trigger] proofs[i] == p && p.x == x && p.y == y
                    && (forall|j: int|
                    from + 1 <= j < i ==> !((#[trigger] proofs[j]).x == x && proofs[j].y == y));
            assert(proofs[i] == p);
            assert forall|j: int| from <= j < i implies !((#[trigger] proofs[j]).x == x
                && proofs[j].y == y) by {
                if j > from {
                    assert(from + 1 <= j);
                }
            }
        }
    } else if from < proofs.len() {
        assert(proofs[from as int].x == x);
    }
}

/// The proof that counts for a cell is the first one in the list that names its
/// coordinates; there is none exactly if no entry names them.
pub proof fn the_first_proof_counts(proofs: Seq<CellProof>, x: u8, y: u8)
    ensures
        match find_proof(proofs, x, y) {
            Some(p) => exists|i: int|
                0 <= i < proofs.len() && #[trigger] proofs[i] == p && p.x == x && p.y == y && (
                forall|j: int|
                    0 <= j < i ==> !((#[trigger] proofs[j]).x == x && proofs[j].y == y)),
            None => forall|i: int|
                0 <= i < proofs.len() ==> !((#[trigger] proofs[i]).x == x && proofs[i].y == y),
        },
{
    lemma_first_proof(proofs, x, y, 0);
}

/// A cell is authenticated exactly if it has a proof and the walk of that proof arrives at
/// the board root. Without a proof it is reported as missing, with a wrong one as invalid,
/// in both cases under its own coordinates.
pub proof fn cells_are_authenticated_by_their_walk(
    board_root: Hash32,
    proofs: Seq<CellProof>,
    x: u8,
    y: u8,
)
    ensures
        find_proof(proofs, x, y) is None <==> cell_rejection(board_root, proofs, x, y) == Some(
            StfError::MissingCellProof(x, y),
        ),
        (find_proof(proofs, x, y) matches Some(p) && path_root(3 * y + x, p.cell, p.siblings@)
            != board_root) <==> cell_rejection(board_root, proofs, x, y) == Some(
            StfError::InvalidMerkleProof(x, y),
        ),
        (find_proof(proofs, x, y) matches Some(p) && path_root(3 * y + x, p.cell, p.siblings@)
            == board_root) <==> cell_rejection(board_root, proofs, x, y) is None,
{
}

proof fn lemma_first_bad_cell(
    board_root: Hash32,
    proofs: Seq<CellProof>,
    x: u8,
    y: u8,
    from: nat,
    cx: u8,
    cy: u8,
)
    requires
        from <= 3 * cx + cy,
        cx < 3,
        cy < 3,
        on_win_line(x, y, cx, cy),
        cell_rejection(board_root, proofs, cx, cy) is Some,
        forall|ax: u8, ay: u8| #[trigger]
            on_win_line(x, y, ax, ay) && ax < 3 && ay < 3 && 3 * ax + ay < 3 * cx + cy
                ==> cell_rejection(board_root, proofs, ax, ay) is None,
    ensures
        proofs_rejection_from(board_root, proofs, x, y, from) == cell_rejection(
            board_root,
            proofs,
            cx,
            cy,
        ),
    decreases 9 - from,
{
    let ax = (from / 3) as u8;
    let ay = (from % 3) as u8;
    if from < 3 * cx + cy {
        assert(3 * ax + ay == from);
        assert(on_win_line(x, y, ax, ay) ==> cell_rejection(board_root, proofs, ax, ay) is None);
        lemma_first_bad_cell(board_root, proofs, x, y, from + 1, cx, cy);
    } else {
        assert(ax == cx && ay == cy);
    }
}

/// The proofs of a move pass exactly if every required cell is authenticated. Otherwise the
/// refusal is that of the first required cell, by column and then by row, that is not.
pub proof fn the_first_bad_cell_is_reported(
    board_root: Hash32,
    proofs: Seq<CellProof>,
    x: u8,
    y: u8,
    cx: u8,
    cy: u8,
)
    requires
        x <= 2,
        y <= 2,
    ensures
        proofs_rejection_from(board_root, proofs, x, y, 0) is None <==> forall|ax: u8, ay: u8|
            #[trigger]
            on_win_line(x, y, ax, ay) ==> cell_rejection(board_root, proofs, ax, ay) is None,
        ({
            &&& on_win_line(x, y, cx, cy)
            &&& cell_rejection(board_root, proofs, cx, cy) is Some
            &&& forall|ax: u8, ay: u8| #[trigger]
                on_win_line(x, y, ax, ay) && 3 * ax + ay < 3 * cx + cy ==> cell_rejection(
                    board_root,
                    proofs,
                    ax,
                    ay,
                ) is None
        }) ==> proofs_rejection_from(board_root, proofs, x, y, 0) == cell_rejection(
            board_root,
            proofs,
            cx,
            cy,
        ),
{
    if proofs_rejection_from(board_root, proofs, x, y, 0) is None {
        assert forall|ax: u8, ay: u8| #[trigger] on_win_line(x, y, ax, ay) implies cell_rejection(
            board_root,
            proofs,
            ax,
            ay,
        ) is None by {
            accepted_proofs_cover_required_cells(board_root, proofs, x, y, ax, ay);
        }
    } else {
        let cell = lemma_rejected_cell(board_root, proofs, x, y, 0);
        assert(on_win_line(x, y, cell.0, cell.1));
    }
    if on_win_line(x, y, cx, cy) && cell_rejection(board_root, proofs, cx, cy) is Some && (forall|
        ax: u8,
        ay: u8,
    | #[trigger]
        on_win_line(x, y, ax, ay) && 3 * ax + ay < 3 * cx + cy ==> cell_rejection(
            board_root,
            proofs,
            ax,
            ay,
        ) is None) {
        lemma_first_bad_cell(board_root, proofs, x, y, 0, cx, cy);
    }
}

/// When each refusal of a `Play` move is given, whatever the witness claims. In particular a
/// move is never accepted unless the key is that of the player to move in the committed
/// metadata, the signature is one on the prior root and the coordinates, and the played cell
/// is proved empty; and it is accepted if all of that holds.
pub proof fn refusals_of_a_play(
    prior: Hash32,
    pubkey: PublicKey,
    signature: Signature,
    x: u8,
    y: u8,
    meta: GameMeta,
    board_root: Hash32,
    cell_proofs: Vec<CellProof>,
)
    ensures
        ({
            let answer = transition(
                prior,
                PlayerMove::Play { pubkey, signature, x, y },
                Witness::Play { game_meta: meta, board_root, cell_proofs },
            );
            let refused = |error: StfError|
                answer == Err::<(Hash32, Option<Winner>), StfError>(error);
            let committed = sha256_digest(meta_bytes(meta) + board_root@) == prior;
            let open = committed && !meta.game_over;
            let placed = open && x <= 2 && y <= 2;
            let in_turn = placed && pubkey == (if meta.next_player == Player::X {
                meta.pubkey_x
            } else {
                meta.pubkey_y
            });
            let keyed = in_turn && ed25519_key_decodes(pubkey@);
            let signed = keyed && ed25519_verifies(pubkey@, prior@ + seq![x, y], signature@);
            let bad_cell = proofs_rejection_from(board_root, cell_proofs@, x, y, 0);
            let shown = signed && bad_cell is None;
            let empty = find_proof(cell_proofs@, x, y) matches Some(p) && p.cell == Cell::Empty;
            &&& refused(StfError::StateCommitmentMismatch) <==> !committed
            &&& refused(StfError::GameOver) <==> committed && meta.game_over
            &&& refused(StfError::InvalidCoords(x, y)) <==> open && (x > 2 || y > 2)
            &&& refused(StfError::NotYourTurn) <==> placed && !in_turn
            &&& refused(StfError::InvalidPublicKey) <==> in_turn && !keyed
            &&& refused(StfError::InvalidSignature) <==> keyed && !signed
            &&& signed && bad_cell is Some ==> refused(bad_cell.unwrap())
            &&& refused(StfError::CellOccupied(x, y)) <==> shown && !empty
            &&& answer is Ok <==> shown && empty
            &&& answer is Ok ==> answer == Ok::<_, StfError>(
                play_outcome(x, y, meta, cell_proofs@),
            )
        }),
{
    if x <= 2 && y <= 2 {
        if proofs_rejection_from(board_root, cell_proofs@, x, y, 0) is Some {
            let cell = lemma_rejected_cell(board_root, cell_proofs@, x, y, 0);
        } else {
            assert(on_win_line(x, y, x, y));
            accepted_proofs_cover_required_cells(board_root, cell_proofs@, x, y, x, y);
        }
    }
}

/// A move is refused for a mismatch exactly if the witness is of the other kind.
pub proof fn witnesses_match_their_moves(prior: Hash32, mv: PlayerMove, witness: Witness)
    ensures
        transition(prior, mv, witness) == Err::<(Hash32, Option<Winner>), StfError>(
            StfError::WitnessMismatch,
        ) <==> (mv is CreateGame) != (witness is CreateGame),
{
    match (mv, witness) {
        (
            PlayerMove::Play { pubkey, signature, x, y },
            Witness::Play { game_meta, board_root, cell_proofs },
        ) => {
            if x <= 2 && y <= 2 && proofs_rejection_from(board_root, cell_proofs@, x, y, 0) is Some {
                let cell = lemma_rejected_cell(board_root, cell_proofs@, x, y, 0);
            }
        },
        _ => {},
    }
}

/// Only the player to move can move: an accepted move carries X's registered key when it is
/// X's turn and O's registered key when it is O's turn.
pub proof fn only_the_player_to_move_can_move(
    prior: Hash32,
    pubkey: PublicKey,
    signature: Signature,
    x: u8,
    y: u8,
    meta: GameMeta,
    board_root: Hash32,
    cell_proofs: Vec<CellProof>,
)
    requires
        transition(
            prior,
            PlayerMove::Play { pubkey, signature, x, y },
            Witness::Play { game_meta: meta, board_root, cell_proofs },
        ) is Ok,
    ensures
        meta.next_player == Player::X ==> pubkey == meta.pubkey_x,
        meta.next_player == Player::O ==> pubkey == meta.pubkey_y,
        !meta.game_over,
        x <= 2,
        y <= 2,
        ed25519_key_decodes(pubkey@),
        ed25519_verifies(pubkey@, prior@ + seq![x, y], signature@),
        find_proof(cell_proofs@, x, y) matches Some(p) && p.cell == Cell::Empty,
{
    refusals_of_a_play(prior, pubkey, signature, x, y, meta, board_root, cell_proofs);
}

/// What creating a game commits to, byte by byte: the identifier, the keys of X and O, no
/// moves, X to move, not over, and the empty board. There is no result yet.
pub proof fn a_new_game_commits_to_its_players(
    prior: Hash32,
    game_id: GameId,
    pubkey_x: PublicKey,
    pubkey_y: PublicKey,
)
    requires
        forall|i: int| 0 <= i < 32 ==> prior@[i] == 0,
    ensures
        transition(
            prior,
            PlayerMove::CreateGame { game_id, pubkey_x, pubkey_y },
            Witness::CreateGame,
        ) == Ok::<(Hash32, Option<Winner>), StfError>(
            (
                sha256_digest(
                    game_id@ + pubkey_x@ + pubkey_y@ + seq![0u8, 0u8, 0u8] + board_digest(
                        empty_board(),
                    )@,
                ),
                None,
            ),
        ),
        new_game_meta(game_id, pubkey_x, pubkey_y) == (GameMeta {
            game_id,
            pubkey_x,
            pubkey_y,
            move_count: 0,
            next_player: Player::X,
            game_over: false,
        }),
{
    empty_root_commits_to_empty_board();
}

/// A move keeps the identity of the game: the identifier and both keys stay as they were
/// registered, the count goes up by one, the turn passes to the other player, and the game
/// is over exactly if there is a result.
pub proof fn a_move_keeps_the_identity_of_the_game(meta: GameMeta, result: Option<Winner>)
    requires
        meta.move_count < 255,
    ensures
        next_meta(meta, result).game_id == meta.game_id,
        next_meta(meta, result).pubkey_x == meta.pubkey_x,
        next_meta(meta, result).pubkey_y == meta.pubkey_y,
        next_meta(meta, result).move_count == meta.move_count + 1,
        next_meta(meta, result).next_player != meta.next_player,
        next_meta(meta, result).game_over <==> result is Some,
{
}

/// What an accepted move commits to, byte by byte: the same identifier and keys, one more
/// move, the other player to move, over exactly if there is a result, and the board root
/// that the played cell's own siblings give for the mark of the player who moved. That
/// player wins exactly if the mark then fills a line through the cell, whatever the count;
/// without a win the ninth move is a draw and any other has no result.
pub proof fn a_move_commits_to_the_next_state(
    x: u8,
    y: u8,
    meta: GameMeta,
    proofs: Seq<CellProof>,
)
    requires
        meta.move_count < 255,
        find_proof(proofs, x, y) is Some,
    ensures
        ({
            let (root, result) = play_outcome(x, y, meta, proofs);
            let mark = if meta.next_player == Player::X {
                Cell::X
            } else {
                Cell::O
            };
            let board_root = path_root(3 * y + x, mark, find_proof(proofs, x, y).unwrap().siblings@);
            let won = wins_through(
                x,
                y,
                mark,
                |cx: u8, cy: u8|
                    if cx == x && cy == y {
                        mark
                    } else if find_proof(proofs, cx, cy) is Some {
                        find_proof(proofs, cx, cy).unwrap().cell
                    } else {
                        Cell::Empty
                    },
            );
            &&& root == sha256_digest(
                meta.game_id@ + meta.pubkey_x@ + meta.pubkey_y@ + seq![
                    (meta.move_count + 1) as u8,
                    if meta.next_player == Player::X {
                        1u8
                    } else {
                        0u8
                    },
                    if result is Some {
                        1u8
                    } else {
                        0u8
                    },
                ] + board_root@,
            )
            &&& result == Some(Winner::X) <==> won && meta.next_player == Player::X
            &&& result == Some(Winner::O) <==> won && meta.next_player == Player::O
            &&& result == Some(Winner::Draw) <==> !won && meta.move_count == 8
            &&& result is None <==> !won && meta.move_count != 8
        }),
{
    let mark = mark_of(meta.next_player);
    let (root, result) = play_outcome(x, y, meta, proofs);
    let shown = |cx: u8, cy: u8|
        if cx == x && cy == y {
            mark
        } else if find_proof(proofs, cx, cy) is Some {
            find_proof(proofs, cx, cy).unwrap().cell
        } else {
            Cell::Empty
        };
    a_win_fills_a_whole_line(x, y, mark, shown);
    a_win_fills_a_whole_line(x, y, mark, post_move_cells(proofs, x, y, mark));
    assert(forall|cx: u8, cy: u8| #[trigger]
        shown(cx, cy) == post_move_cells(proofs, x, y, mark)(cx, cy));
    assert(shown =~= post_move_cells(proofs, x, y, mark));
}

/// The move counter is exhausted exactly if the move would be accepted and 255 moves have
/// been counted; no other input is left out.
pub proof fn only_a_full_counter_is_exhausted(prior: Hash32, mv: PlayerMove, witness: Witness)
    ensures
        counter_exhausted(prior, mv, witness) <==> transition(prior, mv, witness) is Ok && (
        witness matches Witness::Play { game_meta, .. } && game_meta.move_count == 255),
{
}

/// When each refusal of a move on a known board is given.
pub proof fn refusals_on_a_board(
    prior: Hash32,
    pubkey: PublicKey,
    signature: Signature,
    x: u8,
    y: u8,
    meta: GameMeta,
    cells: Seq<Cell>,
)
    ensures
        ({
            let refusal = move_refusal(prior, pubkey, signature, x, y, meta, cells);
            let open = !meta.game_over;
            let placed = open && x <= 2 && y <= 2;
            let in_turn = placed && pubkey == (if meta.next_player == Player::X {
                meta.pubkey_x
            } else {
                meta.pubkey_y
            });
            let keyed = in_turn && ed25519_key_decodes(pubkey@);
            let signed = keyed && ed25519_verifies(pubkey@, prior@ + seq![x, y], signature@);
            &&& refusal == Some(StfError::GameOver) <==> meta.game_over
            &&& refusal == Some(StfError::InvalidCoords(x, y)) <==> open && (x > 2 || y > 2)
            &&& refusal == Some(StfError::NotYourTurn) <==> placed && !in_turn
            &&& refusal == Some(StfError::InvalidPublicKey) <==> in_turn && !keyed
            &&& refusal == Some(StfError::InvalidSignature) <==> keyed && !signed
            &&& refusal == Some(StfError::CellOccupied(x, y)) <==> signed && cells[3 * y + x]
                != Cell::Empty
            &&& refusal is None <==> signed && cells[3 * y + x] == Cell::Empty
        }),
{
}

/// What a move does to a board: the cell at `3 * y + x` gets the mark of the player who
/// moves, and every other cell stays as it is. The root afterwards commits to that board and
/// to the metadata after the move.
pub proof fn a_move_changes_one_cell(cells: Seq<Cell>, x: u8, y: u8, meta: GameMeta)
    requires
        cells.len() == 9,
        x <= 2,
        y <= 2,
    ensures
        ({
            let after = board_after(cells, x, y, meta.next_player);
            &&& after.len() == 9
            &&& meta.next_player == Player::X ==> after[3 * y + x] == Cell::X
            &&& meta.next_player == Player::O ==> after[3 * y + x] == Cell::O
            &&& forall|i: int| 0 <= i < 9 && i != 3 * y + x ==> #[trigger] after[i] == cells[i]
            &&& outcome_after(cells, x, y, meta).0 == sha256_digest(
                meta_bytes(next_meta(meta, result_after(cells, x, y, meta))) + board_digest(after)@,
            )
            &&& outcome_after(cells, x, y, meta).1 == result_after(cells, x, y, meta)
            &&& result_after(cells, x, y, meta) == Some(Winner::X) <==> meta.next_player
                == Player::X && wins_through(x, y, Cell::X, cell_reader(after))
            &&& result_after(cells, x, y, meta) == Some(Winner::O) <==> meta.next_player
                == Player::O && wins_through(x, y, Cell::O, cell_reader(after))
            &&& result_after(cells, x, y, meta) == Some(Winner::Draw) <==> meta.move_count == 8
                && !wins_through(x, y, after[3 * y + x], cell_reader(after))
            &&& result_after(cells, x, y, meta) is None <==> meta.move_count != 8 && !wins_through(
                x,
                y,
                after[3 * y + x],
                cell_reader(after),
            )
        }),
{
}

/// The verdict on a move is its refusal, if there is one, and else its outcome.
pub proof fn verdicts_refuse_or_accept(
    prior: Hash32,
    pubkey: PublicKey,
    signature: Signature,
    x: u8,
    y: u8,
    meta: GameMeta,
    cells: Seq<Cell>,
)
    ensures
        match verdict(prior, pubkey, signature, x, y, meta, cells) {
            Ok(outcome) => move_refusal(prior, pubkey, signature, x, y, meta, cells) is None
                && outcome == outcome_after(cells, x, y, meta),
            Err(error) => move_refusal(prior, pubkey, signature, x, y, meta, cells) == Some(error),
        },
{
}

/// What a player is told of each refusal. A coordinate is shown as `(x,y)` in decimal.
pub proof fn refusals_are_told_in_these_words(x: u8, y: u8)
    ensures
        error_text(StfError::WitnessMismatch) == "witness type does not match move type"@,
        error_text(StfError::GameAlreadyExists) == "game already exists (prior root is not zero)"@,
        error_text(StfError::GameOver) == "game is over"@,
        error_text(StfError::StateCommitmentMismatch)
            == "state commitment mismatch: witness is inconsistent with prior root"@,
        error_text(StfError::NotYourTurn) == "not this player's turn"@,
        error_text(StfError::InvalidPublicKey) == "invalid public key bytes"@,
        error_text(StfError::InvalidSignature) == "signature verification failed"@,
        ({
            let at = "("@ + decimal(x as nat) + ","@ + decimal(y as nat) + ")"@;
            &&& error_text(StfError::InvalidCoords(x, y)) == "coordinate out of range: "@ + at
            &&& error_text(StfError::InvalidMerkleProof(x, y)) == "invalid Merkle proof for cell "@
                + at
            &&& error_text(StfError::CellOccupied(x, y)) == "cell "@ + at + " is already occupied"@
            &&& error_text(StfError::MissingCellProof(x, y))
                == "missing required cell proof for "@ + at
        }),
{
}

} // verus!
