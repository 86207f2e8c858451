//! One running game: the board and metadata that a server mirrors, and the moves on it.

use crate::crypto::{
    ed25519_key_decodes, ed25519_public_key, ed25519_signature, ed25519_verifies, sha256_digest,
};
use crate::game::{
    find_proof, find_proof_from, game_result, new_game_meta, next_meta, signed_bytes, state_digest,
    stf, transition, StfError,
};
use crate::game_laws::{
    accepted_moves_are_legal, board_after, honest_moves_are_judged_by_the_board, move_refusal,
    outcome_after, proofs_are_honest, result_after, the_first_proof_counts, verdict,
    witness_collides,
};
use crate::lines::{
    a_move_keeps_the_other_lines, has_line, on_win_line, only_lines_through_the_move, precedes,
    required_cells, witness_size,
};
use crate::merkle::{
    board_cells, board_digest, board_leaves, cell_index, empty_board, leaf_index, sibling_path,
    MerkleTree,
};
use crate::merkle_laws::empty_root_commits_to_empty_board;
use crate::types::{
    key_of, mark_of, meta_bytes, opponent, Board, Cell, CellProof, GameId, GameMeta, Hash32, Player,
    PlayerMove, PublicKey, Signature, Winner, Witness,
};
use vstd::prelude::*;

verus! {

// ---------------------------------------------------------------------------
// Model
// ---------------------------------------------------------------------------

/// A running game: its committed root, its nine cells and its metadata.
pub struct GameView {
    pub state_root: Hash32,
    pub cells: Seq<Cell>,
    pub meta: GameMeta,
}

/// One if a cell holds `mark`, else zero.
pub open spec fn one_if(cell: Cell, mark: Cell) -> int {
    if cell == mark {
        1
    } else {
        0
    }
}

/// How many cells of a board hold `mark`.
pub open spec fn count_marks(cells: Seq<Cell>, mark: Cell) -> int {
    one_if(cells[0], mark) + one_if(cells[1], mark) + one_if(cells[2], mark) + one_if(cells[3], mark)
        + one_if(cells[4], mark) + one_if(cells[5], mark) + one_if(cells[6], mark) + one_if(
        cells[7],
        mark,
    ) + one_if(cells[8], mark)
}

/// What holds of every game from its creation on: the root commits to the metadata and
/// the board; the move count is the number of marks; the players alternate, X first; and
/// the game is over exactly if someone has a line or the board is full.
pub open spec fn is_consistent(game: GameView) -> bool {
    &&& game.cells.len() == 9
    &&& game.state_root == state_digest(game.meta, board_digest(game.cells))
    &&& game.meta.move_count == count_marks(game.cells, Cell::X) + count_marks(game.cells, Cell::O)
    &&& count_marks(game.cells, Cell::X) == count_marks(game.cells, Cell::O) + (
    if game.meta.next_player == Player::X {
        0int
    } else {
        1int
    })
    &&& game.meta.game_over <==> (has_line(game.cells, Cell::X) || has_line(game.cells, Cell::O)
        || game.meta.move_count == 9)
}

/// A game that has just been created.
pub open spec fn new_game(game_id: GameId, pubkey_x: PublicKey, pubkey_y: PublicKey) -> GameView {
    let meta = new_game_meta(game_id, pubkey_x, pubkey_y);
    GameView {
        state_root: state_digest(meta, board_digest(empty_board())),
        cells: empty_board(),
        meta,
    }
}

/// The game after the player whose turn it is has placed a mark at `(x, y)`.
pub open spec fn game_after(game: GameView, x: u8, y: u8) -> GameView {
    let result = result_after(game.cells, x, y, game.meta);
    GameView {
        state_root: outcome_after(game.cells, x, y, game.meta).0,
        cells: board_after(game.cells, x, y, game.meta.next_player),
        meta: next_meta(game.meta, result),
    }
}

/// Whether the proofs are those of the required cells of `(x, y)`, no more and no fewer,
/// in ascending order, each as it stands on the board.
pub open spec fn is_minimal_witness(
    cells: Seq<Cell>,
    proofs: Seq<CellProof>,
    x: u8,
    y: u8,
) -> bool {
    &&& proofs.len() == witness_size(x, y)
    &&& forall|i: int, j: int|
        0 <= i < j < proofs.len() ==> precedes(
            ((#[trigger] proofs[i]).x, proofs[i].y),
            ((#[trigger] proofs[j]).x, proofs[j].y),
        )
    &&& forall|i: int|
        0 <= i < proofs.len() ==> on_win_line(x, y, (#[trigger] proofs[i]).x, proofs[i].y)
    &&& proofs_are_honest(cells, proofs, x, y)
}

// ---------------------------------------------------------------------------
// Per-game state
// ---------------------------------------------------------------------------

/// Why a move on a running game was refused.
#[derive(Debug)]
pub enum PlayError {
    /// The game is already over.
    AlreadyOver,
    /// The transition function refused the move.
    Refused(StfError),
}

/// What an accepted move led to.
#[derive(Debug)]
pub struct PlayOutcome {
    pub state_root: Hash32,
    pub winner: Option<Winner>,
    /// Number of cell proofs in the witness.
    pub witness_cell_count: usize,
}

/// The state of one game, kept so that witnesses can be built for it.
pub struct PerGameState {
    state_root: Hash32,
    board: Board,
    game_meta: GameMeta,
}

impl View for PerGameState {
    type V = GameView;

    closed spec fn view(&self) -> GameView {
        GameView {
            state_root: self.state_root,
            cells: board_cells(self.board),
            meta: self.game_meta,
        }
    }
}

impl PerGameState {
    #[verifier::type_invariant]
    spec fn well_formed(self) -> bool {
        is_consistent(self@)
    }

    /// A new game between two players.
    pub fn create(game_id: GameId, pubkey_x: PublicKey, pubkey_y: PublicKey) -> (created: Result<
        PerGameState,
        StfError,
    >)
        ensures
            created is Ok,
            created.unwrap()@ == new_game(game_id, pubkey_x, pubkey_y),
            is_consistent(created.unwrap()@),
    {
        let zero: Hash32 = [0u8; 32];
        let mv = PlayerMove::CreateGame { game_id, pubkey_x, pubkey_y };
        match stf(zero, mv, Witness::CreateGame) {
            Err(error) => Err(error),
            Ok((root, _)) => {
                let board: Board = [[Cell::Empty; 3]; 3];
                let game_meta = GameMeta {
                    game_id,
                    pubkey_x,
                    pubkey_y,
                    move_count: 0,
                    next_player: Player::X,
                    game_over: false,
                };
                proof {
                    empty_root_commits_to_empty_board();
                    assert(board_cells(board) =~= empty_board());
                }
                Ok(PerGameState { state_root: root, board, game_meta })
            },
        }
    }

    /// The root that commits to the current state.
    pub fn state_root(&self) -> (root: Hash32)
        ensures
            root == self@.state_root,
            is_consistent(self@),
    {
        proof {
            use_type_invariant(self);
        }
        self.state_root
    }

    /// The current board.
    pub fn board(&self) -> (board: Board)
        ensures
            board_cells(board) == self@.cells,
    {
        self.board
    }

    /// The current metadata.
    pub fn game_meta(&self) -> (meta: &GameMeta)
        ensures
            *meta == self@.meta,
    {
        &self.game_meta
    }

    /// Minimal Play witness: only cells on win-check lines through (x, y).
    pub fn build_play_witness(&self, x: u8, y: u8) -> (witness: Witness)
        requires
            x <= 2,
            y <= 2,
        ensures
            witness matches Witness::Play { game_meta, board_root, cell_proofs } && game_meta
                == self@.meta && board_root == board_digest(self@.cells) && is_minimal_witness(
                self@.cells,
                cell_proofs@,
                x,
                y,
            ),
    {
        let tree = MerkleTree::from_board(&self.board);
        let board_root = tree.root();
        let required = required_cells(x, y);
        let ghost cells = self@.cells;
        let mut cell_proofs: Vec<CellProof> = Vec::new();
        let mut i: usize = 0;
        while i < required.len()
            invariant
                x <= 2,
                y <= 2,
                i <= required@.len(),
                cells == board_cells(self.board),
                tree@ == board_leaves(cells),
                forall|cx: u8, cy: u8| #[trigger]
                    required@.contains((cx, cy)) <==> on_win_line(x, y, cx, cy),
                cell_proofs@.len() == i,
                forall|k: int|
                    0 <= k < i ==> proof_stands(
                        cells,
                        #[trigger] cell_proofs@[k],
                        required@[k].0,
                        required@[k].1,
                    ),
            decreases required@.len() - i,
        {
            let (cx, cy) = required[i];
            assert(required@.contains((cx, cy)));
            let index: u8 = cell_index(cx, cy);
            let cell = self.board[cy as usize][cx as usize];
            assert(cell == cells[index as int]);
            let siblings = tree.inclusion_proof(index);
            cell_proofs.push(CellProof { x: cx, y: cy, cell, siblings });
            i += 1;
        }
        proof {
            assert forall|cx: u8, cy: u8| #[trigger] on_win_line(x, y, cx, cy) implies find_proof(
                cell_proofs@,
                cx,
                cy,
            ) is Some && {
                let p = find_proof(cell_proofs@, cx, cy).unwrap();
                let index = leaf_index(cx as int, cy as int);
                p.cell == cells[index] && p.siblings@ == sibling_path(board_leaves(cells), index)
            } by {
                assert(required@.contains((cx, cy)));
                let k = choose|k: int| 0 <= k < required@.len() && required@[k] == (cx, cy);
                assert(proof_stands(cells, cell_proofs@[k], required@[k].0, required@[k].1));
                lemma_proof_is_found(cell_proofs@, cx, cy, k, 0);
                let j = choose|j: int|
                    0 <= j < cell_proofs@.len() && find_proof(cell_proofs@, cx, cy) == Some(
                        #[trigger] cell_proofs@[j],
                    ) && cell_proofs@[j].x == cx && cell_proofs@[j].y == cy;
                assert(proof_stands(cells, cell_proofs@[j], required@[j].0, required@[j].1));
            }
            assert(proofs_are_honest(cells, cell_proofs@, x, y));
            assert forall|a: int, b: int| 0 <= a < b < cell_proofs@.len() implies precedes(
                ((#[trigger] cell_proofs@[a]).x, cell_proofs@[a].y),
                ((#[trigger] cell_proofs@[b]).x, cell_proofs@[b].y),
            ) by {
                assert(precedes(required@[a], required@[b]));
            }
            assert forall|a: int| 0 <= a < cell_proofs@.len() implies on_win_line(
                x,
                y,
                (#[trigger] cell_proofs@[a]).x,
                cell_proofs@[a].y,
            ) by {
                assert(required@.contains((required@[a].0, required@[a].1)));
            }
        }
        Witness::Play { game_meta: self.game_meta.clone(), board_root, cell_proofs }
    }

    /// Submit a signed move: build the witness, run the transition, and on success apply
    /// its output to the mirrored state. A refused move changes nothing.
    pub fn play(&mut self, pubkey: PublicKey, signature: Signature, x: u8, y: u8) -> (played: Result<
        PlayOutcome,
        PlayError,
    >)
        ensures
            is_consistent(final(self)@),
            final(self)@.meta.game_id == old(self)@.meta.game_id,
            final(self)@.meta.pubkey_x == old(self)@.meta.pubkey_x,
            final(self)@.meta.pubkey_y == old(self)@.meta.pubkey_y,
            played is Err ==> final(self)@ == old(self)@,
            played matches Ok(outcome) ==> {
                let before = old(self)@;
                let after = final(self)@;
                &&& !before.meta.game_over
                &&& x <= 2 && y <= 2 && before.cells[3 * y + x] == Cell::Empty
                &&& before.meta.next_player == Player::X ==> pubkey == before.meta.pubkey_x
                &&& before.meta.next_player == Player::O ==> pubkey == before.meta.pubkey_y
                &&& ed25519_key_decodes(pubkey@)
                &&& ed25519_verifies(pubkey@, before.state_root@ + seq![x, y], signature@)
                &&& after.cells == before.cells.update(
                    3 * y + x,
                    if before.meta.next_player == Player::X {
                        Cell::X
                    } else {
                        Cell::O
                    },
                )
                &&& after.meta.move_count == before.meta.move_count + 1
                &&& after.meta.next_player != before.meta.next_player
                &&& after.meta.game_over <==> outcome.winner is Some
                &&& outcome.winner == Some(Winner::X) <==> has_line(after.cells, Cell::X)
                &&& outcome.winner == Some(Winner::O) <==> has_line(after.cells, Cell::O)
                &&& outcome.winner == Some(Winner::Draw) <==> !has_line(after.cells, Cell::X)
                    && !has_line(after.cells, Cell::O) && !after.cells.contains(Cell::Empty)
            },
            ({
                let before = old(self)@;
                match played {
                    Ok(outcome) => {
                        &&& move_refusal(
                            before.state_root,
                            pubkey,
                            signature,
                            x,
                            y,
                            before.meta,
                            before.cells,
                        ) is None
                        &&& final(self)@ == game_after(before, x, y)
                        &&& outcome.state_root == final(self)@.state_root
                        &&& outcome.winner == result_after(before.cells, x, y, before.meta)
                        &&& outcome.witness_cell_count == witness_size(x, y)
                    },
                    Err(PlayError::AlreadyOver) => before.meta.game_over && final(self)@ == before,
                    Err(PlayError::Refused(error)) => {
                        &&& !before.meta.game_over
                        &&& move_refusal(
                            before.state_root,
                            pubkey,
                            signature,
                            x,
                            y,
                            before.meta,
                            before.cells,
                        ) == Some(error)
                        &&& final(self)@ == before
                    },
                }
            }),
    {
        proof {
            use_type_invariant(&*self);
        }
        if self.game_meta.game_over {
            return Err(PlayError::AlreadyOver);
        }
        // No witness can be built for a cell off the board.
        if x > 2 || y > 2 {
            return Err(PlayError::Refused(StfError::InvalidCoords(x, y)));
        }
        let ghost before = self@;
        let witness = self.build_play_witness(x, y);
        let cell_count: usize = match &witness {
            Witness::Play { cell_proofs, .. } => cell_proofs.len(),
            _ => 0,
        };
        let mv = PlayerMove::Play { pubkey, signature, x, y };
        proof {
            honest_moves_are_judged_by_the_board(
                before.state_root,
                pubkey,
                signature,
                x,
                y,
                before.meta,
                before.cells,
                witness->cell_proofs,
            );
            games_end_by_the_ninth_move(before);
        }
        match stf(self.state_root, mv, witness) {
            Err(error) => Err(PlayError::Refused(error)),
            Ok((new_root, winner)) => {
                let mark = self.game_meta.next_player.to_cell();
                let mut board: Board = self.board;
                let mut row: [Cell; 3] = board[y as usize];
                row[x as usize] = mark;
                board[y as usize] = row;
                let game_meta = GameMeta {
                    game_id: self.game_meta.game_id,
                    pubkey_x: self.game_meta.pubkey_x,
                    pubkey_y: self.game_meta.pubkey_y,
                    move_count: self.game_meta.move_count + 1,
                    next_player: self.game_meta.next_player.other(),
                    game_over: winner.is_some(),
                };
                proof {
                    assert(board_cells(board) =~= board_after(
                        before.cells,
                        x,
                        y,
                        before.meta.next_player,
                    ));
                    a_legal_move_keeps_consistency(before, x, y);
                    the_result_names_the_winner(before, x, y);
                }
                *self = PerGameState { state_root: new_root, board, game_meta };
                Ok(PlayOutcome { state_root: new_root, winner, witness_cell_count: cell_count })
            },
        }
    }
}

/// Whether `p` proves the cell at `(cx, cy)` as it stands on the board.
spec fn proof_stands(cells: Seq<Cell>, p: CellProof, cx: u8, cy: u8) -> bool {
    let index = leaf_index(cx as int, cy as int);
    &&& p.x == cx
    &&& p.y == cy
    &&& p.cell == cells[index]
    &&& p.siblings@ == sibling_path(board_leaves(cells), index)
}

proof fn lemma_proof_is_found(proofs: Seq<CellProof>, x: u8, y: u8, k: int, from: nat)
    requires
        from <= k < proofs.len(),
        proofs[k].x == x,
        proofs[k].y == y,
    ensures
        exists|j: int|
            0 <= j < proofs.len() && find_proof_from(proofs, x, y, from) == Some(
                #[trigger] proofs[j],
            ) && proofs[j].x == x && proofs[j].y == y,
    decreases k - from,
{
    if !(proofs[from as int].x == x && proofs[from as int].y == y) {
        lemma_proof_is_found(proofs, x, y, k, from + 1);
    }
}

/// A game takes at most nine moves, and is over after the ninth.
pub proof fn games_end_by_the_ninth_move(game: GameView)
    requires
        is_consistent(game),
    ensures
        game.meta.move_count <= 9,
        !game.meta.game_over ==> game.meta.move_count < 9,
{
}

/// A mark placed on an empty cell is counted once, and changes no other count.
proof fn lemma_move_is_counted(cells: Seq<Cell>, index: int, mark: Cell, other: Cell)
    requires
        cells.len() == 9,
        0 <= index < 9,
        cells[index] == Cell::Empty,
        mark != Cell::Empty,
        other != Cell::Empty,
        other != mark,
    ensures
        count_marks(cells.update(index, mark), mark) == count_marks(cells, mark) + 1,
        count_marks(cells.update(index, mark), other) == count_marks(cells, other),
{
}

/// The lines through the move tell the result on the whole board: after a legal move the
/// result is a win of the player who moved if that player has a line, a draw if there is
/// none and all nine cells are filled, and else there is no result yet. The other player
/// has no line.
pub proof fn the_result_is_that_of_the_board(game: GameView, x: u8, y: u8)
    requires
        is_consistent(game),
        !game.meta.game_over,
        x <= 2,
        y <= 2,
        game.cells[leaf_index(x as int, y as int)] == Cell::Empty,
    ensures
        ({
            let player = game.meta.next_player;
            let after = board_after(game.cells, x, y, player);
            &&& result_after(game.cells, x, y, game.meta) == game_result(
                player,
                has_line(after, mark_of(player)),
                count_marks(after, Cell::X) + count_marks(after, Cell::O),
            )
            &&& !has_line(after, mark_of(opponent(player)))
        }),
{
    let index = leaf_index(x as int, y as int);
    let mark = mark_of(game.meta.next_player);
    let other = mark_of(opponent(game.meta.next_player));
    assert(!has_line(game.cells, mark) && !has_line(game.cells, other));
    only_lines_through_the_move(game.cells, x, y, mark);
    a_move_keeps_the_other_lines(game.cells, index, mark, other);
    lemma_move_is_counted(game.cells, index, mark, other);
}

/// What holds of every game holds of a new one.
pub proof fn a_new_game_is_consistent(game_id: GameId, pubkey_x: PublicKey, pubkey_y: PublicKey)
    ensures
        is_consistent(new_game(game_id, pubkey_x, pubkey_y)),
{
}

/// The player whose turn it is can play any empty cell of an active game: with that
/// player's key and a valid signature on the current root and the coordinates, the move
/// is not refused.
pub proof fn a_signed_move_is_accepted(
    game: GameView,
    pubkey: PublicKey,
    signature: Signature,
    x: u8,
    y: u8,
)
    requires
        is_consistent(game),
        !game.meta.game_over,
        x <= 2,
        y <= 2,
        game.cells[leaf_index(x as int, y as int)] == Cell::Empty,
        pubkey == key_of(game.meta, game.meta.next_player),
        ed25519_key_decodes(pubkey@),
        ed25519_verifies(pubkey@, signed_bytes(game.state_root, x, y), signature@),
    ensures
        move_refusal(game.state_root, pubkey, signature, x, y, game.meta, game.cells) is None,
        verdict(game.state_root, pubkey, signature, x, y, game.meta, game.cells) == Ok::<
            _,
            StfError,
        >((game_after(game, x, y).state_root, result_after(game.cells, x, y, game.meta))),
{
}

/// A move signed with the secret key of the player whose turn it is can be played on any
/// empty cell of an active game: with the public key of that secret key, it is not refused.
/// That the public key decodes and accepts the signature is what signing the move shows.
pub proof fn a_move_signed_by_its_player_is_accepted(game: GameView, secret: Seq<u8>, x: u8, y: u8)
    requires
        is_consistent(game),
        !game.meta.game_over,
        x <= 2,
        y <= 2,
        game.cells[leaf_index(x as int, y as int)] == Cell::Empty,
        key_of(game.meta, game.meta.next_player) == ed25519_public_key(secret),
        ed25519_key_decodes(ed25519_public_key(secret)@),
        ed25519_verifies(
            ed25519_public_key(secret)@,
            signed_bytes(game.state_root, x, y),
            ed25519_signature(secret, signed_bytes(game.state_root, x, y))@,
        ),
    ensures
        ({
            let pubkey = ed25519_public_key(secret);
            let signature = ed25519_signature(secret, signed_bytes(game.state_root, x, y));
            &&& move_refusal(game.state_root, pubkey, signature, x, y, game.meta, game.cells)
                is None
            &&& verdict(game.state_root, pubkey, signature, x, y, game.meta, game.cells) == Ok::<
                _,
                StfError,
            >((game_after(game, x, y).state_root, result_after(game.cells, x, y, game.meta)))
        }),
{
    a_signed_move_is_accepted(
        game,
        ed25519_public_key(secret),
        ed25519_signature(secret, signed_bytes(game.state_root, x, y)),
        x,
        y,
    );
}

/// What holds of every game is kept by every legal move.
pub proof fn a_legal_move_keeps_consistency(game: GameView, x: u8, y: u8)
    requires
        is_consistent(game),
        !game.meta.game_over,
        x <= 2,
        y <= 2,
        game.cells[leaf_index(x as int, y as int)] == Cell::Empty,
    ensures
        is_consistent(game_after(game, x, y)),
{
    let index = leaf_index(x as int, y as int);
    let mark = mark_of(game.meta.next_player);
    let other = mark_of(opponent(game.meta.next_player));
    lemma_move_is_counted(game.cells, index, mark, other);
    the_result_is_that_of_the_board(game, x, y);
    games_end_by_the_ninth_move(game);
}

/// Of two lists of nine numbers that differ in one place, the sums differ by as much as the
/// numbers there.
proof fn lemma_one_term_changes(a: Seq<int>, b: Seq<int>, index: int)
    requires
        a.len() == 9,
        b.len() == 9,
        0 <= index < 9,
        forall|j: int| 0 <= j < 9 && j != index ==> #[trigger] a[j] == b[j],
    ensures
        a[0] + a[1] + a[2] + a[3] + a[4] + a[5] + a[6] + a[7] + a[8] - a[index] == b[0] + b[1] + b[2]
            + b[3] + b[4] + b[5] + b[6] + b[7] + b[8] - b[index],
{
    assert(index == 0 || index == 1 || index == 2 || index == 3 || index == 4 || index == 5 || index
        == 6 || index == 7 || index == 8);
}

/// Counting marks: an empty board has none, and rewriting one cell takes away the mark that
/// it held and adds the one that it gets.
pub proof fn marks_are_counted(cells: Seq<Cell>, index: int, cell: Cell, mark: Cell)
    requires
        cells.len() == 9,
        0 <= index < 9,
    ensures
        count_marks(empty_board(), Cell::X) == 0,
        count_marks(empty_board(), Cell::O) == 0,
        count_marks(cells.update(index, cell), mark) == count_marks(cells, mark) - (
        if cells[index] == mark {
            1int
        } else {
            0int
        }) + (if cell == mark {
            1int
        } else {
            0int
        }),
{
    let after = cells.update(index, cell);
    let a = Seq::new(9, |j: int| one_if(cells[j], mark));
    let b = Seq::new(9, |j: int| one_if(after[j], mark));
    assert forall|j: int| 0 <= j < 9 && j != index implies #[trigger] a[j] == b[j] by {
        assert(after[j] == cells[j]);
    }
    lemma_one_term_changes(a, b, index);
    assert(count_marks(cells, mark) == a[0] + a[1] + a[2] + a[3] + a[4] + a[5] + a[6] + a[7] + a[8]);
    assert(count_marks(after, mark) == b[0] + b[1] + b[2] + b[3] + b[4] + b[5] + b[6] + b[7] + b[8]);
    assert(a[index] == one_if(cells[index], mark));
    assert(b[index] == one_if(cell, mark));
}

/// A cell adds one to the number of marks exactly if it is not empty.
proof fn lemma_filled_cell(cell: Cell)
    ensures
        0 <= one_if(cell, Cell::X) + one_if(cell, Cell::O) <= 1,
        one_if(cell, Cell::X) + one_if(cell, Cell::O) == 1 <==> cell != Cell::Empty,
{
}

proof fn lemma_full_board(cells: Seq<Cell>)
    requires
        cells.len() == 9,
    ensures
        count_marks(cells, Cell::X) + count_marks(cells, Cell::O) == 9 <==> !cells.contains(
            Cell::Empty,
        ),
{
    let t = Seq::new(9, |i: int| one_if(cells[i], Cell::X) + one_if(cells[i], Cell::O));
    assert(count_marks(cells, Cell::X) + count_marks(cells, Cell::O) == t[0] + t[1] + t[2] + t[3]
        + t[4] + t[5] + t[6] + t[7] + t[8]);
    assert forall|i: int| 0 <= i < 9 implies 0 <= #[trigger] t[i] <= 1 && (t[i] == 1 <==> cells[i]
        != Cell::Empty) by {
        lemma_filled_cell(cells[i]);
    }
    lemma_nine_ones(t);
    if !cells.contains(Cell::Empty) {
        assert forall|i: int| 0 <= i < 9 implies #[trigger] t[i] == 1 by {
            assert(cells.contains(cells[i]));
        }
    } else {
        let i = choose|i: int| 0 <= i < 9 && #[trigger] cells[i] == Cell::Empty;
        assert(t[i] != 1);
    }
}

/// Nine numbers that are zero or one sum up to nine exactly if all are one.
proof fn lemma_nine_ones(t: Seq<int>)
    requires
        t.len() == 9,
        forall|i: int| 0 <= i < 9 ==> 0 <= #[trigger] t[i] <= 1,
    ensures
        t[0] + t[1] + t[2] + t[3] + t[4] + t[5] + t[6] + t[7] + t[8] == 9 <==> forall|i: int|
            0 <= i < 9 ==> #[trigger] t[i] == 1,
{
    if t[0] + t[1] + t[2] + t[3] + t[4] + t[5] + t[6] + t[7] + t[8] == 9 {
        assert forall|i: int| 0 <= i < 9 implies #[trigger] t[i] == 1 by {
            assert(i == 0 || i == 1 || i == 2 || i == 3 || i == 4 || i == 5 || i == 6 || i == 7 || i
                == 8);
        }
    }
}

/// What holds of every game, and what is to be read off it: the root is the digest of the
/// metadata and the board root, the move count is the number of marks, X is to move exactly
/// if there are as many X as O, O exactly if there is one X more, and the game is over
/// exactly if someone has a line or no cell is empty.
pub proof fn a_game_mirrors_its_board(game: GameView)
    ensures
        is_consistent(game) <==> {
            &&& game.cells.len() == 9
            &&& game.state_root == sha256_digest(
                meta_bytes(game.meta) + board_digest(game.cells)@,
            )
            &&& game.meta.move_count == count_marks(game.cells, Cell::X) + count_marks(
                game.cells,
                Cell::O,
            )
            &&& game.meta.next_player == Player::X ==> count_marks(game.cells, Cell::X)
                == count_marks(game.cells, Cell::O)
            &&& game.meta.next_player == Player::O ==> count_marks(game.cells, Cell::X)
                == count_marks(game.cells, Cell::O) + 1
            &&& game.meta.game_over <==> (has_line(game.cells, Cell::X) || has_line(
                game.cells,
                Cell::O,
            ) || !game.cells.contains(Cell::Empty))
        },
{
    if game.cells.len() == 9 {
        lemma_full_board(game.cells);
    }
}

/// X moves after an even number of moves and O after an odd number.
pub proof fn players_take_turns(game: GameView)
    requires
        is_consistent(game),
    ensures
        game.meta.next_player == Player::X <==> game.meta.move_count % 2 == 0,
        game.meta.next_player == Player::O <==> game.meta.move_count % 2 == 1,
{
}

/// A new game has nine empty cells, the identifier and the keys that it was created with, no
/// moves, and X to move.
pub proof fn a_new_game_is_empty(game_id: GameId, pubkey_x: PublicKey, pubkey_y: PublicKey)
    ensures
        ({
            let game = new_game(game_id, pubkey_x, pubkey_y);
            &&& game.cells.len() == 9
            &&& forall|i: int| 0 <= i < 9 ==> #[trigger] game.cells[i] == Cell::Empty
            &&& game.meta.game_id == game_id
            &&& game.meta.pubkey_x == pubkey_x
            &&& game.meta.pubkey_y == pubkey_y
            &&& game.meta.move_count == 0
            &&& game.meta.next_player == Player::X
            &&& !game.meta.game_over
            &&& game.state_root == sha256_digest(
                meta_bytes(game.meta) + board_digest(game.cells)@,
            )
        }),
{
}

/// The result of a legal move is what the board shows afterwards. If the player who moved
/// has a full line, that player has won, also with the move that fills the board. It is a
/// draw exactly if neither mark has a line and no cell is empty. Otherwise there is no result
/// yet.
pub proof fn the_result_names_the_winner(game: GameView, x: u8, y: u8)
    requires
        is_consistent(game),
        !game.meta.game_over,
        x <= 2,
        y <= 2,
        game.cells[3 * y + x] == Cell::Empty,
    ensures
        ({
            let mark = if game.meta.next_player == Player::X {
                Cell::X
            } else {
                Cell::O
            };
            let after = game.cells.update(3 * y + x, mark);
            let result = result_after(game.cells, x, y, game.meta);
            let full = !after.contains(Cell::Empty);
            &&& result == Some(Winner::X) <==> has_line(after, Cell::X)
            &&& result == Some(Winner::O) <==> has_line(after, Cell::O)
            &&& result == Some(Winner::Draw) <==> !has_line(after, Cell::X) && !has_line(
                after,
                Cell::O,
            ) && full
            &&& result is None <==> !has_line(after, Cell::X) && !has_line(after, Cell::O) && !full
            &&& has_line(after, Cell::X) ==> game.meta.next_player == Player::X
            &&& has_line(after, Cell::O) ==> game.meta.next_player == Player::O
        }),
{
    let after = board_after(game.cells, x, y, game.meta.next_player);
    let full = !after.contains(Cell::Empty);
    the_result_is_that_of_the_board(game, x, y);
    assert(full == (count_marks(after, Cell::X) + count_marks(after, Cell::O) == 9)) by {
        lemma_full_board(after);
    }
    match game.meta.next_player {
        Player::X => assert(!has_line(after, Cell::O)),
        Player::O => assert(!has_line(after, Cell::X)),
    }
}

/// What a legal move leads to: the cell at `3 * y + x` gets the mark of the player who moved
/// and no other cell changes; identifier and keys stay; one more move is counted; the other
/// player is to move; the game is over exactly if there is a result; and the root is the
/// digest of the new metadata and the new board root.
pub proof fn a_move_leads_to_the_next_state(game: GameView, x: u8, y: u8)
    requires
        is_consistent(game),
        !game.meta.game_over,
        x <= 2,
        y <= 2,
        game.cells[3 * y + x] == Cell::Empty,
    ensures
        ({
            let after = game_after(game, x, y);
            let mark = if game.meta.next_player == Player::X {
                Cell::X
            } else {
                Cell::O
            };
            &&& after.cells == game.cells.update(3 * y + x, mark)
            &&& after.meta.game_id == game.meta.game_id
            &&& after.meta.pubkey_x == game.meta.pubkey_x
            &&& after.meta.pubkey_y == game.meta.pubkey_y
            &&& after.meta.move_count == game.meta.move_count + 1
            &&& after.meta.next_player != game.meta.next_player
            &&& after.meta.game_over <==> has_line(after.cells, Cell::X) || has_line(
                after.cells,
                Cell::O,
            ) || !after.cells.contains(Cell::Empty)
            &&& after.state_root == sha256_digest(
                meta_bytes(after.meta) + board_digest(after.cells)@,
            )
        }),
{
    the_result_names_the_winner(game, x, y);
}

/// The same of the transition itself, whatever the witness: a move that it accepts from the
/// root of a game was made by the player to move on an empty cell, leads to the root of the
/// next state, and has the result that the board then shows; unless the witness exhibits a
/// SHA-256 collision.
pub proof fn accepted_moves_have_the_result_of_the_board(
    game: GameView,
    pubkey: PublicKey,
    signature: Signature,
    x: u8,
    y: u8,
    witness: Witness,
)
    requires
        is_consistent(game),
        transition(game.state_root, PlayerMove::Play { pubkey, signature, x, y }, witness) is Ok,
    ensures
        witness matches Witness::Play { game_meta, board_root, cell_proofs } && (witness_collides(
            game.meta,
            game.cells,
            game_meta,
            board_root,
            cell_proofs@,
            x,
            y,
        ) || ({
            let mark = if game.meta.next_player == Player::X {
                Cell::X
            } else {
                Cell::O
            };
            let key = if game.meta.next_player == Player::X {
                game.meta.pubkey_x
            } else {
                game.meta.pubkey_y
            };
            let after = game.cells.update(3 * y + x, mark);
            let full = !after.contains(Cell::Empty);
            let (root, result) = transition(
                game.state_root,
                PlayerMove::Play { pubkey, signature, x, y },
                witness,
            ).unwrap();
            &&& !game.meta.game_over
            &&& x <= 2 && y <= 2 && game.cells[3 * y + x] == Cell::Empty
            &&& pubkey == key
            &&& root == game_after(game, x, y).state_root
            &&& result == Some(Winner::X) <==> has_line(after, Cell::X)
            &&& result == Some(Winner::O) <==> has_line(after, Cell::O)
            &&& result == Some(Winner::Draw) <==> !has_line(after, Cell::X) && !has_line(
                after,
                Cell::O,
            ) && full
            &&& result is None <==> !has_line(after, Cell::X) && !has_line(after, Cell::O) && !full
        })),
{
    accepted_moves_are_legal(
        game.state_root,
        pubkey,
        signature,
        x,
        y,
        game.meta,
        game.cells,
        witness,
    );
    if move_refusal(game.state_root, pubkey, signature, x, y, game.meta, game.cells) is None {
        the_result_names_the_winner(game, x, y);
    }
}

/// What a minimal witness holds: one proof for each required cell and no other, in the order
/// of column and row, each with what the board holds at `3 * y + x` and with the siblings of
/// that leaf.
pub proof fn a_minimal_witness_holds_the_required_cells(
    cells: Seq<Cell>,
    proofs: Seq<CellProof>,
    x: u8,
    y: u8,
)
    requires
        x <= 2,
        y <= 2,
        is_minimal_witness(cells, proofs, x, y),
    ensures
        proofs.len() == witness_size(x, y),
        forall|i: int|
            0 <= i < proofs.len() ==> {
                let p = #[trigger] proofs[i];
                &&& on_win_line(x, y, p.x, p.y)
                &&& p.cell == cells[3 * p.y + p.x]
                &&& p.siblings@ == sibling_path(board_leaves(cells), 3 * p.y + p.x)
            },
        forall|i: int, j: int|
            0 <= i < j < proofs.len() ==> (#[trigger] proofs[i]).x * 3 + proofs[i].y < (
            #[trigger] proofs[j]).x * 3 + proofs[j].y,
        forall|cx: u8, cy: u8| #[trigger]
            on_win_line(x, y, cx, cy) ==> exists|i: int|
                0 <= i < proofs.len() && (#[trigger] proofs[i]).x == cx && proofs[i].y == cy,
{
    assert forall|i: int| 0 <= i < proofs.len() implies {
        let p = #[trigger] proofs[i];
        &&& on_win_line(x, y, p.x, p.y)
        &&& p.cell == cells[3 * p.y + p.x]
        &&& p.siblings@ == sibling_path(board_leaves(cells), 3 * p.y + p.x)
    } by {
        let p = proofs[i];
        assert(on_win_line(x, y, p.x, p.y));
        the_first_proof_counts(proofs, p.x, p.y);
        let k = choose|k: int|
            0 <= k < proofs.len() && #[trigger] proofs[k] == find_proof(proofs, p.x, p.y).unwrap()
                && proofs[k].x == p.x && proofs[k].y == p.y;
        assert(k == i) by {
            if k < i {
                assert(precedes((proofs[k].x, proofs[k].y), (proofs[i].x, proofs[i].y)));
            } else if i < k {
                assert(precedes((proofs[i].x, proofs[i].y), (proofs[k].x, proofs[k].y)));
            }
        }
    }
    assert forall|i: int, j: int| 0 <= i < j < proofs.len() implies (#[trigger] proofs[i]).x * 3
        + proofs[i].y < (#[trigger] proofs[j]).x * 3 + proofs[j].y by {
        assert(precedes((proofs[i].x, proofs[i].y), (proofs[j].x, proofs[j].y)));
        assert(on_win_line(x, y, proofs[i].x, proofs[i].y));
        assert(on_win_line(x, y, proofs[j].x, proofs[j].y));
    }
    assert forall|cx: u8, cy: u8| #[trigger] on_win_line(x, y, cx, cy) implies exists|i: int|
        0 <= i < proofs.len() && (#[trigger] proofs[i]).x == cx && proofs[i].y == cy by {
        the_first_proof_counts(proofs, cx, cy);
        assert(find_proof(proofs, cx, cy) is Some);
    }
}

} // verus!
