//! What the server answers: requests are decoded, games are moved on, and responses are
//! put into text. Looking games up, locking them and speaking HTTP is left to the caller.

use crate::crypto::{
    derive_public_key, ed25519_key_decodes, ed25519_public_key, ed25519_signature,
    ed25519_verifies, sign_message,
};
use crate::game::{error_text, play_message, signed_bytes};
use crate::game_laws::{move_refusal, result_after};
use crate::lines::{has_line, witness_size};
use crate::merkle::leaf_index;
use crate::session::{
    a_game_mirrors_its_board, a_move_signed_by_its_player_is_accepted, count_marks, game_after,
    is_consistent, new_game, players_take_turns, GameView, PerGameState, PlayError,
};
use crate::text::{
    decimal, fixed_decoding, hex_decode, hex_decoding, hex_encode, hex_error_message,
    hex_error_text, hex_text, HexError,
};
use crate::types::{key_of, Cell, GameId, Player, PublicKey, Signature, Winner};
use vstd::prelude::*;
use vstd::utf8::encode_utf8;

verus! {

// ---------------------------------------------------------------------------
// Errors
// ---------------------------------------------------------------------------

/// The kind of failure a request met with.
#[derive(Debug, Clone, Copy, PartialEq, Eq, Structural)]
pub enum Status {
    BadRequest,
    NotFound,
}

/// Why a request failed, with the text of the response.
#[derive(Debug)]
pub struct ApiError {
    pub status: Status,
    pub message: String,
}

pub fn bad_request(message: String) -> (error: ApiError)
    ensures
        error.status == Status::BadRequest,
        error.message@ == message@,
{
    ApiError { status: Status::BadRequest, message }
}

pub fn not_found(message: String) -> (error: ApiError)
    ensures
        error.status == Status::NotFound,
        error.message@ == message@,
{
    ApiError { status: Status::NotFound, message }
}

/// The answer to a request for a game that is not known.
pub fn game_not_found() -> (error: ApiError)
    ensures
        error.status == Status::NotFound,
        error.message@ == "game not found"@,
{
    not_found("game not found".to_owned())
}

// ---------------------------------------------------------------------------
// Decoding
// ---------------------------------------------------------------------------

/// What the text of a key, an identifier or a secret decodes to.
pub open spec fn decoding32(text: Seq<char>) -> Result<Seq<u8>, Seq<char>> {
    fixed_decoding(text, 32, "expected 32-byte hex"@)
}

/// What the text of a signature decodes to.
pub open spec fn decoding64(text: Seq<char>) -> Result<Seq<u8>, Seq<char>> {
    fixed_decoding(text, 64, "expected 64-byte hex"@)
}

/// Decode 32 bytes of hexadecimal text.
pub fn decode32(s: &str) -> (decoded: Result<[u8; 32], ApiError>)
    ensures
        match decoded {
            Ok(bytes) => decoding32(s@) == Ok::<Seq<u8>, Seq<char>>(bytes@),
            Err(error) => error.status == Status::BadRequest && decoding32(s@) == Err::<
                Seq<u8>,
                Seq<char>,
            >(error.message@),
        },
{
    match hex_decode(s.as_bytes()) {
        Err(error) => Err(bad_request(hex_error_text(&error))),
        Ok(bytes) => {
            if bytes.len() != 32 {
                return Err(bad_request("expected 32-byte hex".to_owned()));
            }
            let mut out: [u8; 32] = [0u8; 32];
            let mut i: usize = 0;
            while i < 32
                invariant
                    i <= 32,
                    bytes@.len() == 32,
                    forall|j: int| 0 <= j < i ==> out@[j] == bytes@[j],
                decreases 32 - i,
            {
                out[i] = bytes[i];
                i += 1;
            }
            assert(out@ =~= bytes@);
            Ok(out)
        },
    }
}

/// Decode 64 bytes of hexadecimal text.
pub fn decode64(s: &str) -> (decoded: Result<[u8; 64], ApiError>)
    ensures
        match decoded {
            Ok(bytes) => decoding64(s@) == Ok::<Seq<u8>, Seq<char>>(bytes@),
            Err(error) => error.status == Status::BadRequest && decoding64(s@) == Err::<
                Seq<u8>,
                Seq<char>,
            >(error.message@),
        },
{
    match hex_decode(s.as_bytes()) {
        Err(error) => Err(bad_request(hex_error_text(&error))),
        Ok(bytes) => {
            if bytes.len() != 64 {
                return Err(bad_request("expected 64-byte hex".to_owned()));
            }
            let mut out: [u8; 64] = [0u8; 64];
            let mut i: usize = 0;
            while i < 64
                invariant
                    i <= 64,
                    bytes@.len() == 64,
                    forall|j: int| 0 <= j < i ==> out@[j] == bytes@[j],
                decreases 64 - i,
            {
                out[i] = bytes[i];
                i += 1;
            }
            assert(out@ =~= bytes@);
            Ok(out)
        },
    }
}

// ---------------------------------------------------------------------------
// Request / response shapes
// ---------------------------------------------------------------------------

#[derive(Debug)]
pub struct CreateGameReq {
    pub pubkey_x: String,
    pub pubkey_y: String,
}

#[derive(Debug)]
pub struct CreateGameResp {
    pub game_id: String,
    pub state_root: String,
}

#[derive(Debug)]
pub struct PlayReq {
    pub game_id: String,
    pub pubkey: String,
    pub signature: String,
    pub x: u8,
    pub y: u8,
}

/// A decoded [`PlayReq`].
#[derive(Debug)]
pub struct PlayCommand {
    pub game_id: GameId,
    pub pubkey: PublicKey,
    pub signature: Signature,
    pub x: u8,
    pub y: u8,
}

#[derive(Debug)]
pub struct PlayResp {
    pub state_root: String,
    pub winner: Option<String>,
    /// Number of cell proofs sent: shows that the witness is minimal.
    pub witness_cell_count: usize,
}

#[derive(Debug)]
pub struct GameStateResp {
    pub game_id: String,
    pub board: Vec<Vec<String>>,
    pub state_root: String,
    pub move_count: u8,
    pub next_player: String,
    pub game_over: bool,
}

#[derive(Debug)]
pub struct GamesResp {
    pub game_ids: Vec<String>,
    pub total: usize,
}

#[derive(Debug)]
pub struct KeypairResp {
    pub secret_key: String,
    pub public_key: String,
}

#[derive(Debug)]
pub struct SignMoveReq {
    pub game_id: String,
    pub secret_key: String,
    pub x: u8,
    pub y: u8,
}

/// A decoded [`SignMoveReq`].
#[derive(Debug)]
pub struct SignCommand {
    pub game_id: GameId,
    pub secret_key: [u8; 32],
    pub x: u8,
    pub y: u8,
}

#[derive(Debug)]
pub struct SignMoveResp {
    pub signature: String,
    /// The raw bytes that were signed (hex), for debugging.
    pub signed_message: String,
}

// ---------------------------------------------------------------------------
// Labels
// ---------------------------------------------------------------------------

/// How a result is shown.
pub open spec fn winner_text(winner: Winner) -> Seq<char> {
    match winner {
        Winner::X => "X"@,
        Winner::O => "O"@,
        Winner::Draw => "Draw"@,
    }
}

/// How a cell is shown.
pub open spec fn cell_text(cell: Cell) -> Seq<char> {
    match cell {
        Cell::Empty => "."@,
        Cell::X => "X"@,
        Cell::O => "O"@,
    }
}

/// How a player is shown.
pub open spec fn player_text(player: Player) -> Seq<char> {
    match player {
        Player::X => "X"@,
        Player::O => "O"@,
    }
}

/// The label of a result.
pub fn winner_label(winner: Winner) -> (label: String)
    ensures
        label@ == winner_text(winner),
{
    match winner {
        Winner::X => "X".to_owned(),
        Winner::O => "O".to_owned(),
        Winner::Draw => "Draw".to_owned(),
    }
}

/// The label of a cell.
pub fn cell_label(cell: Cell) -> (label: String)
    ensures
        label@ == cell_text(cell),
{
    match cell {
        Cell::Empty => ".".to_owned(),
        Cell::X => "X".to_owned(),
        Cell::O => "O".to_owned(),
    }
}

/// The label of a player.
pub fn player_label(player: Player) -> (label: String)
    ensures
        label@ == player_text(player),
{
    match player {
        Player::X => "X".to_owned(),
        Player::O => "O".to_owned(),
    }
}

// ---------------------------------------------------------------------------
// Handlers
// ---------------------------------------------------------------------------

/// Create a game from a request and a fresh identifier.
pub fn create_game(req: &CreateGameReq, game_id: GameId) -> (created: Result<
    (PerGameState, CreateGameResp),
    ApiError,
>)
    ensures
        match created {
            Ok((game, resp)) => {
                &&& decoding32(req.pubkey_x@) == Ok::<Seq<u8>, Seq<char>>(game@.meta.pubkey_x@)
                &&& decoding32(req.pubkey_y@) == Ok::<Seq<u8>, Seq<char>>(game@.meta.pubkey_y@)
                &&& game@ == new_game(game_id, game@.meta.pubkey_x, game@.meta.pubkey_y)
                &&& is_consistent(game@)
                &&& resp.game_id@ == hex_text(game_id@)
                &&& resp.state_root@ == hex_text(game@.state_root@)
            },
            Err(error) => {
                &&& error.status == Status::BadRequest
                &&& match decoding32(req.pubkey_x@) {
                    Err(message) => error.message@ == message,
                    Ok(_) => decoding32(req.pubkey_y@) == Err::<Seq<u8>, Seq<char>>(error.message@),
                }
            },
        },
{
    let pubkey_x: PublicKey = match decode32(req.pubkey_x.as_str()) {
        Ok(bytes) => bytes,
        Err(error) => {
            return Err(error);
        },
    };
    let pubkey_y: PublicKey = match decode32(req.pubkey_y.as_str()) {
        Ok(bytes) => bytes,
        Err(error) => {
            return Err(error);
        },
    };
    match PerGameState::create(game_id, pubkey_x, pubkey_y) {
        Err(error) => Err(bad_request(error.message())),
        Ok(game) => {
            let root = game.state_root();
            let resp = CreateGameResp {
                game_id: hex_encode(game_id.as_slice()),
                state_root: hex_encode(root.as_slice()),
            };
            Ok((game, resp))
        },
    }
}

/// Decode a request to play.
pub fn parse_play(req: &PlayReq) -> (parsed: Result<PlayCommand, ApiError>)
    ensures
        match parsed {
            Ok(command) => {
                &&& decoding32(req.game_id@) == Ok::<Seq<u8>, Seq<char>>(command.game_id@)
                &&& decoding32(req.pubkey@) == Ok::<Seq<u8>, Seq<char>>(command.pubkey@)
                &&& decoding64(req.signature@) == Ok::<Seq<u8>, Seq<char>>(command.signature@)
                &&& command.x == req.x
                &&& command.y == req.y
            },
            Err(error) => {
                &&& error.status == Status::BadRequest
                &&& match (decoding32(req.game_id@), decoding32(req.pubkey@)) {
                    (Err(message), _) => error.message@ == message,
                    (Ok(_), Err(message)) => error.message@ == message,
                    (Ok(_), Ok(_)) => decoding64(req.signature@) == Err::<Seq<u8>, Seq<char>>(
                        error.message@,
                    ),
                }
            },
        },
{
    let game_id: GameId = match decode32(req.game_id.as_str()) {
        Ok(bytes) => bytes,
        Err(error) => {
            return Err(error);
        },
    };
    let pubkey: PublicKey = match decode32(req.pubkey.as_str()) {
        Ok(bytes) => bytes,
        Err(error) => {
            return Err(error);
        },
    };
    let signature: Signature = match decode64(req.signature.as_str()) {
        Ok(bytes) => bytes,
        Err(error) => {
            return Err(error);
        },
    };
    Ok(PlayCommand { game_id, pubkey, signature, x: req.x, y: req.y })
}

/// Why a move is refused, if it is, on a running game.
pub open spec fn refusal_text(
    game: GameView,
    pubkey: PublicKey,
    signature: Signature,
    x: u8,
    y: u8,
) -> Option<Seq<char>> {
    if game.meta.game_over {
        Some("game is already over"@)
    } else {
        match move_refusal(game.state_root, pubkey, signature, x, y, game.meta, game.cells) {
            Some(error) => Some(error_text(error)),
            None => None,
        }
    }
}

/// Play a decoded move on its game.
pub fn play(game: &mut PerGameState, command: &PlayCommand) -> (played: Result<PlayResp, ApiError>)
    ensures
        is_consistent(final(game)@),
        ({
            let before = old(game)@;
            let refusal = refusal_text(
                before,
                command.pubkey,
                command.signature,
                command.x,
                command.y,
            );
            match played {
                Ok(resp) => {
                    &&& refusal is None
                    &&& final(game)@ == game_after(before, command.x, command.y)
                    &&& resp.state_root@ == hex_text(final(game)@.state_root@)
                    &&& match result_after(before.cells, command.x, command.y, before.meta) {
                        Some(winner) => resp.winner is Some && resp.winner.unwrap()@ == winner_text(
                            winner,
                        ),
                        None => resp.winner is None,
                    }
                    &&& (resp.winner matches Some(w) && w@ == "X"@) <==> has_line(
                        final(game)@.cells,
                        Cell::X,
                    )
                    &&& (resp.winner matches Some(w) && w@ == "O"@) <==> has_line(
                        final(game)@.cells,
                        Cell::O,
                    )
                    &&& (resp.winner matches Some(w) && w@ == "Draw"@) <==> !has_line(
                        final(game)@.cells,
                        Cell::X,
                    ) && !has_line(final(game)@.cells, Cell::O) && !final(game)@.cells.contains(
                        Cell::Empty,
                    )
                    &&& resp.witness_cell_count == witness_size(command.x, command.y)
                },
                Err(error) => {
                    &&& error.status == Status::BadRequest
                    &&& refusal == Some(error.message@)
                    &&& final(game)@ == before
                },
            }
        }),
{
    proof {
        labels_tell_apart(Winner::X, Winner::O, Player::X, Player::O, Cell::X, Cell::O);
    }
    match game.play(command.pubkey, command.signature, command.x, command.y) {
        Ok(outcome) => {
            let winner = match outcome.winner {
                Some(w) => Some(winner_label(w)),
                None => None,
            };
            Ok(
                PlayResp {
                    state_root: hex_encode(outcome.state_root.as_slice()),
                    winner,
                    witness_cell_count: outcome.witness_cell_count,
                },
            )
        },
        Err(PlayError::AlreadyOver) => Err(bad_request("game is already over".to_owned())),
        Err(PlayError::Refused(error)) => Err(bad_request(error.message())),
    }
}

/// The board and metadata of a game, as text.
pub fn game_state(game: &PerGameState, game_id: &GameId) -> (resp: GameStateResp)
    ensures
        resp.game_id@ == hex_text(game_id@),
        resp.board@.len() == 3,
        forall|y: int| 0 <= y < 3 ==> (#[trigger] resp.board@[y])@.len() == 3,
        forall|x: int, y: int|
            0 <= x < 3 && 0 <= y < 3 ==> (#[trigger] resp.board@[y]@[x])@ == cell_text(
                game@.cells[y * 3 + x],
            ),
        resp.state_root@ == hex_text(game@.state_root@),
        resp.move_count == game@.meta.move_count,
        resp.next_player@ == player_text(game@.meta.next_player),
        resp.game_over == game@.meta.game_over,
        resp.next_player@ == (if resp.move_count % 2 == 0 {
            "X"@
        } else {
            "O"@
        }),
        forall|x: int, y: int|
            0 <= x < 3 && 0 <= y < 3 ==> {
                let shown = (#[trigger] resp.board@[y]@[x])@;
                &&& shown == "."@ <==> game@.cells[3 * y + x] == Cell::Empty
                &&& shown == "X"@ <==> game@.cells[3 * y + x] == Cell::X
                &&& shown == "O"@ <==> game@.cells[3 * y + x] == Cell::O
            },
        resp.move_count == count_marks(game@.cells, Cell::X) + count_marks(game@.cells, Cell::O),
        resp.game_over <==> has_line(game@.cells, Cell::X) || has_line(game@.cells, Cell::O)
            || !game@.cells.contains(Cell::Empty),
{
    let cells = game.board();
    let mut board: Vec<Vec<String>> = Vec::new();
    let mut y: usize = 0;
    while y < 3
        invariant
            y <= 3,
            board@.len() == y,
            crate::merkle::board_cells(cells) == game@.cells,
            forall|j: int| 0 <= j < y ==> (#[trigger] board@[j])@.len() == 3,
            forall|i: int, j: int|
                0 <= i < 3 && 0 <= j < y ==> (#[trigger] board@[j]@[i])@ == cell_text(
                    game@.cells[j * 3 + i],
                ),
        decreases 3 - y,
    {
        let mut row: Vec<String> = Vec::new();
        let mut x: usize = 0;
        while x < 3
            invariant
                x <= 3,
                y < 3,
                row@.len() == x,
                crate::merkle::board_cells(cells) == game@.cells,
                forall|i: int|
                    0 <= i < x ==> (#[trigger] row@[i])@ == cell_text(game@.cells[y * 3 + i]),
            decreases 3 - x,
        {
            assert(crate::merkle::board_cells(cells)[y * 3 + x] == cells@[y as int]@[x as int]);
            row.push(cell_label(cells[y][x]));
            x += 1;
        }
        board.push(row);
        y += 1;
    }
    let root = game.state_root();
    let meta = game.game_meta();
    proof {
        labels_tell_apart(Winner::X, Winner::O, Player::X, Player::O, Cell::X, Cell::O);
        players_take_turns(game@);
        a_game_mirrors_its_board(game@);
    }
    GameStateResp {
        game_id: hex_encode(game_id.as_slice()),
        board,
        state_root: hex_encode(root.as_slice()),
        move_count: meta.move_count,
        next_player: player_label(meta.next_player),
        game_over: meta.game_over,
    }
}

/// The list of known games, in the order given.
pub fn list_games(ids: &Vec<GameId>) -> (resp: GamesResp)
    ensures
        resp.total == ids@.len(),
        resp.game_ids@.len() == ids@.len(),
        forall|i: int|
            0 <= i < ids@.len() ==> (#[trigger] resp.game_ids@[i])@ == hex_text(ids@[i]@),
{
    let mut game_ids: Vec<String> = Vec::new();
    let mut i: usize = 0;
    while i < ids.len()
        invariant
            i <= ids@.len(),
            game_ids@.len() == i,
            forall|j: int| 0 <= j < i ==> (#[trigger] game_ids@[j])@ == hex_text(ids@[j]@),
        decreases ids@.len() - i,
    {
        game_ids.push(hex_encode(ids[i].as_slice()));
        i += 1;
    }
    let total: usize = game_ids.len();
    GamesResp { game_ids, total }
}

/// A key pair as text.
pub fn keypair_response(secret: &[u8; 32], public: &PublicKey) -> (resp: KeypairResp)
    ensures
        resp.secret_key@ == hex_text(secret@),
        resp.public_key@ == hex_text(public@),
{
    KeypairResp {
        secret_key: hex_encode(secret.as_slice()),
        public_key: hex_encode(public.as_slice()),
    }
}

/// The key pair of a freshly drawn secret key. Its public key is one that can play.
pub fn keypair(secret: &[u8; 32]) -> (resp: KeypairResp)
    ensures
        resp.secret_key@ == hex_text(secret@),
        resp.public_key@ == hex_text(ed25519_public_key(secret@)@),
        ed25519_key_decodes(ed25519_public_key(secret@)@),
{
    let public = derive_public_key(secret);
    keypair_response(secret, &public)
}

/// Decode a request to sign a move.
pub fn parse_sign_move(req: &SignMoveReq) -> (parsed: Result<SignCommand, ApiError>)
    ensures
        match parsed {
            Ok(command) => {
                &&& decoding32(req.game_id@) == Ok::<Seq<u8>, Seq<char>>(command.game_id@)
                &&& decoding32(req.secret_key@) == Ok::<Seq<u8>, Seq<char>>(command.secret_key@)
                &&& command.x == req.x
                &&& command.y == req.y
            },
            Err(error) => {
                &&& error.status == Status::BadRequest
                &&& match decoding32(req.game_id@) {
                    Err(message) => error.message@ == message,
                    Ok(_) => decoding32(req.secret_key@) == Err::<Seq<u8>, Seq<char>>(
                        error.message@,
                    ),
                }
            },
        },
{
    let game_id: GameId = match decode32(req.game_id.as_str()) {
        Ok(bytes) => bytes,
        Err(error) => {
            return Err(error);
        },
    };
    let secret_key: [u8; 32] = match decode32(req.secret_key.as_str()) {
        Ok(bytes) => bytes,
        Err(error) => {
            return Err(error);
        },
    };
    Ok(SignCommand { game_id, secret_key, x: req.x, y: req.y })
}

/// A signature and the message it is on, as text.
pub fn sign_move_response(signature: &Signature, message: &[u8; 34]) -> (resp: SignMoveResp)
    ensures
        resp.signature@ == hex_text(signature@),
        resp.signed_message@ == hex_text(message@),
{
    SignMoveResp {
        signature: hex_encode(signature.as_slice()),
        signed_message: hex_encode(message.as_slice()),
    }
}

/// Sign a move on a game's current root. The public key of the secret key decodes and
/// accepts the signature; so if it is the key of the player whose turn it is, and the cell
/// is on the board and empty, playing the signed move is not refused.
pub fn sign_move(game: &PerGameState, command: &SignCommand) -> (resp: SignMoveResp)
    ensures
        ({
            let message = signed_bytes(game@.state_root, command.x, command.y);
            let signature = ed25519_signature(command.secret_key@, message);
            &&& resp.signature@ == hex_text(signature@)
            &&& resp.signed_message@ == hex_text(message)
            &&& ed25519_verifies(
                ed25519_public_key(command.secret_key@)@,
                message,
                signature@,
            )
            &&& ed25519_key_decodes(ed25519_public_key(command.secret_key@)@)
            &&& (!game@.meta.game_over && command.x <= 2 && command.y <= 2
                && game@.cells[leaf_index(command.x as int, command.y as int)] == Cell::Empty
                && key_of(game@.meta, game@.meta.next_player) == ed25519_public_key(
                command.secret_key@,
            )) ==> refusal_text(
                game@,
                ed25519_public_key(command.secret_key@),
                signature,
                command.x,
                command.y,
            ) is None
        }),
{
    let message = play_message(&game.state_root(), command.x, command.y);
    let signature = sign_message(&command.secret_key, message.as_slice());
    let public = derive_public_key(&command.secret_key);
    proof {
        let secret = command.secret_key@;
        assert(public =~= ed25519_public_key(secret));
        assert(signature =~= ed25519_signature(secret, message@));
        if !game@.meta.game_over && command.x <= 2 && command.y <= 2 && game@.cells[leaf_index(
            command.x as int,
            command.y as int,
        )] == Cell::Empty && key_of(game@.meta, game@.meta.next_player) == public {
            a_move_signed_by_its_player_is_accepted(game@, secret, command.x, command.y);
        }
    }
    sign_move_response(&signature, &message)
}

// ---------------------------------------------------------------------------
// Laws
// ---------------------------------------------------------------------------

/// How results, players and cells are shown, and that no two of a kind look alike.
pub proof fn labels_tell_apart(
    result_a: Winner,
    result_b: Winner,
    player_a: Player,
    player_b: Player,
    cell_a: Cell,
    cell_b: Cell,
)
    ensures
        winner_text(Winner::X) == "X"@,
        winner_text(Winner::O) == "O"@,
        winner_text(Winner::Draw) == "Draw"@,
        player_text(Player::X) == "X"@,
        player_text(Player::O) == "O"@,
        cell_text(Cell::Empty) == "."@,
        cell_text(Cell::X) == "X"@,
        cell_text(Cell::O) == "O"@,
        winner_text(result_a) == winner_text(result_b) ==> result_a == result_b,
        player_text(player_a) == player_text(player_b) ==> player_a == player_b,
        cell_text(cell_a) == cell_text(cell_b) ==> cell_a == cell_b,
        "X"@ != "O"@ && "X"@ != "Draw"@ && "O"@ != "Draw"@ && "."@ != "X"@ && "."@ != "O"@,
{
    reveal_strlit("X");
    reveal_strlit("O");
    reveal_strlit("Draw");
    reveal_strlit(".");
    assert("X"@.len() == 1 && "O"@.len() == 1 && "."@.len() == 1 && "Draw"@.len() == 4);
    assert("X"@[0] == 'X' && "O"@[0] == 'O' && "."@[0] == '.');
}

/// What the player who submitted a move is told if it is refused: that the game is over, or
/// the words for the refusal of the move on the board.
pub proof fn refused_moves_are_answered(
    game: GameView,
    pubkey: PublicKey,
    signature: Signature,
    x: u8,
    y: u8,
)
    ensures
        ({
            let told = refusal_text(game, pubkey, signature, x, y);
            let placed = !game.meta.game_over && x <= 2 && y <= 2;
            let in_turn = placed && pubkey == (if game.meta.next_player == Player::X {
                game.meta.pubkey_x
            } else {
                game.meta.pubkey_y
            });
            let keyed = in_turn && ed25519_key_decodes(pubkey@);
            let signed = keyed && ed25519_verifies(
                pubkey@,
                game.state_root@ + seq![x, y],
                signature@,
            );
            let empty = game.cells[3 * y + x] == Cell::Empty;
            let at = "("@ + decimal(x as nat) + ","@ + decimal(y as nat) + ")"@;
            &&& game.meta.game_over ==> told == Some("game is already over"@)
            &&& !game.meta.game_over && !placed ==> told == Some("coordinate out of range: "@ + at)
            &&& placed && !in_turn ==> told == Some("not this player's turn"@)
            &&& in_turn && !keyed ==> told == Some("invalid public key bytes"@)
            &&& keyed && !signed ==> told == Some("signature verification failed"@)
            &&& signed && !empty ==> told == Some("cell "@ + at + " is already occupied"@)
            &&& told is None <==> signed && empty
        }),
{
}

/// Keys, identifiers and secrets are text of exactly 32 bytes and signatures of exactly 64,
/// read byte for byte; hexadecimal text of another length is answered in these words.
pub proof fn keys_and_signatures_have_one_size(text: Seq<char>, bytes: Seq<u8>)
    ensures
        ({
            let read = hex_decoding(encode_utf8(text));
            let is_read = read == Ok::<Seq<u8>, HexError>(bytes);
            let wrong = |message: Seq<char>| Err::<Seq<u8>, Seq<char>>(message);
            &&& decoding32(text) == Ok::<Seq<u8>, Seq<char>>(bytes) <==> is_read && bytes.len()
                == 32
            &&& decoding64(text) == Ok::<Seq<u8>, Seq<char>>(bytes) <==> is_read && bytes.len()
                == 64
            &&& is_read && bytes.len() != 32 ==> decoding32(text) == wrong("expected 32-byte hex"@)
            &&& is_read && bytes.len() != 64 ==> decoding64(text) == wrong("expected 64-byte hex"@)
            &&& read matches Err(error) ==> decoding32(text) == wrong(hex_error_message(error))
                && decoding64(text) == wrong(hex_error_message(error))
        }),
{
}

} // verus!
