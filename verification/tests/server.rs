use ed25519_dalek::{Signer, SigningKey};
use tic_tac_toe_core::api::{
    create_game, decode32, decode64, game_not_found, game_state, keypair, list_games, parse_play,
    parse_sign_move, play, sign_move, ApiError, CreateGameReq, PlayCommand, PlayReq, PlayResp,
    SignMoveReq, Status,
};
use tic_tac_toe_core::session::{PerGameState, PlayError};
use tic_tac_toe_core::text::decimal_text;
use tic_tac_toe_core::{
    play_message, required_cells, stf, Cell, MerkleTree, Player, PlayerMove, StfError, Winner,
    Witness,
};

fn key(seed: u8) -> SigningKey {
    SigningKey::from_bytes(&[seed; 32])
}

fn new_game() -> PerGameState {
    let x = key(1).verifying_key().to_bytes();
    let o = key(2).verifying_key().to_bytes();
    PerGameState::create([7u8; 32], x, o).unwrap()
}

/// Plays for whoever's turn it is, with that player's own key and signature.
fn play_next(game: &mut PerGameState, x: u8, y: u8) -> Result<Option<Winner>, PlayError> {
    let sk = match game.game_meta().next_player {
        Player::X => key(1),
        Player::O => key(2),
    };
    let signature = sk.sign(&play_message(&game.state_root(), x, y)).to_bytes();
    let outcome = game.play(sk.verifying_key().to_bytes(), signature, x, y)?;
    assert_eq!(outcome.state_root, game.state_root());
    assert_eq!(outcome.witness_cell_count, required_cells(x, y).len());
    Ok(outcome.winner)
}

#[test]
fn witness_is_minimal_and_accepted() {
    let game = new_game();
    match game.build_play_witness(1, 0) {
        Witness::Play { game_meta, board_root, cell_proofs } => {
            assert_eq!(game_meta.game_id, [7u8; 32]);
            assert_eq!(board_root, MerkleTree::from_board(&game.board()).root());
            let cells: Vec<(u8, u8)> = cell_proofs.iter().map(|p| (p.x, p.y)).collect();
            assert_eq!(cells, required_cells(1, 0));
        }
        Witness::CreateGame => panic!("expected a Play witness"),
    }
    let signature = key(1).sign(&play_message(&game.state_root(), 1, 0)).to_bytes();
    let pubkey = key(1).verifying_key().to_bytes();
    let mv = PlayerMove::Play { pubkey, signature, x: 1, y: 0 };
    assert!(stf(game.state_root(), mv, game.build_play_witness(1, 0)).is_ok());
}

#[test]
fn drawn_game() {
    let mut game = new_game();
    let moves: Vec<(u8, u8)> =
        vec![(0, 0), (1, 1), (2, 2), (1, 0), (1, 2), (0, 2), (2, 0), (2, 1), (0, 1)];
    for (i, (x, y)) in moves.into_iter().enumerate() {
        let winner = play_next(&mut game, x, y).unwrap();
        if i < 8 {
            assert_eq!(winner, None);
            assert!(!game.game_meta().game_over);
        } else {
            assert_eq!(winner, Some(Winner::Draw));
        }
        assert_eq!(game.game_meta().move_count as usize, i + 1);
    }
    assert!(game.game_meta().game_over);
}

#[test]
fn o_wins_and_the_game_is_closed() {
    let mut game = new_game();
    for (x, y) in vec![(0, 0), (2, 0), (0, 1), (1, 1), (2, 2)] {
        assert_eq!(play_next(&mut game, x, y).unwrap(), None);
    }
    assert_eq!(play_next(&mut game, 0, 2).unwrap(), Some(Winner::O));
    assert!(game.game_meta().game_over);
    assert!(matches!(play_next(&mut game, 1, 0), Err(PlayError::AlreadyOver)));
    assert!(matches!(play_next(&mut game, 200, 200), Err(PlayError::AlreadyOver)));
}

#[test]
fn refused_moves_change_nothing() {
    let mut game = new_game();
    play_next(&mut game, 1, 1).unwrap();
    let root = game.state_root();
    assert!(matches!(
        play_next(&mut game, 1, 1),
        Err(PlayError::Refused(StfError::CellOccupied(1, 1)))
    ));
    let stranger = key(3).verifying_key().to_bytes();
    assert!(matches!(
        game.play(stranger, [0u8; 64], 0, 0),
        Err(PlayError::Refused(StfError::NotYourTurn))
    ));
    let o = key(2).verifying_key().to_bytes();
    assert!(matches!(
        game.play(o, [0u8; 64], 0, 0),
        Err(PlayError::Refused(StfError::InvalidSignature))
    ));
    assert_eq!(game.state_root(), root);
    assert_eq!(game.game_meta().move_count, 1);
    assert_eq!(game.board()[1][1], Cell::X);
}

/// A move off the board is refused whatever its key and signature, and changes nothing.
#[test]
fn moves_off_the_board_are_refused() {
    let mut game = new_game();
    play_next(&mut game, 1, 1).unwrap();
    let root = game.state_root();
    let cases: Vec<(u8, u8)> = vec![(3, 0), (0, 3), (2, 3), (200, 200), (255, 255)];
    for (x, y) in cases {
        match play_next(&mut game, x, y) {
            Err(PlayError::Refused(StfError::InvalidCoords(a, b))) => assert_eq!((a, b), (x, y)),
            other => panic!("{:?}", other),
        }
        assert!(matches!(
            game.play([0u8; 32], [0u8; 64], x, y),
            Err(PlayError::Refused(StfError::InvalidCoords(_, _)))
        ));
    }
    assert_eq!(game.state_root(), root);
    assert_eq!(game.game_meta().move_count, 1);
    assert_eq!(play_next(&mut game, 0, 0).unwrap(), None);
}

fn rejected<T>(result: Result<T, ApiError>) -> (Status, String) {
    match result {
        Ok(_) => panic!("expected a rejection"),
        Err(error) => (error.status, error.message),
    }
}

#[test]
fn hex_decoding_errors() {
    let bad = |text: &str| rejected(decode32(text));
    assert_eq!(bad("abc"), (Status::BadRequest, "Odd number of digits".to_string()));
    assert_eq!(
        bad("0g"),
        (Status::BadRequest, "Invalid character 'g' at position 1".to_string())
    );
    assert_eq!(
        bad("00\n0"),
        (Status::BadRequest, "Invalid character '\\n' at position 2".to_string())
    );
    assert_eq!(
        bad("é"),
        (Status::BadRequest, "Invalid character 'Ã' at position 0".to_string())
    );
    assert_eq!(bad("00"), (Status::BadRequest, "expected 32-byte hex".to_string()));
    assert_eq!(bad(""), (Status::BadRequest, "expected 32-byte hex".to_string()));
    assert_eq!(
        rejected(decode64("00")),
        (Status::BadRequest, "expected 64-byte hex".to_string())
    );
}

#[test]
fn hex_decoding_takes_both_cases() {
    assert_eq!(decode32(&"aB".repeat(32)).unwrap(), [0xab; 32]);
    assert_eq!(decode64(&"0F".repeat(64)).unwrap(), [0x0f; 64]);
}

#[test]
fn hex_round_trips() {
    let mut bytes = [0u8; 32];
    for (i, b) in bytes.iter_mut().enumerate() {
        *b = (i * 37 + 5) as u8;
    }
    let resp = keypair(&bytes);
    assert_eq!(decode32(&resp.secret_key).unwrap(), bytes);
}

#[test]
fn keypair_has_known_value() {
    let resp = keypair(&[1u8; 32]);
    assert_eq!(resp.secret_key, "01".repeat(32));
    assert_eq!(
        resp.public_key,
        "8a88e3dd7409f195fd52db2d3cba5d72ca6709bf1d94121bf3748801b40f6f5c"
    );
}

#[test]
fn unknown_game() {
    let error = game_not_found();
    assert_eq!((error.status, error.message), (Status::NotFound, "game not found".to_string()));
}

fn request_game(game_id: [u8; 32]) -> PerGameState {
    let req = CreateGameReq {
        pubkey_x: keypair(&[1u8; 32]).public_key,
        pubkey_y: keypair(&[2u8; 32]).public_key,
    };
    let (game, resp) = create_game(&req, game_id).unwrap();
    assert_eq!(resp.game_id, hex::encode(game_id));
    assert_eq!(resp.state_root, hex::encode(game.state_root()));
    game
}

/// Signs through the server and plays through the server.
fn request_move(game: &mut PerGameState, seed: u8, x: u8, y: u8) -> Result<PlayResp, ApiError> {
    let game_id = hex::encode(game.game_meta().game_id);
    let sign_req =
        SignMoveReq { game_id: game_id.clone(), secret_key: hex::encode([seed; 32]), x, y };
    let command = parse_sign_move(&sign_req).unwrap();
    assert_eq!(command.game_id, game.game_meta().game_id);
    let signed = sign_move(game, &command);
    assert_eq!(signed.signed_message, hex::encode(play_message(&game.state_root(), x, y)));
    let req = PlayReq {
        game_id,
        pubkey: keypair(&[seed; 32]).public_key,
        signature: signed.signature,
        x,
        y,
    };
    let command = parse_play(&req)?;
    play(game, &command)
}

#[test]
fn two_games_side_by_side() {
    let mut first = request_game([1u8; 32]);
    let mut second = request_game([2u8; 32]);
    assert_ne!(first.state_root(), second.state_root());

    let moves: Vec<(u8, u8, usize)> =
        vec![(0, 0, 7), (0, 1, 5), (1, 0, 5), (1, 2, 5), (2, 0, 7)];
    for (i, (x, y, size)) in moves.into_iter().enumerate() {
        let resp = request_move(&mut first, (i % 2) as u8 + 1, x, y).unwrap();
        assert_eq!(resp.witness_cell_count, size);
        assert_eq!(resp.state_root, hex::encode(first.state_root()));
        let expected = if i == 4 { Some("X".to_string()) } else { None };
        assert_eq!(resp.winner, expected);
    }
    let resp = request_move(&mut second, 1, 1, 1).unwrap();
    assert_eq!(resp.witness_cell_count, 9);
    let resp = request_move(&mut second, 2, 0, 0).unwrap();
    assert_eq!((resp.witness_cell_count, resp.winner), (7, None));

    assert_eq!(
        rejected(request_move(&mut first, 2, 2, 2)),
        (Status::BadRequest, "game is already over".to_string())
    );
}

#[test]
fn refusals_are_put_into_words() {
    let mut game = request_game([1u8; 32]);
    assert_eq!(
        rejected(request_move(&mut game, 2, 0, 0)),
        (Status::BadRequest, "not this player's turn".to_string())
    );
    assert_eq!(
        rejected(request_move(&mut game, 1, 3, 0)),
        (Status::BadRequest, "coordinate out of range: (3,0)".to_string())
    );
    assert_eq!(
        rejected(request_move(&mut game, 1, 1, 255)),
        (Status::BadRequest, "coordinate out of range: (1,255)".to_string())
    );
    request_move(&mut game, 1, 0, 0).unwrap();
    assert_eq!(
        rejected(request_move(&mut game, 2, 0, 0)),
        (Status::BadRequest, "cell (0,0) is already occupied".to_string())
    );
}

#[test]
fn draw_is_announced() {
    let mut game = request_game([1u8; 32]);
    let moves: Vec<(u8, u8)> =
        vec![(0, 0), (1, 1), (2, 2), (1, 0), (1, 2), (0, 2), (2, 0), (2, 1), (0, 1)];
    let mut last: Option<String> = None;
    for (i, (x, y)) in moves.into_iter().enumerate() {
        last = request_move(&mut game, (i % 2) as u8 + 1, x, y).unwrap().winner;
    }
    assert_eq!(last, Some("Draw".to_string()));
}

/// Every empty cell can be played with a signature made for it by the player to move.
#[test]
fn signed_moves_are_accepted_on_every_empty_cell() {
    for x in 0..3u8 {
        for y in 0..3u8 {
            let mut game = request_game([5u8; 32]);
            assert!(request_move(&mut game, 1, x, y).is_ok());
            for ox in 0..3u8 {
                for oy in 0..3u8 {
                    let mut next = request_game([5u8; 32]);
                    request_move(&mut next, 1, x, y).unwrap();
                    let played = request_move(&mut next, 2, ox, oy);
                    assert_eq!(played.is_ok(), (ox, oy) != (x, y));
                }
            }
        }
    }
}

#[test]
fn state_shows_the_board() {
    let mut game = request_game([9u8; 32]);
    request_move(&mut game, 1, 1, 1).unwrap();
    request_move(&mut game, 2, 2, 0).unwrap();
    let resp = game_state(&game, &[9u8; 32]);
    assert_eq!(resp.game_id, "09".repeat(32));
    assert_eq!(
        resp.board,
        vec![vec![".", ".", "O"], vec![".", "X", "."], vec![".", ".", "."]]
    );
    assert_eq!(resp.state_root, hex::encode(game.state_root()));
    assert_eq!((resp.move_count, resp.game_over), (2, false));
    assert_eq!(resp.next_player, "X");
}

#[test]
fn games_are_listed_in_order() {
    let resp = list_games(&vec![[0xab; 32], [1u8; 32]]);
    assert_eq!(resp.total, 2);
    assert_eq!(resp.game_ids, vec!["ab".repeat(32), "01".repeat(32)]);
    assert_eq!(list_games(&vec![]).total, 0);
}

#[test]
fn malformed_requests() {
    let good = "00".repeat(32);
    let req = CreateGameReq { pubkey_x: good.clone(), pubkey_y: "0".to_string() };
    assert_eq!(rejected(create_game(&req, [0u8; 32])).1, "Odd number of digits");
    let req = CreateGameReq { pubkey_x: "0011".to_string(), pubkey_y: "0".to_string() };
    assert_eq!(rejected(create_game(&req, [0u8; 32])).1, "expected 32-byte hex");

    let mut req = PlayReq {
        game_id: good.clone(),
        pubkey: good.clone(),
        signature: good.clone(),
        x: 0,
        y: 0,
    };
    assert_eq!(rejected(parse_play(&req)).1, "expected 64-byte hex");
    req.pubkey = "xx".to_string();
    assert_eq!(rejected(parse_play(&req)).1, "Invalid character 'x' at position 0");
    req.game_id = "1".to_string();
    assert_eq!(rejected(parse_play(&req)).1, "Odd number of digits");

    let req = SignMoveReq { game_id: good.clone(), secret_key: "00".to_string(), x: 0, y: 0 };
    assert_eq!(rejected(parse_sign_move(&req)).1, "expected 32-byte hex");
}

#[test]
fn parsed_move_keeps_its_fields() {
    let req = PlayReq {
        game_id: "01".repeat(32),
        pubkey: "02".repeat(32),
        signature: "03".repeat(64),
        x: 1,
        y: 2,
    };
    let PlayCommand { game_id, pubkey, signature, x, y } = parse_play(&req).unwrap();
    assert_eq!((game_id, pubkey, signature), ([1u8; 32], [2u8; 32], [3u8; 64]));
    assert_eq!((x, y), (1, 2));
}

#[test]
fn decimal_bytes() {
    for n in 0..=255u8 {
        assert_eq!(decimal_text(n), n.to_string());
    }
}
