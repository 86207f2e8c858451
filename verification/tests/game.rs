use ed25519_dalek::{Signer, SigningKey, VerifyingKey};
use tic_tac_toe_core::game::{
    apply_play, check_board, check_claim, check_play, find_cell, state_root, stf_checked,
};
use tic_tac_toe_core::{
    cell_index, empty_board_root, play_message, required_cells, stf, Board, Cell, CellProof,
    GameId, GameMeta, Hash32, MerkleTree, Player, PlayerMove, PublicKey, Signature, StfError,
    Winner, Witness,
};

const GAME_A: GameId = [0xAA; 32];
const GAME_B: GameId = [0xBB; 32];

struct TestKeys {
    sk_x: SigningKey,
    sk_o: SigningKey,
    pk_x: PublicKey,
    pk_o: PublicKey,
}

fn test_keys() -> TestKeys {
    let sk_x = SigningKey::from_bytes(&[1u8; 32]);
    let sk_o = SigningKey::from_bytes(&[2u8; 32]);
    let pk_x = sk_x.verifying_key().to_bytes();
    let pk_o = sk_o.verifying_key().to_bytes();
    TestKeys { sk_x, sk_o, pk_x, pk_o }
}

fn create_game(game_id: GameId, pk_x: PublicKey, pk_o: PublicKey) -> (Hash32, GameMeta) {
    let (root, winner) = stf(
        [0u8; 32],
        PlayerMove::CreateGame { game_id, pubkey_x: pk_x, pubkey_y: pk_o },
        Witness::CreateGame,
    )
    .unwrap();
    assert_eq!(winner, None);
    let meta = GameMeta {
        game_id,
        pubkey_x: pk_x,
        pubkey_y: pk_o,
        move_count: 0,
        next_player: Player::X,
        game_over: false,
    };
    (root, meta)
}

fn build_witness(meta: &GameMeta, board: &Board, x: u8, y: u8) -> Witness {
    let tree = MerkleTree::from_board(board);
    let board_root = tree.root();
    let proofs = required_cells(x, y)
        .into_iter()
        .map(|(cx, cy)| CellProof {
            x: cx,
            y: cy,
            cell: board[cy as usize][cx as usize],
            siblings: tree.inclusion_proof(cell_index(cx, cy)),
        })
        .collect();
    Witness::Play { game_meta: meta.clone(), board_root, cell_proofs: proofs }
}

fn sign(sk: &SigningKey, state_root: &Hash32, x: u8, y: u8) -> Signature {
    sk.sign(&play_message(state_root, x, y)).to_bytes()
}

#[test]
fn create_game_once() {
    let k = test_keys();
    let (root, _) = create_game(GAME_A, k.pk_x, k.pk_o);
    let err = stf(
        root,
        PlayerMove::CreateGame { game_id: GAME_A, pubkey_x: k.pk_x, pubkey_y: k.pk_o },
        Witness::CreateGame,
    );
    assert!(matches!(err, Err(StfError::GameAlreadyExists)));
}

#[test]
fn full_game_x_wins() {
    let k = test_keys();
    let (mut state, mut meta) = create_game(GAME_A, k.pk_x, k.pk_o);
    let mut board = [[Cell::Empty; 3]; 3];

    // X wins via top row: (0,0), (1,0), (2,0)
    let moves: &[(u8, u8, Player)] = &[
        (0, 0, Player::X),
        (0, 1, Player::O),
        (1, 0, Player::X),
        (1, 1, Player::O),
        (2, 0, Player::X),
    ];

    for &(x, y, player) in moves {
        let sk = if player == Player::X { &k.sk_x } else { &k.sk_o };
        let pk = if player == Player::X { k.pk_x } else { k.pk_o };
        let sig = sign(sk, &state, x, y);
        let witness = build_witness(&meta, &board, x, y);
        let (new_state, winner) =
            stf(state, PlayerMove::Play { pubkey: pk, signature: sig, x, y }, witness).unwrap();
        board[y as usize][x as usize] = player.to_cell();
        meta.move_count += 1;
        meta.next_player = meta.next_player.other();
        if winner.is_some() {
            meta.game_over = true;
        }
        state = new_state;
        if let Some(w) = winner {
            assert_eq!(w, Winner::X);
            return;
        }
    }
    panic!("expected X to win");
}

#[test]
fn occupied_cell_rejected() {
    let k = test_keys();
    let (mut state, mut meta) = create_game(GAME_A, k.pk_x, k.pk_o);
    let mut board = [[Cell::Empty; 3]; 3];

    // X plays (1,1)
    let sig = sign(&k.sk_x, &state, 1, 1);
    let (new_state, _) = stf(
        state,
        PlayerMove::Play { pubkey: k.pk_x, signature: sig, x: 1, y: 1 },
        build_witness(&meta, &board, 1, 1),
    )
    .unwrap();
    board[1][1] = Cell::X;
    state = new_state;
    meta.move_count += 1;
    meta.next_player = Player::O;

    // O tries to play (1,1), which is occupied
    let sig = sign(&k.sk_o, &state, 1, 1);
    let err = stf(
        state,
        PlayerMove::Play { pubkey: k.pk_o, signature: sig, x: 1, y: 1 },
        build_witness(&meta, &board, 1, 1),
    );
    assert!(matches!(err, Err(StfError::CellOccupied(1, 1))));
}

/// Two concurrent games with the same players produce different state roots
/// immediately after CreateGame, so a signature from game A cannot be replayed in game B.
#[test]
fn cross_game_replay_impossible() {
    let k = test_keys();

    // Create two independent games with the same players
    let (state_a, _meta_a) = create_game(GAME_A, k.pk_x, k.pk_o);
    let (state_b, _meta_b) = create_game(GAME_B, k.pk_x, k.pk_o);

    // Different game_ids give different initial state roots
    assert_ne!(state_a, state_b, "state roots must differ across games");

    // X signs a move for game A at (0,0)
    let sig_for_a = sign(&k.sk_x, &state_a, 0, 0);

    // Attempting to use that signature against game B's state root must fail
    // because the signed message embeds state_a, not state_b
    let err = stf(
        state_b,
        PlayerMove::Play { pubkey: k.pk_x, signature: sig_for_a, x: 0, y: 0 },
        build_witness(&_meta_b, &[[Cell::Empty; 3]; 3], 0, 0),
    );
    assert!(matches!(err, Err(StfError::InvalidSignature)));
}

/// The first move of a game, signed and with an honest witness.
fn first_move(k: &TestKeys, x: u8, y: u8) -> (Hash32, PlayerMove, Witness) {
    let (state, meta) = create_game(GAME_A, k.pk_x, k.pk_o);
    let signature = sign(&k.sk_x, &state, x, y);
    let witness = build_witness(&meta, &[[Cell::Empty; 3]; 3], x, y);
    (state, PlayerMove::Play { pubkey: k.pk_x, signature, x, y }, witness)
}

#[test]
fn witness_mismatch() {
    let k = test_keys();
    let (state, mv, witness) = first_move(&k, 0, 0);
    assert!(matches!(stf(state, mv, Witness::CreateGame), Err(StfError::WitnessMismatch)));
    let create =
        PlayerMove::CreateGame { game_id: GAME_A, pubkey_x: k.pk_x, pubkey_y: k.pk_o };
    assert!(matches!(stf([0u8; 32], create, witness), Err(StfError::WitnessMismatch)));
}

#[test]
fn state_commitment_mismatch() {
    let k = test_keys();
    let (mut state, mv, witness) = first_move(&k, 0, 0);
    state[31] ^= 1;
    assert!(matches!(stf(state, mv, witness), Err(StfError::StateCommitmentMismatch)));
}

#[test]
fn finished_game_rejected() {
    let k = test_keys();
    let (_, mv, witness) = first_move(&k, 0, 0);
    if let Witness::Play { mut game_meta, board_root, cell_proofs } = witness {
        game_meta.game_over = true;
        let root = state_root(&game_meta, &board_root);
        let result = stf(root, mv, Witness::Play { game_meta, board_root, cell_proofs });
        assert!(matches!(result, Err(StfError::GameOver)));
    }
}

#[test]
fn coordinates_out_of_range() {
    let k = test_keys();
    let (state, _, _) = first_move(&k, 0, 0);
    let cases: Vec<(u8, u8)> = vec![(3, 0), (0, 3), (200, 200), (255, 255)];
    for (x, y) in cases {
        let (_, _, witness) = first_move(&k, 0, 0);
        let signature = sign(&k.sk_x, &state, x, y);
        let mv = PlayerMove::Play { pubkey: k.pk_x, signature, x, y };
        match stf(state, mv, witness) {
            Err(StfError::InvalidCoords(a, b)) => assert_eq!((a, b), (x, y)),
            other => panic!("{:?}", other),
        }
    }
}

#[test]
fn wrong_player_rejected() {
    let k = test_keys();
    let (state, _, witness) = first_move(&k, 0, 0);
    let signature = sign(&k.sk_o, &state, 0, 0);
    let mv = PlayerMove::Play { pubkey: k.pk_o, signature, x: 0, y: 0 };
    assert!(matches!(stf(state, mv, witness), Err(StfError::NotYourTurn)));
}

#[test]
fn undecodable_key_rejected() {
    let k = test_keys();
    let mut bad = [0u8; 32];
    while VerifyingKey::from_bytes(&bad).is_ok() {
        bad[0] += 1;
    }
    let (state, meta) = create_game(GAME_A, bad, k.pk_o);
    let signature = sign(&k.sk_x, &state, 0, 0);
    let mv = PlayerMove::Play { pubkey: bad, signature, x: 0, y: 0 };
    let witness = build_witness(&meta, &[[Cell::Empty; 3]; 3], 0, 0);
    assert!(matches!(stf(state, mv, witness), Err(StfError::InvalidPublicKey)));
}

/// A signature for one cell is not one for another, nor for a later move.
#[test]
fn signature_is_bound_to_cell_and_state() {
    let k = test_keys();
    let (state, _, witness) = first_move(&k, 1, 1);
    let signature = sign(&k.sk_x, &state, 0, 0);
    let mv = PlayerMove::Play { pubkey: k.pk_x, signature, x: 1, y: 1 };
    assert!(matches!(stf(state, mv, witness), Err(StfError::InvalidSignature)));

    let (_, mut meta) = create_game(GAME_A, k.pk_x, k.pk_o);
    meta.move_count = 2;
    let later = state_root(&meta, &empty_board_root());
    assert_ne!(later, state);
    let signature = sign(&k.sk_x, &state, 1, 1);
    let mv = PlayerMove::Play { pubkey: k.pk_x, signature, x: 1, y: 1 };
    let witness = build_witness(&meta, &[[Cell::Empty; 3]; 3], 1, 1);
    assert!(matches!(stf(later, mv, witness), Err(StfError::InvalidSignature)));
}

#[test]
fn missing_proof_rejected() {
    let k = test_keys();
    let (state, mv, witness) = first_move(&k, 1, 0);
    if let Witness::Play { game_meta, board_root, mut cell_proofs } = witness {
        cell_proofs.retain(|p| (p.x, p.y) != (1, 2));
        let result = stf(state, mv, Witness::Play { game_meta, board_root, cell_proofs });
        assert!(matches!(result, Err(StfError::MissingCellProof(1, 2))));
    }
}

/// Of several bad proofs, the one that comes first in ascending order is reported.
#[test]
fn forged_proof_rejected() {
    let k = test_keys();
    let (state, mv, witness) = first_move(&k, 1, 0);
    if let Witness::Play { game_meta, board_root, mut cell_proofs } = witness {
        for p in cell_proofs.iter_mut() {
            if (p.x, p.y) == (1, 1) || (p.x, p.y) == (2, 0) {
                p.cell = Cell::X;
            }
        }
        cell_proofs.reverse();
        let result = stf(state, mv, Witness::Play { game_meta, board_root, cell_proofs });
        assert!(matches!(result, Err(StfError::InvalidMerkleProof(1, 1))));
    }
}

/// Extra proofs, even forged ones, change nothing.
#[test]
fn extra_proofs_are_ignored() {
    let k = test_keys();
    let (state, mv, witness) = first_move(&k, 1, 0);
    let (_, _, plain) = first_move(&k, 1, 0);
    let expected = stf(state, mv.clone(), plain).unwrap();
    if let Witness::Play { game_meta, board_root, mut cell_proofs } = witness {
        cell_proofs.insert(0, CellProof { x: 2, y: 2, cell: Cell::O, siblings: [[7u8; 32]; 4] });
        cell_proofs.push(CellProof { x: 1, y: 0, cell: Cell::O, siblings: [[7u8; 32]; 4] });
        let result = stf(state, mv, Witness::Play { game_meta, board_root, cell_proofs });
        assert_eq!(result.unwrap(), expected);
    }
}

/// An accepted move commits to the board with the mark placed.
#[test]
fn accepted_move_commits_to_the_new_board() {
    let k = test_keys();
    let (state, mv, witness) = first_move(&k, 2, 1);
    let (new_state, winner) = stf(state, mv, witness).unwrap();
    assert_eq!(winner, None);
    let mut board = [[Cell::Empty; 3]; 3];
    board[1][2] = Cell::X;
    let meta = GameMeta {
        game_id: GAME_A,
        pubkey_x: k.pk_x,
        pubkey_y: k.pk_o,
        move_count: 1,
        next_player: Player::O,
        game_over: false,
    };
    assert_eq!(new_state, state_root(&meta, &MerkleTree::from_board(&board).root()));
}

#[test]
fn move_counter_at_its_limit() {
    let k = test_keys();
    let (_, mut meta) = create_game(GAME_A, k.pk_x, k.pk_o);
    meta.move_count = 255;
    let root = state_root(&meta, &empty_board_root());
    let board = [[Cell::Empty; 3]; 3];
    let signature = sign(&k.sk_x, &root, 0, 0);
    let mv = PlayerMove::Play { pubkey: k.pk_x, signature, x: 0, y: 0 };
    assert!(stf_checked(root, mv.clone(), build_witness(&meta, &board, 0, 0)).is_none());
    let refused = stf_checked([9u8; 32], mv, build_witness(&meta, &board, 0, 0));
    assert!(matches!(refused, Some(Err(StfError::StateCommitmentMismatch))));

    let (state, mv, witness) = first_move(&k, 0, 0);
    assert!(matches!(stf_checked(state, mv, witness), Some(Ok((_, None)))));
}

#[test]
fn meta_encoding_layout() {
    let meta = GameMeta {
        game_id: [1u8; 32],
        pubkey_x: [2u8; 32],
        pubkey_y: [3u8; 32],
        move_count: 4,
        next_player: Player::O,
        game_over: true,
    };
    let mut expected = vec![1u8; 32];
    expected.extend(vec![2u8; 32]);
    expected.extend(vec![3u8; 32]);
    expected.extend(vec![4u8, 1, 1]);
    assert_eq!(meta.to_bytes().to_vec(), expected);
    assert_eq!(meta.clone().to_bytes(), meta.to_bytes());
}

#[test]
fn state_root_has_known_value() {
    let (root, meta) = create_game(GAME_A, [0x11; 32], [0x22; 32]);
    assert_eq!(
        hex::encode(root),
        "1d4e9b383f6265c06f6fc47129a5fe7c0a65b9dc927da9b00d41c646319512e4"
    );
    assert_eq!(root, state_root(&meta, &empty_board_root()));
}

#[test]
fn play_message_layout() {
    let msg = play_message(&[5u8; 32], 1, 2);
    assert_eq!(msg[..32], [5u8; 32]);
    assert_eq!(msg[32..], [1u8, 2]);
}

#[test]
fn find_cell_takes_the_first_match() {
    let entry = |x: u8, y: u8, cell: Cell| CellProof { x, y, cell, siblings: [[0u8; 32]; 4] };
    let proofs = vec![entry(0, 1, Cell::X), entry(1, 0, Cell::O), entry(1, 0, Cell::X)];
    assert_eq!(find_cell(&proofs, 1, 0).map(|p| p.cell), Some(Cell::O));
    assert!(find_cell(&proofs, 2, 2).is_none());
    assert!(find_cell(&[], 0, 0).is_none());
}

/// The checks of a move, taken apart.
#[test]
fn checks_in_order() {
    let k = test_keys();
    let (state, mv, witness) = first_move(&k, 0, 0);
    if let (
        PlayerMove::Play { pubkey, signature, x, y },
        Witness::Play { game_meta, board_root, cell_proofs },
    ) = (mv, witness)
    {
        let root = state_root(&game_meta, &board_root);
        assert!(check_claim(&state, &root, &pubkey, x, y, &game_meta).is_ok());
        assert!(matches!(
            check_claim(&state, &root, &k.pk_o, x, y, &game_meta),
            Err(StfError::NotYourTurn)
        ));
        assert!(matches!(
            check_claim(&state, &[0u8; 32], &k.pk_o, x, y, &game_meta),
            Err(StfError::StateCommitmentMismatch)
        ));
        assert!(matches!(
            check_board(false, true, x, y, &board_root, &cell_proofs),
            Err(StfError::InvalidPublicKey)
        ));
        assert!(matches!(
            check_board(true, false, x, y, &board_root, &cell_proofs),
            Err(StfError::InvalidSignature)
        ));
        let siblings = check_board(true, true, x, y, &board_root, &cell_proofs).unwrap();
        assert_eq!(siblings, find_cell(&cell_proofs, 0, 0).unwrap().siblings);
        let checked = check_play(
            &state,
            &pubkey,
            &signature,
            x,
            y,
            &game_meta,
            &board_root,
            &cell_proofs,
        );
        assert_eq!(checked.unwrap(), siblings);

        let (new_root, winner) = apply_play(x, y, &game_meta, &siblings, &cell_proofs);
        let witness = Witness::Play { game_meta, board_root, cell_proofs };
        let mv = PlayerMove::Play { pubkey, signature, x, y };
        assert_eq!(stf(state, mv, witness).unwrap(), (new_root, winner));
    }
}

#[test]
fn error_messages() {
    let cases: Vec<(StfError, &str)> = vec![
        (StfError::WitnessMismatch, "witness type does not match move type"),
        (StfError::GameAlreadyExists, "game already exists (prior root is not zero)"),
        (StfError::GameOver, "game is over"),
        (
            StfError::StateCommitmentMismatch,
            "state commitment mismatch: witness is inconsistent with prior root",
        ),
        (StfError::InvalidCoords(3, 255), "coordinate out of range: (3,255)"),
        (StfError::NotYourTurn, "not this player's turn"),
        (StfError::InvalidPublicKey, "invalid public key bytes"),
        (StfError::InvalidSignature, "signature verification failed"),
        (StfError::InvalidMerkleProof(0, 2), "invalid Merkle proof for cell (0,2)"),
        (StfError::CellOccupied(1, 10), "cell (1,10) is already occupied"),
        (StfError::MissingCellProof(100, 7), "missing required cell proof for (100,7)"),
    ];
    for (error, text) in cases {
        assert_eq!(error.message(), text);
    }
}

#[test]
fn players_alternate() {
    assert_eq!(Player::X.other(), Player::O);
    assert_eq!(Player::O.other(), Player::X);
    assert_eq!(Player::X.to_cell(), Cell::X);
    assert_eq!(Player::O.to_cell(), Cell::O);
}
