# tic_tac_toe_core

Tic-Tac-Toe around a pure state transition function. The whole state of a game
is one 32-byte root,

    state_root = SHA-256( game_meta || board_root )

where `board_root` is the root of a depth-4 Merkle tree over the board. A move
carries an Ed25519 signature over `state_root || x || y` and a witness with the
Merkle proofs of the cells on the lines through the played cell. `stf` checks
the move against the root and returns the next root and the result, if the game
ends. Everything under `src/` is verified with Verus.

## Layout

| Path                 | What it holds                                                   |
|----------------------|-----------------------------------------------------------------|
| `src/types.rs`       | cells, players, game metadata and its 99-byte encoding          |
| `src/crypto.rs`      | SHA-256 and Ed25519, called from `sha2` and `ed25519-dalek`     |
| `src/merkle.rs`      | leaf and node hashes, inclusion proofs, the tree                |
| `src/merkle_laws.rs` | what an accepted proof shows of the board                       |
| `src/lines.rs`       | win-check lines and the cells they need                         |
| `src/game.rs`        | `stf`, its checks in order and its errors                       |
| `src/game_laws.rs`   | completeness, soundness, replay protection, minimal witnesses   |
| `src/session.rs`     | one running game: the board kept beside its root                |
| `src/text.rs`        | decimal and hexadecimal text, `hex` called for the latter       |
| `src/api.rs`         | the server's requests and responses, without the network        |
| `tests/`             | tests on concrete values                                        |
| `app/`               | the web server: routes, locks, JSON, randomness                 |

## What rests on trust

SHA-256, Ed25519 and the hexadecimal coding are called from their crates. Their
results have names in the contracts; what is believed of them is written above
each call in `src/crypto.rs` and `src/text.rs`. Laws that need collision
resistance are stated without it: either the law holds, or two different inputs
with one SHA-256 digest are at hand.
