//! Tic-Tac-Toe as a pure, verified state transition function.
//!
//! Game state is committed in a Sparse Merkle Tree, every move carries a minimal
//! cryptographic witness, and [`game::stf`] judges the move from the committed root, the
//! move and the witness alone.
//!
//! * [`types`]: cells, metadata, moves and witnesses
//! * [`crypto`]: SHA-256 and Ed25519, the trusted base
//! * [`merkle`], [`merkle_laws`]: the tree, and what its proofs guarantee
//! * [`lines`]: winning lines and the cells a move requires
//! * [`game`], [`game_laws`]: the transition function, and what it guarantees
//! * [`session`]: one running game, with its witnesses built and its moves applied
//! * [`text`], [`api`]: hexadecimal and decimal text, requests and responses

pub mod api;
pub mod crypto;
pub mod game;
pub mod game_laws;
pub mod lines;
pub mod merkle;
pub mod merkle_laws;
pub mod session;
pub mod text;
pub mod types;

pub use game::{play_message, stf, StfError};
pub use lines::required_cells;
pub use merkle::{cell_index, empty_board_root, MerkleTree};
pub use types::{
    Board, Cell, CellProof, GameId, GameMeta, Hash32, Player, PlayerMove, PublicKey, Signature,
    Winner, Witness, TREE_DEPTH,
};
