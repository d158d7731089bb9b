//! A two-player Battleship protocol with hidden boards.
//!
//! Each player commits to a secret board by its digest, the game proceeds by
//! shots that the defender reports as hits or misses, and once the game is
//! over each board is revealed and audited against its commitment and against
//! every report made about it.
pub mod game;
pub mod audit;
pub mod instructions;
pub mod laws;

pub use game::{ErrorCode, Game, PendingShot, PlayerKey, Role};
pub use audit::{board_commitment, commitment_preimage, count_ship_cells, verify_shot_consistency};
pub use instructions::{
    apply_board_reveal, fire_shot, initialize_game, join_game, reveal_board_player1,
    reveal_board_player2, reveal_shot_result, FireShot, InitializeGame, JoinGame, RevealBoard,
    RevealShotResult,
};
