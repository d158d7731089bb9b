use battleship::{
    board_commitment, commitment_preimage, count_ship_cells, fire_shot, initialize_game,
    join_game, reveal_board_player1, reveal_board_player2, reveal_shot_result,
    verify_shot_consistency, ErrorCode, FireShot, Game, InitializeGame, JoinGame, PlayerKey,
    RevealBoard, RevealShotResult,
};

fn key(b: u8) -> PlayerKey {
    PlayerKey::new([b; 32])
}

fn first_player() -> PlayerKey {
    key(1)
}

fn second_player() -> PlayerKey {
    key(2)
}

fn idx(x: u8, y: u8) -> usize {
    x as usize + 10 * y as usize
}

fn create(commitment: [u8; 32]) -> Game {
    let mut ctx = InitializeGame { game: blank(), player: first_player(), bump: 254 };
    assert_eq!(initialize_game(&mut ctx, commitment), Ok(()));
    ctx.game
}

fn blank() -> Game {
    Game {
        player1: PlayerKey::unset(),
        player2: PlayerKey::unset(),
        board_commit1: [0; 32],
        board_commit2: [0; 32],
        turn: 1,
        board_hits1: [0; 100],
        board_hits2: [0; 100],
        hits_count1: 0,
        hits_count2: 0,
        is_initialized: false,
        is_game_over: false,
        winner: 0,
        pending_shot: None,
        player1_revealed: false,
        player2_revealed: false,
        bump: 0,
    }
}

fn join(game: &mut Game, who: PlayerKey, commitment: [u8; 32]) -> Result<(), ErrorCode> {
    let mut ctx = JoinGame { game: *game, player: who };
    let r = join_game(&mut ctx, commitment);
    *game = ctx.game;
    r
}

fn fire(game: &mut Game, who: PlayerKey, x: u8, y: u8) -> Result<(), ErrorCode> {
    let mut ctx = FireShot { game: *game, player: who };
    let r = fire_shot(&mut ctx, x, y);
    *game = ctx.game;
    r
}

fn report(game: &mut Game, who: PlayerKey, was_hit: bool) -> Result<(), ErrorCode> {
    let mut ctx = RevealShotResult { game: *game, player: who };
    let r = reveal_shot_result(&mut ctx, was_hit);
    *game = ctx.game;
    r
}

fn reveal_as(game: &mut Game, who: PlayerKey, first: bool, board: [u8; 100], salt: [u8; 32]) -> Result<(), ErrorCode> {
    let mut ctx = RevealBoard { game: *game, player: who };
    let r = if first {
        reveal_board_player1(&mut ctx, board, salt)
    } else {
        reveal_board_player2(&mut ctx, board, salt)
    };
    *game = ctx.game;
    r
}

fn active_game() -> Game {
    let mut g = create([11; 32]);
    assert_eq!(join(&mut g, second_player(), [22; 32]), Ok(()));
    g
}

/// A board with ships on the cells listed.
fn board_with(cells: &[usize]) -> [u8; 100] {
    let mut b = [0u8; 100];
    for &c in cells {
        b[c] = 1;
    }
    b
}

/// Ships on cells 0 to 16.
fn standard_board() -> [u8; 100] {
    let cells: Vec<usize> = (0..17).collect();
    board_with(&cells)
}

/// A game that player 2 won with seventeen hits on player 1's cells 0 to
/// 16, while player 1 shot only misses at player 2: first at (5,5), then at
/// cells 60 to 75. The commitments are those of the boards given.
fn game_won_by_b(board1: [u8; 100], salt1: [u8; 32], board2: [u8; 100], salt2: [u8; 32]) -> Game {
    let mut g = create(board_commitment(&board1, &salt1));
    assert_eq!(join(&mut g, second_player(), board_commitment(&board2, &salt2)), Ok(()));
    for k in 0..17u8 {
        let (x, y) = if k == 0 { (5, 5) } else { ((59 + k) % 10, (59 + k) / 10) };
        assert_eq!(fire(&mut g, first_player(), x, y), Ok(()));
        assert_eq!(report(&mut g, second_player(), false), Ok(()));
        assert_eq!(fire(&mut g, second_player(), k % 10, k / 10), Ok(()));
        assert_eq!(report(&mut g, first_player(), true), Ok(()));
    }
    assert!(g.is_game_over);
    assert_eq!(g.winner, 2);
    g
}

#[test]
fn initialize_sets_up_waiting_game() {
    let g = create([7; 32]);
    assert_eq!(g.player1.bytes, [1; 32]);
    assert_eq!(g.player2.bytes, [0; 32]);
    assert_eq!(g.board_commit1, [7; 32]);
    assert_eq!(g.turn, 1);
    assert!(!g.is_initialized);
    assert!(!g.is_game_over);
    assert_eq!(g.winner, 0);
    assert!(g.pending_shot.is_none());
    assert_eq!(g.bump, 254);
    assert!(g.board_hits1.iter().all(|&c| c == 0));
    assert!(g.board_hits2.iter().all(|&c| c == 0));
}

#[test]
fn miss_passes_turn_and_out_of_turn_fire_fails() {
    let mut g = create([11; 32]);
    assert_eq!(join(&mut g, second_player(), [22; 32]), Ok(()));
    assert!(g.is_initialized);
    assert_eq!(g.turn, 1);
    assert_eq!(g.board_commit2, [22; 32]);
    assert_eq!(fire(&mut g, first_player(), 0, 0), Ok(()));
    assert_eq!(report(&mut g, second_player(), false), Ok(()));
    assert_eq!(g.board_hits2[0], 1);
    assert_eq!(g.turn, 2);
    assert_eq!(fire(&mut g, first_player(), 1, 1), Err(ErrorCode::NotYourTurn));
}

#[test]
fn seventeenth_hit_ends_game() {
    let mut g = active_game();
    for k in 0..17u8 {
        let (x, y) = (k % 10, k / 10);
        assert_eq!(fire(&mut g, first_player(), x, y), Ok(()));
        assert!(!g.is_game_over);
        assert_eq!(g.winner, 0);
        assert_eq!(report(&mut g, second_player(), true), Ok(()));
        assert_eq!(g.hits_count2, k + 1);
        if k < 16 {
            assert!(!g.is_game_over);
            assert_eq!(fire(&mut g, second_player(), 9 - (k % 10), 9 - k / 10), Ok(()));
            assert_eq!(report(&mut g, first_player(), false), Ok(()));
        }
    }
    assert!(g.is_game_over);
    assert_eq!(g.winner, 1);
    assert!(g.pending_shot.is_none());
    for i in 0..100 {
        let expected = if i < 17 { 2 } else { 0 };
        assert_eq!(g.board_hits2[i], expected);
    }
    assert_eq!(fire(&mut g, second_player(), 5, 5), Err(ErrorCode::GameOver));
}

#[test]
fn reported_miss_on_revealed_ship_is_cheating() {
    let salt1 = [3u8; 32];
    let salt2 = [4u8; 32];
    let board1 = standard_board();
    let mut cheating_cells: Vec<usize> = (0..16).collect();
    cheating_cells.push(idx(5, 5));
    let cheating = board_with(&cheating_cells);
    let mut g = game_won_by_b(board1, salt1, cheating, salt2);
    assert_eq!(g.board_hits2[idx(5, 5)], 1);
    assert_eq!(reveal_as(&mut g, second_player(), false, cheating, salt2), Err(ErrorCode::CheatingDetected));
    assert!(!g.player2_revealed);

    let honest = board_with(&(20..37).collect::<Vec<usize>>());
    let mut g = game_won_by_b(board1, salt1, honest, salt2);
    assert_eq!(reveal_as(&mut g, second_player(), false, honest, salt2), Ok(()));
    assert!(g.player2_revealed);
    assert_eq!(reveal_as(&mut g, first_player(), true, board1, salt1), Ok(()));
    assert!(g.player1_revealed);
}

#[test]
fn hit_off_ship_is_cheating() {
    let salt = [9u8; 32];
    let board2 = standard_board();
    let lying = board_with(&(1..18).collect::<Vec<usize>>());
    let mut g = game_won_by_b(lying, salt, board2, salt);
    assert_eq!(reveal_as(&mut g, first_player(), true, lying, salt), Err(ErrorCode::CheatingDetected));
    assert_eq!(reveal_as(&mut g, second_player(), false, board2, salt), Ok(()));
}

#[test]
fn consistency_check_directly() {
    let mut g = active_game();
    g.board_hits1[3] = 1;
    g.board_hits1[4] = 2;
    let mut board = [0u8; 100];
    board[4] = 1;
    assert_eq!(verify_shot_consistency(&g, &board, true), Ok(()));
    board[3] = 1;
    assert_eq!(verify_shot_consistency(&g, &board, true), Err(ErrorCode::CheatingDetected));
    board[3] = 0;
    board[4] = 0;
    assert_eq!(verify_shot_consistency(&g, &board, true), Err(ErrorCode::CheatingDetected));
    assert_eq!(verify_shot_consistency(&g, &board, false), Ok(()));
}

#[test]
fn turn_alternates_over_several_pairs() {
    let mut g = active_game();
    let mut expected = 1u8;
    for k in 0..6u8 {
        assert_eq!(g.turn, expected);
        let (attacker, defender) = if expected == 1 { (first_player(), second_player()) } else { (second_player(), first_player()) };
        assert_eq!(fire(&mut g, attacker, k, 0), Ok(()));
        assert_eq!(g.turn, expected);
        assert_eq!(report(&mut g, defender, k % 2 == 0), Ok(()));
        expected = if expected == 1 { 2 } else { 1 };
    }
    assert_eq!(g.turn, 1);
}

#[test]
fn resolved_cell_cannot_be_targeted_again() {
    let mut g = active_game();
    assert_eq!(fire(&mut g, first_player(), 3, 4), Ok(()));
    assert_eq!(report(&mut g, second_player(), true), Ok(()));
    assert_eq!(g.board_hits2[idx(3, 4)], 2);
    assert_eq!(g.hits_count2, 1);
    assert_eq!(fire(&mut g, second_player(), 3, 4), Ok(()));
    assert_eq!(report(&mut g, first_player(), false), Ok(()));
    assert_eq!(fire(&mut g, first_player(), 3, 4), Err(ErrorCode::AlreadyShotHere));
    assert_eq!(fire(&mut g, first_player(), 4, 3), Ok(()));
}

#[test]
fn join_errors() {
    let mut g = create([1; 32]);
    assert_eq!(join(&mut g, first_player(), [2; 32]), Err(ErrorCode::CannotPlayAgainstYourself));
    assert!(!g.is_initialized);
    assert_eq!(join(&mut g, second_player(), [2; 32]), Ok(()));
    assert_eq!(join(&mut g, key(3), [3; 32]), Err(ErrorCode::GameAlreadyFull));
    assert_eq!(g.player2.bytes, [2; 32]);
}

#[test]
fn fire_errors() {
    let mut g = create([1; 32]);
    assert_eq!(fire(&mut g, first_player(), 0, 0), Err(ErrorCode::GameNotReady));
    assert_eq!(join(&mut g, second_player(), [2; 32]), Ok(()));
    assert_eq!(fire(&mut g, first_player(), 10, 0), Err(ErrorCode::InvalidCoordinate));
    assert_eq!(fire(&mut g, first_player(), 0, 10), Err(ErrorCode::InvalidCoordinate));
    assert_eq!(fire(&mut g, key(3), 0, 0), Err(ErrorCode::NotAPlayer));
    assert_eq!(fire(&mut g, second_player(), 0, 0), Err(ErrorCode::NotYourTurn));
    assert_eq!(fire(&mut g, first_player(), 9, 9), Ok(()));
    let pending = g.pending_shot.expect("a pending shot");
    assert_eq!((pending.x, pending.y), (9, 9));
    assert_eq!(pending.firer.bytes, [1; 32]);
    assert_eq!(fire(&mut g, first_player(), 0, 0), Err(ErrorCode::ShotPending));
}

#[test]
fn report_errors() {
    let mut g = create([1; 32]);
    assert_eq!(report(&mut g, second_player(), true), Err(ErrorCode::GameNotReady));
    assert_eq!(join(&mut g, second_player(), [2; 32]), Ok(()));
    assert_eq!(report(&mut g, second_player(), true), Err(ErrorCode::NoPendingShot));
    assert_eq!(fire(&mut g, first_player(), 2, 2), Ok(()));
    assert_eq!(report(&mut g, key(3), true), Err(ErrorCode::NotAPlayer));
    assert_eq!(report(&mut g, first_player(), true), Err(ErrorCode::NotDefender));
    assert_eq!(g.board_hits2[idx(2, 2)], 0);
    assert_eq!(report(&mut g, second_player(), true), Ok(()));
}

#[test]
fn reveal_errors() {
    let salt = [5u8; 32];
    let board = standard_board();
    let mut g = active_game();
    assert_eq!(reveal_as(&mut g, first_player(), true, board, salt), Err(ErrorCode::GameNotOver));

    let mut g = game_won_by_b(board, salt, board, salt);
    assert_eq!(reveal_as(&mut g, second_player(), true, board, salt), Err(ErrorCode::NotPlayer1));
    assert_eq!(reveal_as(&mut g, first_player(), false, board, salt), Err(ErrorCode::NotPlayer2));
    assert_eq!(reveal_as(&mut g, first_player(), true, board, [6; 32]), Err(ErrorCode::CommitmentMismatch));
    assert_eq!(reveal_as(&mut g, first_player(), true, board, salt), Ok(()));
    assert_eq!(reveal_as(&mut g, first_player(), true, board, salt), Err(ErrorCode::AlreadyRevealed));
}

#[test]
fn single_bit_change_breaks_commitment() {
    let salt = [5u8; 32];
    let board = standard_board();
    let mut g = game_won_by_b(board, salt, board, salt);
    let mut flipped_board = board;
    flipped_board[99] ^= 1;
    assert_eq!(reveal_as(&mut g, second_player(), false, flipped_board, salt), Err(ErrorCode::CommitmentMismatch));
    let mut flipped_salt = salt;
    flipped_salt[0] ^= 0x80;
    assert_eq!(reveal_as(&mut g, second_player(), false, board, flipped_salt), Err(ErrorCode::CommitmentMismatch));
    assert_eq!(reveal_as(&mut g, second_player(), false, board, salt), Ok(()));
}

#[test]
fn wrong_fleet_size_is_refused() {
    let salt = [8u8; 32];
    let board1 = standard_board();
    let short = board_with(&(0..16).collect::<Vec<usize>>());
    let mut g = game_won_by_b(board1, salt, short, salt);
    assert_eq!(reveal_as(&mut g, second_player(), false, short, salt), Err(ErrorCode::InvalidFleetConfiguration));
    assert_eq!(count_ship_cells(&short), 16);
    assert_eq!(count_ship_cells(&board1), 17);
}

#[test]
fn commitment_is_sha256_of_board_then_salt() {
    let board = standard_board();
    let salt = [0xabu8; 32];
    let data = commitment_preimage(&board, &salt);
    assert_eq!(data.len(), 132);
    assert_eq!(&data[..100], &board[..]);
    assert_eq!(&data[100..], &salt[..]);
    let digest = board_commitment(&board, &salt);
    let expected = anchor_lang::solana_program::hash::hash(&data).to_bytes();
    assert_eq!(digest, expected);
    assert_ne!(&digest[..], &data[..32]);
    assert_ne!(digest, board_commitment(&board, &[0xac; 32]));
}

#[test]
fn sha256_of_known_input() {
    // SHA-256 of the ASCII bytes "abc".
    let expected: [u8; 32] = [
        0xba, 0x78, 0x16, 0xbf, 0x8f, 0x01, 0xcf, 0xea, 0x41, 0x41, 0x40, 0xde, 0x5d, 0xae, 0x22,
        0x23, 0xb0, 0x03, 0x61, 0xa3, 0x96, 0x17, 0x7a, 0x9c, 0xb4, 0x10, 0xff, 0x61, 0xf2, 0x00,
        0x15, 0xad,
    ];
    assert_eq!(anchor_lang::solana_program::hash::hash(b"abc").to_bytes(), expected);
}

#[test]
fn well_formed_records() {
    let mut g = create([1; 32]);
    assert!(g.is_well_formed());
    assert_eq!(join(&mut g, second_player(), [2; 32]), Ok(()));
    assert!(g.is_well_formed());
    assert_eq!(fire(&mut g, first_player(), 4, 4), Ok(()));
    assert!(g.is_well_formed());
    assert_eq!(report(&mut g, second_player(), true), Ok(()));
    assert!(g.is_well_formed());

    let mut miscounted = g;
    miscounted.hits_count2 = 0;
    assert!(!miscounted.is_well_formed());
    let mut bad_mark = g;
    bad_mark.board_hits1[7] = 3;
    assert!(!bad_mark.is_well_formed());
    let mut bad_turn = g;
    bad_turn.turn = 0;
    assert!(!bad_turn.is_well_formed());
    let mut early_winner = g;
    early_winner.winner = 1;
    assert!(!early_winner.is_well_formed());
    let mut same_players = g;
    same_players.player2 = first_player();
    assert!(!same_players.is_well_formed());
}
