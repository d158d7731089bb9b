//! The protocol's operations. Each one reads the session, checks that the
//! call is legal, and either moves the session to its next state or refuses
//! with an error and leaves it as it was.
use vstd::prelude::*;
use crate::audit::{
    board_commitment, board_consistent, commitment_of, count_ship_cells, own_grid,
    verify_shot_consistency,
};
use crate::game::{
    cell_index, count_value, lemma_count_update, lemma_count_zeros,
    other_turn, role_of, same_key, target_grid, turn_of, ErrorCode, Game, PendingShot, PlayerKey,
    Role, BOARD_SIDE, FLEET_CELLS, HIT, MISS, SHIP, UNTOUCHED,
};

verus! {

/// The accounts of a game's creation: the fresh record, its creator and the
/// bump seed of the record's address.
pub struct InitializeGame {
    pub game: Game,
    pub player: PlayerKey,
    pub bump: u8,
}

/// The accounts of a join: the record and the joining player.
pub struct JoinGame {
    pub game: Game,
    pub player: PlayerKey,
}

/// The accounts of a shot: the record and the firing player.
pub struct FireShot {
    pub game: Game,
    pub player: PlayerKey,
}

/// The accounts of a shot report: the record and the reporting defender.
pub struct RevealShotResult {
    pub game: Game,
    pub player: PlayerKey,
}

/// The accounts of a board reveal: the record and the revealing player.
pub struct RevealBoard {
    pub game: Game,
    pub player: PlayerKey,
}

/// An operation's effect: on an error the session is unchanged, else it is
/// the state that `post` describes.
pub open spec fn refused_or(r: Result<(), ErrorCode>, err: Option<ErrorCode>, before: Game, after: Game, post: bool) -> bool {
    match err {
        Some(e) => r == Err::<(), ErrorCode>(e) && after == before,
        None => r is Ok && post,
    }
}

/// The session that `player` creates with `commitment`.
pub open spec fn fresh_game(g: Game, player: PlayerKey, commitment: [u8; 32], bump: u8) -> bool {
    &&& g.player1 == player
    &&& forall|i: int| 0 <= i < 32 ==> #[trigger] g.player2.bytes@[i] == 0
    &&& g.board_commit1 == commitment
    &&& forall|i: int| 0 <= i < 32 ==> #[trigger] g.board_commit2@[i] == 0
    &&& g.turn == 1
    &&& forall|i: int| 0 <= i < 100 ==> #[trigger] g.board_hits1@[i] == UNTOUCHED
    &&& forall|i: int| 0 <= i < 100 ==> #[trigger] g.board_hits2@[i] == UNTOUCHED
    &&& g.hits_count1 == 0
    &&& g.hits_count2 == 0
    &&& !g.is_initialized
    &&& !g.is_game_over
    &&& g.winner == 0
    &&& g.pending_shot is None
    &&& !g.player1_revealed
    &&& !g.player2_revealed
    &&& g.bump == bump
}

/// Creates a session in which `ctx.player` is player 1, bound to
/// `board_commitment`, waiting for an opponent.
pub fn initialize_game(ctx: &mut InitializeGame, board_commitment: [u8; 32]) -> (r: Result<(), ErrorCode>)
    ensures
        r is Ok,
        fresh_game(final(ctx).game, old(ctx).player, board_commitment, old(ctx).bump),
        final(ctx).game.wf(),
        final(ctx).player == old(ctx).player,
        final(ctx).bump == old(ctx).bump,
{
    let game = Game {
        player1: ctx.player,
        player2: PlayerKey::unset(),
        board_commit1: board_commitment,
        board_commit2: [0u8; 32],
        turn: 1,
        board_hits1: [UNTOUCHED; 100],
        board_hits2: [UNTOUCHED; 100],
        hits_count1: 0,
        hits_count2: 0,
        is_initialized: false,
        is_game_over: false,
        winner: 0,
        pending_shot: None,
        player1_revealed: false,
        player2_revealed: false,
        bump: ctx.bump,
    };
    proof {
        lemma_count_zeros(game.board_hits1@, HIT);
        lemma_count_zeros(game.board_hits2@, HIT);
    }
    ctx.game = game;
    Ok(())
}

/// Why a join by `caller` is refused, if it is.
pub open spec fn join_error(g: Game, caller: PlayerKey) -> Option<ErrorCode> {
    if g.is_initialized {
        Some(ErrorCode::GameAlreadyFull)
    } else if same_key(caller, g.player1) {
        Some(ErrorCode::CannotPlayAgainstYourself)
    } else {
        None
    }
}

/// The session after `caller` joined with `commitment`.
pub open spec fn join_post(g: Game, caller: PlayerKey, commitment: [u8; 32], g2: Game) -> bool {
    g2 == Game { player2: caller, board_commit2: commitment, is_initialized: true, turn: 1, ..g }
}

/// Makes `ctx.player` player 2, bound to `board_commitment`, and starts the
/// game with player 1 to move.
pub fn join_game(ctx: &mut JoinGame, board_commitment: [u8; 32]) -> (r: Result<(), ErrorCode>)
    requires
        old(ctx).game.wf(),
    ensures
        refused_or(
            r,
            join_error(old(ctx).game, old(ctx).player),
            old(ctx).game,
            final(ctx).game,
            join_post(old(ctx).game, old(ctx).player, board_commitment, final(ctx).game),
        ),
        final(ctx).game.wf(),
        final(ctx).player == old(ctx).player,
{
    if ctx.game.is_initialized {
        return Err(ErrorCode::GameAlreadyFull);
    }
    if ctx.game.player1.same_as(&ctx.player) {
        return Err(ErrorCode::CannotPlayAgainstYourself);
    }
    ctx.game.player2 = ctx.player;
    ctx.game.board_commit2 = board_commitment;
    ctx.game.is_initialized = true;
    ctx.game.turn = 1;
    Ok(())
}

/// Why a shot by `caller` at `(x, y)` is refused, if it is.
pub open spec fn fire_error(g: Game, caller: PlayerKey, x: u8, y: u8) -> Option<ErrorCode> {
    let role = role_of(g, caller);
    if !g.is_initialized {
        Some(ErrorCode::GameNotReady)
    } else if g.is_game_over {
        Some(ErrorCode::GameOver)
    } else if !(x < BOARD_SIDE && y < BOARD_SIDE) {
        Some(ErrorCode::InvalidCoordinate)
    } else if g.pending_shot is Some {
        Some(ErrorCode::ShotPending)
    } else if role == Role::Unknown {
        Some(ErrorCode::NotAPlayer)
    } else if g.turn != turn_of(role) {
        Some(ErrorCode::NotYourTurn)
    } else if target_grid(g, role)[cell_index(x as int, y as int)] != UNTOUCHED {
        Some(ErrorCode::AlreadyShotHere)
    } else {
        None
    }
}

/// The session after `caller` fired at `(x, y)`: the shot waits for its
/// report and nothing else changes.
pub open spec fn fire_post(g: Game, caller: PlayerKey, x: u8, y: u8, g2: Game) -> bool {
    g2 == Game { pending_shot: Some(PendingShot { x, y, firer: caller }), ..g }
}

/// The player to move names a coordinate of the opponent's board that was
/// never shot; the shot then waits for the defender's report.
pub fn fire_shot(ctx: &mut FireShot, x: u8, y: u8) -> (r: Result<(), ErrorCode>)
    requires
        old(ctx).game.wf(),
    ensures
        refused_or(
            r,
            fire_error(old(ctx).game, old(ctx).player, x, y),
            old(ctx).game,
            final(ctx).game,
            fire_post(old(ctx).game, old(ctx).player, x, y, final(ctx).game),
        ),
        final(ctx).game.wf(),
        final(ctx).player == old(ctx).player,
{
    if !ctx.game.is_initialized {
        return Err(ErrorCode::GameNotReady);
    }
    if ctx.game.is_game_over {
        return Err(ErrorCode::GameOver);
    }
    if !(x < BOARD_SIDE && y < BOARD_SIDE) {
        return Err(ErrorCode::InvalidCoordinate);
    }
    if ctx.game.pending_shot.is_some() {
        return Err(ErrorCode::ShotPending);
    }
    let role = ctx.game.role_of(&ctx.player);
    if role == Role::Unknown {
        return Err(ErrorCode::NotAPlayer);
    }
    let my_turn: u8 = if role == Role::A {
        1
    } else {
        2
    };
    if ctx.game.turn != my_turn {
        return Err(ErrorCode::NotYourTurn);
    }
    let index: usize = x as usize + 10 * y as usize;
    let target: u8 = if role == Role::A {
        ctx.game.board_hits2[index]
    } else {
        ctx.game.board_hits1[index]
    };
    if target != UNTOUCHED {
        return Err(ErrorCode::AlreadyShotHere);
    }
    ctx.game.pending_shot = Some(PendingShot { x, y, firer: ctx.player });
    Ok(())
}

/// Why a report by `caller` is refused, if it is.
pub open spec fn resolve_error(g: Game, caller: PlayerKey) -> Option<ErrorCode> {
    if !g.is_initialized {
        Some(ErrorCode::GameNotReady)
    } else if g.is_game_over {
        Some(ErrorCode::GameOver)
    } else if g.pending_shot is None {
        Some(ErrorCode::NoPendingShot)
    } else if role_of(g, caller) == Role::Unknown {
        Some(ErrorCode::NotAPlayer)
    } else if role_of(g, caller) == role_of(g, g.pending_shot->Some_0.firer) {
        Some(ErrorCode::NotDefender)
    } else {
        None
    }
}

/// The defender's damage after the pending shot of `g` is reported.
pub open spec fn damage_after(g: Game, was_hit: bool) -> int {
    let gain: int = if was_hit {
        1
    } else {
        0
    };
    if role_of(g, g.pending_shot->Some_0.firer) == Role::A {
        g.hits_count2 + gain
    } else {
        g.hits_count1 + gain
    }
}

/// The session after the defender reported the pending shot of `g`.
///
/// The mark goes into the defender's hit-grid and a hit adds one to the
/// defender's damage. When that damage reaches the fleet size the game is
/// over and the firer wins; otherwise the turn passes to the other player.
pub open spec fn resolve_post(g: Game, was_hit: bool, g2: Game) -> bool {
    let p = g.pending_shot->Some_0;
    let index = cell_index(p.x as int, p.y as int);
    let mark = if was_hit {
        HIT
    } else {
        MISS
    };
    let attacker = role_of(g, p.firer);
    let damage = damage_after(g, was_hit);
    let over = damage == FLEET_CELLS as int;
    &&& if attacker == Role::A {
        &&& g2.board_hits2@ == g.board_hits2@.update(index, mark)
        &&& g2.hits_count2 == damage
        &&& g2.board_hits1 == g.board_hits1
        &&& g2.hits_count1 == g.hits_count1
    } else {
        &&& g2.board_hits1@ == g.board_hits1@.update(index, mark)
        &&& g2.hits_count1 == damage
        &&& g2.board_hits2 == g.board_hits2
        &&& g2.hits_count2 == g.hits_count2
    }
    &&& g2.is_game_over == over
    &&& g2.winner == (if over {
        turn_of(attacker)
    } else {
        0
    })
    &&& g2.turn == (if over {
        g.turn
    } else {
        other_turn(g.turn)
    })
    &&& g2.pending_shot is None
    &&& g2.player1 == g.player1
    &&& g2.player2 == g.player2
    &&& g2.board_commit1 == g.board_commit1
    &&& g2.board_commit2 == g.board_commit2
    &&& g2.is_initialized == g.is_initialized
    &&& g2.player1_revealed == g.player1_revealed
    &&& g2.player2_revealed == g.player2_revealed
    &&& g2.bump == g.bump
}

/// The defender of the pending shot reports it as a hit or a miss.
pub fn reveal_shot_result(ctx: &mut RevealShotResult, was_hit: bool) -> (r: Result<(), ErrorCode>)
    requires
        old(ctx).game.wf(),
    ensures
        refused_or(
            r,
            resolve_error(old(ctx).game, old(ctx).player),
            old(ctx).game,
            final(ctx).game,
            resolve_post(old(ctx).game, was_hit, final(ctx).game),
        ),
        final(ctx).game.wf(),
        final(ctx).player == old(ctx).player,
{
    if !ctx.game.is_initialized {
        return Err(ErrorCode::GameNotReady);
    }
    if ctx.game.is_game_over {
        return Err(ErrorCode::GameOver);
    }
    let shot = match ctx.game.pending_shot {
        Some(p) => p,
        None => {
            return Err(ErrorCode::NoPendingShot);
        },
    };
    let role = ctx.game.role_of(&ctx.player);
    if role == Role::Unknown {
        return Err(ErrorCode::NotAPlayer);
    }
    let firer_role = ctx.game.role_of(&shot.firer);
    if role == firer_role {
        return Err(ErrorCode::NotDefender);
    }
    let ghost g0 = ctx.game;
    let index: usize = shot.x as usize + 10 * shot.y as usize;
    let mark: u8 = if was_hit {
        HIT
    } else {
        MISS
    };
    if role == Role::A {
        proof {
            lemma_count_update(g0.board_hits1@, index as int, mark, HIT);
        }
        ctx.game.board_hits1[index] = mark;
        if was_hit {
            ctx.game.hits_count1 = ctx.game.hits_count1 + 1;
        }
        if ctx.game.hits_count1 >= FLEET_CELLS {
            ctx.game.is_game_over = true;
            ctx.game.winner = 2;
        }
    } else {
        proof {
            lemma_count_update(g0.board_hits2@, index as int, mark, HIT);
        }
        ctx.game.board_hits2[index] = mark;
        if was_hit {
            ctx.game.hits_count2 = ctx.game.hits_count2 + 1;
        }
        if ctx.game.hits_count2 >= FLEET_CELLS {
            ctx.game.is_game_over = true;
            ctx.game.winner = 1;
        }
    }
    ctx.game.pending_shot = None;
    if !ctx.game.is_game_over {
        ctx.game.turn = if ctx.game.turn == 1 {
            2
        } else {
            1
        };
    }
    Ok(())
}

/// Why a reveal of a board by `caller` is refused, if it is: `digest` is the
/// digest of the revealed board and salt, and `is_player1` says whose board
/// it claims to be.
pub open spec fn reveal_error(
    g: Game,
    caller: PlayerKey,
    is_player1: bool,
    board: Seq<u8>,
    digest: Seq<u8>,
) -> Option<ErrorCode> {
    let commitment = if is_player1 {
        g.board_commit1@
    } else {
        g.board_commit2@
    };
    let revealed = if is_player1 {
        g.player1_revealed
    } else {
        g.player2_revealed
    };
    if !g.is_game_over {
        Some(ErrorCode::GameNotOver)
    } else if is_player1 && !same_key(caller, g.player1) {
        Some(ErrorCode::NotPlayer1)
    } else if !is_player1 && !same_key(caller, g.player2) {
        Some(ErrorCode::NotPlayer2)
    } else if revealed {
        Some(ErrorCode::AlreadyRevealed)
    } else if digest != commitment {
        Some(ErrorCode::CommitmentMismatch)
    } else if count_value(board, SHIP) != FLEET_CELLS as nat {
        Some(ErrorCode::InvalidFleetConfiguration)
    } else if !board_consistent(own_grid(g, is_player1), board) {
        Some(ErrorCode::CheatingDetected)
    } else {
        None
    }
}

/// The session after a player's board was revealed and passed the audit:
/// only that player's revealed flag changes.
pub open spec fn reveal_post(g: Game, is_player1: bool, g2: Game) -> bool {
    if is_player1 {
        g2 == Game { player1_revealed: true, ..g }
    } else {
        g2 == Game { player2_revealed: true, ..g }
    }
}

/// Audits a revealed board whose digest with its salt is `computed_hash`:
/// the digest must equal the player's commitment, the board must hold a
/// standard fleet, and every report made about it must agree with it.
pub fn apply_board_reveal(
    ctx: &mut RevealBoard,
    is_player1: bool,
    original_board: &[u8; 100],
    computed_hash: &[u8; 32],
) -> (r: Result<(), ErrorCode>)
    requires
        old(ctx).game.wf(),
    ensures
        refused_or(
            r,
            reveal_error(old(ctx).game, old(ctx).player, is_player1, original_board@, computed_hash@),
            old(ctx).game,
            final(ctx).game,
            reveal_post(old(ctx).game, is_player1, final(ctx).game),
        ),
        final(ctx).game.wf(),
        final(ctx).player == old(ctx).player,
{
    if !ctx.game.is_game_over {
        return Err(ErrorCode::GameNotOver);
    }
    if is_player1 && !ctx.player.same_as(&ctx.game.player1) {
        return Err(ErrorCode::NotPlayer1);
    }
    if !is_player1 && !ctx.player.same_as(&ctx.game.player2) {
        return Err(ErrorCode::NotPlayer2);
    }
    let revealed = if is_player1 {
        ctx.game.player1_revealed
    } else {
        ctx.game.player2_revealed
    };
    if revealed {
        return Err(ErrorCode::AlreadyRevealed);
    }
    let commitment: &[u8; 32] = if is_player1 {
        &ctx.game.board_commit1
    } else {
        &ctx.game.board_commit2
    };
    if !digests_equal(computed_hash, commitment) {
        return Err(ErrorCode::CommitmentMismatch);
    }
    if count_ship_cells(original_board) != FLEET_CELLS as usize {
        return Err(ErrorCode::InvalidFleetConfiguration);
    }
    let audit = verify_shot_consistency(&ctx.game, original_board, is_player1);
    if audit.is_err() {
        return Err(ErrorCode::CheatingDetected);
    }
    if is_player1 {
        ctx.game.player1_revealed = true;
    } else {
        ctx.game.player2_revealed = true;
    }
    Ok(())
}

/// Whether two digests hold the same bytes.
fn digests_equal(a: &[u8; 32], b: &[u8; 32]) -> (r: bool)
    ensures
        r == (a@ == b@),
{
    let mut i: usize = 0;
    while i < 32
        invariant
            0 <= i <= 32,
            forall|j: int| 0 <= j < i ==> a@[j] == b@[j],
        decreases 32 - i,
    {
        if a[i] != b[i] {
            return false;
        }
        i = i + 1;
    }
    assert(a@ =~= b@);
    true
}

/// Player 1 reveals the board and salt committed to at creation.
pub fn reveal_board_player1(ctx: &mut RevealBoard, original_board: [u8; 100], salt: [u8; 32]) -> (r:
    Result<(), ErrorCode>)
    requires
        old(ctx).game.wf(),
    ensures
        refused_or(
            r,
            reveal_error(
                old(ctx).game,
                old(ctx).player,
                true,
                original_board@,
                commitment_of(original_board@, salt@),
            ),
            old(ctx).game,
            final(ctx).game,
            reveal_post(old(ctx).game, true, final(ctx).game),
        ),
        final(ctx).game.wf(),
        final(ctx).player == old(ctx).player,
{
    let computed_hash = board_commitment(&original_board, &salt);
    apply_board_reveal(ctx, true, &original_board, &computed_hash)
}

/// Player 2 reveals the board and salt committed to when joining.
pub fn reveal_board_player2(ctx: &mut RevealBoard, original_board: [u8; 100], salt: [u8; 32]) -> (r:
    Result<(), ErrorCode>)
    requires
        old(ctx).game.wf(),
    ensures
        refused_or(
            r,
            reveal_error(
                old(ctx).game,
                old(ctx).player,
                false,
                original_board@,
                commitment_of(original_board@, salt@),
            ),
            old(ctx).game,
            final(ctx).game,
            reveal_post(old(ctx).game, false, final(ctx).game),
        ),
        final(ctx).game.wf(),
        final(ctx).player == old(ctx).player,
{
    let computed_hash = board_commitment(&original_board, &salt);
    apply_board_reveal(ctx, false, &original_board, &computed_hash)
}

} // verus!
