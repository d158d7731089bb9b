//! Properties of the protocol that span several operations, proved over the
//! outcomes that the operations' contracts state.
use vstd::prelude::*;
use crate::audit::{board_consistent, cell_consistent, commitment_of, own_grid};
use crate::game::{
    cell_index, count_value, lemma_count_update, other_turn, role_of,
    target_grid, turn_of, ErrorCode, Game, PlayerKey, Role, FLEET_CELLS, HIT, MISS, SHIP,
    UNTOUCHED,
};
use crate::instructions::{
    damage_after, fire_error, fire_post, resolve_error, resolve_post, reveal_error, reveal_post,
};

verus! {

/// `g2` keeps the players of `g` and every mark already written in its
/// hit-grids.
pub open spec fn marks_kept(g: Game, g2: Game) -> bool {
    &&& g2.player1 == g.player1
    &&& g2.player2 == g.player2
    &&& forall|i: int|
        0 <= i < 100 && g.board_hits1@[i] != UNTOUCHED ==> #[trigger] g2.board_hits1@[i]
            == g.board_hits1@[i]
    &&& forall|i: int|
        0 <= i < 100 && g.board_hits2@[i] != UNTOUCHED ==> #[trigger] g2.board_hits2@[i]
            == g.board_hits2@[i]
}

/// A successful shot keeps the session well formed.
pub proof fn lemma_fire_keeps_wf(g: Game, caller: PlayerKey, x: u8, y: u8, g2: Game)
    requires
        g.wf(),
        fire_error(g, caller, x, y) is None,
        fire_post(g, caller, x, y, g2),
    ensures
        g2.wf(),
{
}

/// A successful report keeps the session well formed.
pub proof fn lemma_resolve_keeps_wf(g: Game, caller: PlayerKey, was_hit: bool, g2: Game)
    requires
        g.wf(),
        resolve_error(g, caller) is None,
        resolve_post(g, was_hit, g2),
    ensures
        g2.wf(),
{
    let p = g.pending_shot->Some_0;
    let index = cell_index(p.x as int, p.y as int);
    let mark = if was_hit {
        HIT
    } else {
        MISS
    };
    if role_of(g, p.firer) == Role::A {
        lemma_count_update(g.board_hits2@, index, mark, HIT);
    } else {
        lemma_count_update(g.board_hits1@, index, mark, HIT);
    }
}

/// Marks stay written: from a state to a later one to a still later one.
pub proof fn lemma_marks_kept_trans(g1: Game, g2: Game, g3: Game)
    requires
        marks_kept(g1, g2),
        marks_kept(g2, g3),
    ensures
        marks_kept(g1, g3),
{
}

/// A successful shot, report or reveal overwrites no mark and changes no
/// player.
pub proof fn lemma_operations_keep_marks(
    g: Game,
    caller: PlayerKey,
    x: u8,
    y: u8,
    was_hit: bool,
    is_player1: bool,
    board: Seq<u8>,
    digest: Seq<u8>,
    g2: Game,
)
    requires
        g.wf(),
    ensures
        fire_error(g, caller, x, y) is None && fire_post(g, caller, x, y, g2) ==> marks_kept(g, g2),
        resolve_error(g, caller) is None && resolve_post(g, was_hit, g2) ==> marks_kept(g, g2),
        reveal_error(g, caller, is_player1, board, digest) is None && reveal_post(g, is_player1, g2)
            ==> marks_kept(g, g2),
{
}

/// Turns alternate: after a shot and its report that do not end the game,
/// the turn has passed to the other player, and the session is still well
/// formed for the next pair.
pub proof fn lemma_turn_alternates(
    g0: Game,
    attacker: PlayerKey,
    x: u8,
    y: u8,
    g1: Game,
    defender: PlayerKey,
    was_hit: bool,
    g2: Game,
)
    requires
        g0.wf(),
        fire_error(g0, attacker, x, y) is None,
        fire_post(g0, attacker, x, y, g1),
        resolve_error(g1, defender) is None,
        resolve_post(g1, was_hit, g2),
        !g2.is_game_over,
    ensures
        g0.turn == turn_of(role_of(g0, attacker)),
        g2.turn == other_turn(g0.turn),
        g2.turn != g0.turn,
        g2.wf(),
{
    lemma_fire_keeps_wf(g0, attacker, x, y, g1);
    lemma_resolve_keeps_wf(g1, defender, was_hit, g2);
}

/// Round `k` of a run: a successful shot by `attackers[k]` at
/// `(xs[k], ys[k])` leads from `states[2k]` to `states[2k + 1]`, and a
/// successful report of `hits[k]` by `defenders[k]` from there to
/// `states[2k + 2]`.
pub open spec fn round_played(
    states: Seq<Game>,
    attackers: Seq<PlayerKey>,
    xs: Seq<u8>,
    ys: Seq<u8>,
    defenders: Seq<PlayerKey>,
    hits: Seq<bool>,
    k: int,
) -> bool {
    &&& fire_error(states[2 * k], attackers[k], xs[k], ys[k]) is None
    &&& fire_post(states[2 * k], attackers[k], xs[k], ys[k], states[2 * k + 1])
    &&& resolve_error(states[2 * k + 1], defenders[k]) is None
    &&& resolve_post(states[2 * k + 1], hits[k], states[2 * k + 2])
}

/// A run of rounds, none of which ends the game, from a well-formed
/// session.
pub open spec fn running_rounds(
    states: Seq<Game>,
    attackers: Seq<PlayerKey>,
    xs: Seq<u8>,
    ys: Seq<u8>,
    defenders: Seq<PlayerKey>,
    hits: Seq<bool>,
) -> bool {
    let n = attackers.len() as int;
    &&& states.len() == 2 * n + 1
    &&& xs.len() == n
    &&& ys.len() == n
    &&& defenders.len() == n
    &&& hits.len() == n
    &&& states[0].wf()
    &&& forall|k: int|
        0 <= k < n ==> #[trigger] round_played(states, attackers, xs, ys, defenders, hits, k)
    &&& forall|k: int| 0 <= k < n ==> !(#[trigger] states[2 * k + 2]).is_game_over
}

/// The turn at the start of round `k` of a run that started with `first`.
pub open spec fn turn_at_round(first: u8, k: int) -> u8 {
    if k % 2 == 0 {
        first
    } else {
        other_turn(first)
    }
}

proof fn lemma_rounds_prefix(
    states: Seq<Game>,
    attackers: Seq<PlayerKey>,
    xs: Seq<u8>,
    ys: Seq<u8>,
    defenders: Seq<PlayerKey>,
    hits: Seq<bool>,
    k: int,
)
    requires
        running_rounds(states, attackers, xs, ys, defenders, hits),
        0 <= k <= attackers.len(),
    ensures
        states[2 * k].wf(),
        states[2 * k].turn == turn_at_round(states[0].turn, k),
    decreases k,
{
    if k > 0 {
        let j = k - 1;
        lemma_rounds_prefix(states, attackers, xs, ys, defenders, hits, j);
        assert(round_played(states, attackers, xs, ys, defenders, hits, j));
        assert(!states[2 * j + 2].is_game_over);
        lemma_turn_alternates(
            states[2 * j],
            attackers[j],
            xs[j],
            ys[j],
            states[2 * j + 1],
            defenders[j],
            hits[j],
            states[2 * j + 2],
        );
    }
}

/// Turns alternate over any run of shots and reports that does not end the
/// game: round `k` starts with the first player's turn when `k` is even and
/// with the other player's when it is odd, and each round's shooter is the
/// player whose turn it is.
pub proof fn lemma_turns_alternate_over_rounds(
    states: Seq<Game>,
    attackers: Seq<PlayerKey>,
    xs: Seq<u8>,
    ys: Seq<u8>,
    defenders: Seq<PlayerKey>,
    hits: Seq<bool>,
)
    requires
        running_rounds(states, attackers, xs, ys, defenders, hits),
    ensures
        forall|k: int|
            0 <= k <= attackers.len() ==> #[trigger] states[2 * k].turn == turn_at_round(
                states[0].turn,
                k,
            ),
        forall|k: int|
            0 <= k < attackers.len() ==> turn_of(role_of(states[2 * k], #[trigger] attackers[k]))
                == turn_at_round(states[0].turn, k),
{
    assert forall|k: int| 0 <= k <= attackers.len() implies #[trigger] states[2 * k].turn
        == turn_at_round(states[0].turn, k) by {
        lemma_rounds_prefix(states, attackers, xs, ys, defenders, hits, k);
    }
    assert forall|k: int| 0 <= k < attackers.len() implies turn_of(
        role_of(states[2 * k], #[trigger] attackers[k]),
    ) == turn_at_round(states[0].turn, k) by {
        lemma_rounds_prefix(states, attackers, xs, ys, defenders, hits, k);
        assert(round_played(states, attackers, xs, ys, defenders, hits, k));
    }
}

/// No coordinate is shot twice: once a shot at `(x, y)` was reported, a
/// later shot at `(x, y)` against the same defender is refused, and with
/// `AlreadyShotHere` whenever the game is running, no shot is pending and it
/// is the shooter's turn.
pub proof fn lemma_no_retarget(
    g1: Game,
    defender: PlayerKey,
    was_hit: bool,
    g2: Game,
    g3: Game,
    attacker: PlayerKey,
)
    requires
        g1.wf(),
        resolve_error(g1, defender) is None,
        resolve_post(g1, was_hit, g2),
        marks_kept(g2, g3),
        role_of(g3, attacker) == role_of(g1, g1.pending_shot->Some_0.firer),
    ensures
        ({
            let p = g1.pending_shot->Some_0;
            &&& fire_error(g3, attacker, p.x, p.y) is Some
            &&& g3.is_initialized && !g3.is_game_over && g3.pending_shot is None && g3.turn
                == turn_of(role_of(g3, attacker)) ==> fire_error(g3, attacker, p.x, p.y) == Some(
                ErrorCode::AlreadyShotHere,
            )
        }),
{
    let p = g1.pending_shot->Some_0;
    let index = cell_index(p.x as int, p.y as int);
    let role = role_of(g3, attacker);
    assert(target_grid(g2, role)[index] != UNTOUCHED);
    assert(target_grid(g3, role)[index] != UNTOUCHED);
}

/// The game ends exactly when a report brings the defender's damage to the
/// fleet size, and the firer of that shot is the winner; before that the
/// game runs and has no winner.
pub proof fn lemma_win_threshold(g1: Game, defender: PlayerKey, was_hit: bool, g2: Game)
    requires
        g1.wf(),
        resolve_error(g1, defender) is None,
        resolve_post(g1, was_hit, g2),
    ensures
        !g1.is_game_over,
        g1.winner == 0,
        g2.is_game_over <==> damage_after(g1, was_hit) == FLEET_CELLS as int,
        g2.is_game_over ==> g2.winner == turn_of(role_of(g1, g1.pending_shot->Some_0.firer)),
        !g2.is_game_over ==> g2.winner == 0,
        role_of(g1, g1.pending_shot->Some_0.firer) == Role::A ==> g2.hits_count2 == damage_after(
            g1,
            was_hit,
        ),
        role_of(g1, g1.pending_shot->Some_0.firer) == Role::B ==> g2.hits_count1 == damage_after(
            g1,
            was_hit,
        ),
{
}

/// A shot never ends a game, nor starts one.
pub proof fn lemma_fire_keeps_phase(g: Game, caller: PlayerKey, x: u8, y: u8, g2: Game)
    requires
        fire_error(g, caller, x, y) is None,
        fire_post(g, caller, x, y, g2),
    ensures
        g2.is_game_over == g.is_game_over,
        g2.is_initialized == g.is_initialized,
        g2.winner == g.winner,
{
}

/// A reveal succeeds only on a board and salt whose digest is the
/// commitment that the player made.
pub proof fn lemma_reveal_binds_commitment(
    g: Game,
    caller: PlayerKey,
    is_player1: bool,
    board: Seq<u8>,
    salt: Seq<u8>,
)
    requires
        reveal_error(g, caller, is_player1, board, commitment_of(board, salt)) is None,
    ensures
        is_player1 ==> commitment_of(board, salt) == g.board_commit1@,
        !is_player1 ==> commitment_of(board, salt) == g.board_commit2@,
{
}

/// A board agrees with its hit-grid exactly when no miss lies on a ship and
/// no hit lies off one.
pub proof fn lemma_cheating_soundness(hits: Seq<u8>, board: Seq<u8>)
    requires
        hits.len() == 100,
        board.len() == 100,
    ensures
        board_consistent(hits, board) <==> !(exists|i: int|
            0 <= i < 100 && ((hits[i] == MISS && board[i] == SHIP) || (hits[i] == HIT && board[i]
                != SHIP))),
{
    if !board_consistent(hits, board) {
        let i = choose|i: int| 0 <= i < 100 && !#[trigger] cell_consistent(hits[i], board[i]);
        assert((hits[i] == MISS && board[i] == SHIP) || (hits[i] == HIT && board[i] != SHIP));
    } else {
        assert forall|i: int| 0 <= i < 100 implies !((hits[i] == MISS && board[i] == SHIP) || (
        hits[i] == HIT && board[i] != SHIP)) by {
            assert(cell_consistent(hits[i], board[i]));
        }
    }
}

/// The audit's verdict on a reveal that passed every earlier check: it is
/// refused with `CheatingDetected` if some report contradicts the board,
/// and accepted if every report agrees with it.
pub proof fn lemma_audit_verdict(
    g: Game,
    caller: PlayerKey,
    is_player1: bool,
    board: Seq<u8>,
    digest: Seq<u8>,
)
    requires
        g.is_game_over,
        is_player1 ==> role_of(g, caller) == Role::A && !g.player1_revealed && digest
            == g.board_commit1@,
        !is_player1 ==> caller.bytes@ == g.player2.bytes@ && !g.player2_revealed && digest
            == g.board_commit2@,
        count_value(board, SHIP) == FLEET_CELLS as nat,
    ensures
        board_consistent(own_grid(g, is_player1), board) ==> reveal_error(
            g,
            caller,
            is_player1,
            board,
            digest,
        ) is None,
        !board_consistent(own_grid(g, is_player1), board) ==> reveal_error(
            g,
            caller,
            is_player1,
            board,
            digest,
        ) == Some(ErrorCode::CheatingDetected),
{
}

} // verus!
