//! The post-game audit: commitment digests, fleet size and the cross-check of
//! a revealed board against the reports made about it.
use vstd::prelude::*;
use crate::game::{count_cells, count_value, Game, ErrorCode, BOARD_CELLS, HIT, MISS, SHIP};

verus! {

/// The SHA-256 digest of `data`.
pub uninterp spec fn sha256_of(data: Seq<u8>) -> Seq<u8>;

/// The digest that commits to `board` with `salt`: that of the board's bytes
/// followed by the salt's.
pub open spec fn commitment_of(board: Seq<u8>, salt: Seq<u8>) -> Seq<u8> {
    sha256_of(board + salt)
}

/// Relies on anchor_lang::solana_program::hash::hash, which returns the
/// SHA-256 digest of its input; the digest depends on the bytes alone.
#[verifier::external_body]
fn hash_bytes(data: &Vec<u8>) -> (r: [u8; 32])
    ensures
        r@ == sha256_of(data@),
{
    anchor_lang::solana_program::hash::hash(data.as_slice()).to_bytes()
}

/// The bytes that a commitment is taken over: the board, then the salt.
pub fn commitment_preimage(board: &[u8; 100], salt: &[u8; 32]) -> (r: Vec<u8>)
    ensures
        r@ == board@ + salt@,
{
    let mut data: Vec<u8> = Vec::new();
    let mut i: usize = 0;
    while i < BOARD_CELLS
        invariant
            0 <= i <= 100,
            data@ == board@.subrange(0, i as int),
        decreases 100 - i,
    {
        data.push(board[i]);
        i = i + 1;
        assert(data@ =~= board@.subrange(0, i as int));
    }
    let mut j: usize = 0;
    while j < 32
        invariant
            0 <= j <= 32,
            data@ == board@ + salt@.subrange(0, j as int),
        decreases 32 - j,
    {
        data.push(salt[j]);
        j = j + 1;
        assert(data@ =~= board@ + salt@.subrange(0, j as int));
    }
    assert(salt@.subrange(0, 32) =~= salt@);
    assert(board@.subrange(0, 100) =~= board@);
    data
}

/// The digest of `board` followed by `salt`.
pub fn board_commitment(board: &[u8; 100], salt: &[u8; 32]) -> (r: [u8; 32])
    ensures
        r@ == commitment_of(board@, salt@),
{
    let data = commitment_preimage(board, salt);
    hash_bytes(&data)
}

/// How many cells of a revealed board are ship-occupied.
pub fn count_ship_cells(board: &[u8; 100]) -> (r: usize)
    ensures
        r == count_value(board@, SHIP),
{
    count_cells(board, SHIP)
}

/// A reported mark agrees with a revealed cell: a miss lies on a cell
/// without a ship, a hit on a cell with one, and an untouched cell says
/// nothing.
pub open spec fn cell_consistent(mark: u8, cell: u8) -> bool {
    &&& mark == MISS ==> cell != SHIP
    &&& mark == HIT ==> cell == SHIP
}

/// Every report in `hits` agrees with the revealed `board`.
pub open spec fn board_consistent(hits: Seq<u8>, board: Seq<u8>) -> bool {
    forall|i: int| 0 <= i < 100 ==> #[trigger] cell_consistent(hits[i], board[i])
}

/// The hit-grid of player 1 when `is_player1_board`, else that of player 2.
pub open spec fn own_grid(g: Game, is_player1_board: bool) -> Seq<u8> {
    if is_player1_board {
        g.board_hits1@
    } else {
        g.board_hits2@
    }
}

/// Cross-checks a revealed board against the hit-grid of its owner: fails
/// with `CheatingDetected` exactly when some reported mark contradicts it.
pub fn verify_shot_consistency(game: &Game, revealed_board: &[u8; 100], is_player1_board: bool) -> (r:
    Result<(), ErrorCode>)
    ensures
        r is Ok <==> board_consistent(own_grid(*game, is_player1_board), revealed_board@),
        r is Err ==> r == Err::<(), ErrorCode>(ErrorCode::CheatingDetected),
{
    let hits_board: &[u8; 100] = if is_player1_board {
        &game.board_hits1
    } else {
        &game.board_hits2
    };
    let mut i: usize = 0;
    while i < BOARD_CELLS
        invariant
            0 <= i <= 100,
            hits_board@ == own_grid(*game, is_player1_board),
            forall|j: int| 0 <= j < i ==> #[trigger] cell_consistent(hits_board@[j], revealed_board@[j]),
        decreases 100 - i,
    {
        let mark = hits_board[i];
        let cell = revealed_board[i];
        if mark == MISS && cell == SHIP {
            assert(!cell_consistent(hits_board@[i as int], revealed_board@[i as int]));
            return Err(ErrorCode::CheatingDetected);
        }
        if mark == HIT && cell != SHIP {
            assert(!cell_consistent(hits_board@[i as int], revealed_board@[i as int]));
            return Err(ErrorCode::CheatingDetected);
        }
        i = i + 1;
    }
    Ok(())
}

} // verus!
