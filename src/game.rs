//! The session record of one match and the facts that hold of it between
//! operations.
use vstd::prelude::*;

verus! {

/// Side length of a board.
pub const BOARD_SIDE: u8 = 10;

/// Number of cells on a board.
pub const BOARD_CELLS: usize = 100;

/// Number of ship-occupied cells of a standard fleet; a side whose damage
/// reaches it is defeated.
pub const FLEET_CELLS: u8 = 17;

/// Hit-grid mark of a cell that was never shot.
pub const UNTOUCHED: u8 = 0;

/// Hit-grid mark of a cell that its defender reported as a miss.
pub const MISS: u8 = 1;

/// Hit-grid mark of a cell that its defender reported as a hit.
pub const HIT: u8 = 2;

/// Cell value that marks a ship-occupied cell on a revealed board.
pub const SHIP: u8 = 1;

/// The identity of a caller: a 32-byte public key.
#[derive(Clone, Copy, Debug)]
pub struct PlayerKey {
    pub bytes: [u8; 32],
}

/// Two keys name the same party when their bytes agree.
pub open spec fn same_key(a: PlayerKey, b: PlayerKey) -> bool {
    a.bytes@ == b.bytes@
}

impl PlayerKey {
    pub fn new(bytes: [u8; 32]) -> (r: PlayerKey)
        ensures
            r.bytes == bytes,
    {
        PlayerKey { bytes }
    }

    /// The all-zero key, which stands for an identity that is not set yet.
    pub fn unset() -> (r: PlayerKey)
        ensures
            forall|i: int| 0 <= i < 32 ==> r.bytes@[i] == 0,
    {
        PlayerKey { bytes: [0u8; 32] }
    }

    pub fn same_as(&self, other: &PlayerKey) -> (r: bool)
        ensures
            r == same_key(*self, *other),
    {
        let mut i: usize = 0;
        while i < 32
            invariant
                0 <= i <= 32,
                forall|j: int| 0 <= j < i ==> self.bytes@[j] == other.bytes@[j],
            decreases 32 - i,
        {
            if self.bytes[i] != other.bytes[i] {
                return false;
            }
            i = i + 1;
        }
        assert(self.bytes@ =~= other.bytes@);
        true
    }
}

/// Which side of a game a caller is on.
#[derive(Clone, Copy, Debug, PartialEq, Eq, Structural)]
pub enum Role {
    A,
    B,
    Unknown,
}

/// The reasons an operation is refused. A refused operation leaves the
/// session as it was.
#[derive(Clone, Copy, Debug, PartialEq, Eq, Structural)]
pub enum ErrorCode {
    GameAlreadyFull,
    GameNotReady,
    GameOver,
    GameNotOver,
    InvalidCoordinate,
    AlreadyShotHere,
    NotYourTurn,
    NotAPlayer,
    CannotPlayAgainstYourself,
    NotDefender,
    NoPendingShot,
    ShotPending,
    CommitmentMismatch,
    InvalidFleetConfiguration,
    NotPlayer1,
    NotPlayer2,
    AlreadyRevealed,
    CheatingDetected,
}

/// A shot that was fired and whose result the defender has not reported yet.
#[derive(Clone, Copy, Debug)]
pub struct PendingShot {
    pub x: u8,
    pub y: u8,
    pub firer: PlayerKey,
}

/// The record of one match.
///
/// `turn` is 1 while player 1 is to move and 2 while player 2 is; `winner` is
/// 0 until the game is over and then the number of the winning player. The
/// hit-grids hold what each defender reported about their own board, one cell
/// per coordinate `(x, y)` at index `x + 10 * y`: `UNTOUCHED`, `MISS` or
/// `HIT`.
#[derive(Clone, Copy, Debug)]
pub struct Game {
    pub player1: PlayerKey,
    pub player2: PlayerKey,
    pub board_commit1: [u8; 32],
    pub board_commit2: [u8; 32],
    pub turn: u8,
    pub board_hits1: [u8; 100],
    pub board_hits2: [u8; 100],
    pub hits_count1: u8,
    pub hits_count2: u8,
    pub is_initialized: bool,
    pub is_game_over: bool,
    pub winner: u8,
    pub pending_shot: Option<PendingShot>,
    pub player1_revealed: bool,
    pub player2_revealed: bool,
    pub bump: u8,
}

/// The hit-grid index of coordinate `(x, y)`.
pub open spec fn cell_index(x: int, y: int) -> int {
    x + 10 * y
}

/// How many cells of `s` hold `v`.
pub open spec fn count_value(s: Seq<u8>, v: u8) -> nat
    decreases s.len(),
{
    if s.len() == 0 {
        0
    } else {
        count_value(s.drop_last(), v) + if s.last() == v {
            1nat
        } else {
            0nat
        }
    }
}

/// Every cell of a hit-grid holds one of the three marks.
pub open spec fn grid_marks_ok(s: Seq<u8>) -> bool {
    &&& s.len() == 100
    &&& forall|i: int| 0 <= i < 100 ==> #[trigger] s[i] <= HIT
}

/// The role of `caller` in `g`: player 1 is checked first.
pub open spec fn role_of(g: Game, caller: PlayerKey) -> Role {
    if same_key(caller, g.player1) {
        Role::A
    } else if same_key(caller, g.player2) {
        Role::B
    } else {
        Role::Unknown
    }
}

/// The `turn` value of the side `r`.
pub open spec fn turn_of(r: Role) -> u8 {
    if r == Role::A {
        1
    } else {
        2
    }
}

/// The other side's `turn` value.
pub open spec fn other_turn(t: u8) -> u8 {
    if t == 1 {
        2
    } else {
        1
    }
}

/// The hit-grid of the side attacked by `attacker`.
pub open spec fn target_grid(g: Game, attacker: Role) -> Seq<u8> {
    if attacker == Role::A {
        g.board_hits2@
    } else {
        g.board_hits1@
    }
}

impl Game {
    /// The invariant of a session between operations.
    pub open spec fn wf(self) -> bool {
        &&& self.turn == 1 || self.turn == 2
        &&& grid_marks_ok(self.board_hits1@)
        &&& grid_marks_ok(self.board_hits2@)
        &&& self.hits_count1 == count_value(self.board_hits1@, HIT)
        &&& self.hits_count2 == count_value(self.board_hits2@, HIT)
        &&& self.is_initialized ==> !same_key(self.player1, self.player2)
        &&& !self.is_initialized ==> {
            &&& !self.is_game_over
            &&& self.turn == 1
            &&& self.hits_count1 == 0
            &&& self.hits_count2 == 0
        }
        &&& !self.is_game_over ==> {
            &&& self.winner == 0
            &&& self.hits_count1 < FLEET_CELLS
            &&& self.hits_count2 < FLEET_CELLS
            &&& !self.player1_revealed
            &&& !self.player2_revealed
        }
        &&& self.is_game_over ==> {
            &&& self.pending_shot is None
            &&& (self.winner == 1 && self.hits_count2 == FLEET_CELLS) || (self.winner == 2
                && self.hits_count1 == FLEET_CELLS)
        }
        &&& self.pending_shot matches Some(p) ==> {
            &&& self.is_initialized
            &&& p.x < 10
            &&& p.y < 10
            &&& role_of(self, p.firer) != Role::Unknown
            &&& self.turn == turn_of(role_of(self, p.firer))
            &&& target_grid(self, role_of(self, p.firer))[cell_index(p.x as int, p.y as int)]
                == UNTOUCHED
        }
    }

    /// Whether the record satisfies the session invariant: what a record
    /// read back from storage is checked against before it is used.
    pub fn is_well_formed(&self) -> (r: bool)
        ensures
            r == self.wf(),
    {
        if !(self.turn == 1 || self.turn == 2) {
            return false;
        }
        if !marks_in_range(&self.board_hits1) || !marks_in_range(&self.board_hits2) {
            return false;
        }
        if count_cells(&self.board_hits1, HIT) != self.hits_count1 as usize {
            return false;
        }
        if count_cells(&self.board_hits2, HIT) != self.hits_count2 as usize {
            return false;
        }
        if self.is_initialized && self.player1.same_as(&self.player2) {
            return false;
        }
        if !self.is_initialized && (self.is_game_over || self.turn != 1 || self.hits_count1 != 0
            || self.hits_count2 != 0) {
            return false;
        }
        if !self.is_game_over && (self.winner != 0 || self.hits_count1 >= FLEET_CELLS
            || self.hits_count2 >= FLEET_CELLS || self.player1_revealed || self.player2_revealed) {
            return false;
        }
        if self.is_game_over {
            if self.pending_shot.is_some() {
                return false;
            }
            if !((self.winner == 1 && self.hits_count2 == FLEET_CELLS) || (self.winner == 2
                && self.hits_count1 == FLEET_CELLS)) {
                return false;
            }
        }
        match self.pending_shot {
            Some(p) => {
                if !self.is_initialized || !(p.x < BOARD_SIDE && p.y < BOARD_SIDE) {
                    return false;
                }
                let role = self.role_of(&p.firer);
                if role == Role::Unknown {
                    return false;
                }
                let turn: u8 = if role == Role::A {
                    1
                } else {
                    2
                };
                if self.turn != turn {
                    return false;
                }
                let index: usize = p.x as usize + 10 * p.y as usize;
                let target: u8 = if role == Role::A {
                    self.board_hits2[index]
                } else {
                    self.board_hits1[index]
                };
                if target != UNTOUCHED {
                    return false;
                }
            },
            None => {},
        }
        true
    }

    /// Which side `caller` is on.
    pub fn role_of(&self, caller: &PlayerKey) -> (r: Role)
        ensures
            r == role_of(*self, *caller),
    {
        if caller.same_as(&self.player1) {
            Role::A
        } else if caller.same_as(&self.player2) {
            Role::B
        } else {
            Role::Unknown
        }
    }
}

/// Whether every cell of a hit-grid holds one of the three marks.
pub fn marks_in_range(cells: &[u8; 100]) -> (r: bool)
    ensures
        r == grid_marks_ok(cells@),
{
    let mut i: usize = 0;
    while i < BOARD_CELLS
        invariant
            0 <= i <= 100,
            forall|j: int| 0 <= j < i ==> #[trigger] cells@[j] <= HIT,
        decreases 100 - i,
    {
        if cells[i] > HIT {
            return false;
        }
        i = i + 1;
    }
    true
}

/// How many of the cells hold `v`.
pub fn count_cells(cells: &[u8; 100], v: u8) -> (r: usize)
    ensures
        r == count_value(cells@, v),
{
    let mut n: usize = 0;
    let mut i: usize = 0;
    while i < BOARD_CELLS
        invariant
            0 <= i <= 100,
            n == count_value(cells@.subrange(0, i as int), v),
            n <= i,
        decreases 100 - i,
    {
        assert(cells@.subrange(0, i + 1).drop_last() =~= cells@.subrange(0, i as int));
        if cells[i] == v {
            n = n + 1;
        }
        i = i + 1;
    }
    assert(cells@.subrange(0, 100) =~= cells@);
    n
}

/// Writing `w` at index `i` changes the count of `v` by what left and what
/// came.
pub proof fn lemma_count_update(s: Seq<u8>, i: int, w: u8, v: u8)
    requires
        0 <= i < s.len(),
    ensures
        count_value(s.update(i, w), v) + (if s[i] == v {
            1int
        } else {
            0int
        }) == count_value(s, v) + (if w == v {
            1int
        } else {
            0int
        }),
    decreases s.len(),
{
    let t = s.update(i, w);
    if i == s.len() - 1 {
        assert(t.drop_last() =~= s.drop_last());
    } else {
        assert(t.drop_last() =~= s.drop_last().update(i, w));
        lemma_count_update(s.drop_last(), i, w, v);
    }
}

/// A sequence of zeros holds no nonzero value.
pub proof fn lemma_count_zeros(s: Seq<u8>, v: u8)
    requires
        v != 0,
        forall|i: int| 0 <= i < s.len() ==> s[i] == 0,
    ensures
        count_value(s, v) == 0,
    decreases s.len(),
{
    if s.len() > 0 {
        lemma_count_zeros(s.drop_last(), v);
    }
}

} // verus!
