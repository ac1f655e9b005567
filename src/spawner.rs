//! The difficulty ramp: how often opponents spawn, how fast they move, and
//! which kind appears.

use crate::board::{cell, Board, TileType, N_TILES};
use crate::pieces::Piece;
use crate::timer::{Timer, TimerMode};
use vstd::prelude::*;

verus! {

/// Spawn interval at the start, in microseconds.
pub const MAX_SPAWN_DUR: u64 = 1_500_000;
/// Shortest spawn interval.
pub const MIN_SPAWN_DUR: u64 = 600_000;
/// How much the spawn interval shrinks with each spawn.
pub const SPAWN_DUR_DECR: u64 = 100_000;

/// Base move time of a new opponent at the start, in microseconds; a
/// smaller move time is a faster opponent.
pub const MAX_OPP_SPEED: u64 = 1_200_000;
/// Smallest base move time.
pub const MIN_OPP_SPEED: u64 = 400_000;
/// How much the base move time shrinks with each spawn.
pub const OPP_SPEED_DECR: u64 = 50_000;

/// A new opponent's move time is the base plus a multiple of this, up to
/// three times it, so that pieces spawned together fall out of step.
pub const SPEED_OFFSET_STEP: u64 = 300_000;

/// Upper end of the draw that picks a new opponent's kind.
pub const PIECE_ROLL_MAX: u64 = 17;

/// The spawn timer and the current ramp values.
#[derive(Clone, Copy, Debug, PartialEq, Eq, Structural)]
pub struct Spawner {
    pub timer: Timer,
    pub cur_duration: u64,
    pub cur_piece_speed: u64,
}

/// One step of `cur` down towards `floor`, by `step` and never below it.
pub open spec fn ramp_down(cur: u64, floor: u64, step: u64) -> u64 {
    if cur >= floor + step {
        (cur - step) as u64
    } else if cur > floor {
        floor
    } else {
        cur
    }
}

/// An offset that may be added to the base move time.
pub open spec fn speed_offset(o: int) -> bool {
    o == 0 || o == SPEED_OFFSET_STEP || o == 2 * SPEED_OFFSET_STEP || o == 3 * SPEED_OFFSET_STEP
}

/// The kind for a draw from 1 to `PIECE_ROLL_MAX`: a queen for 1, a bishop
/// for 2 to 5, a rook above.
pub open spec fn roll_piece(roll: u64) -> Piece {
    if roll < 2 {
        Piece::Queen
    } else if roll < 6 {
        Piece::Bishop
    } else {
        Piece::Rook
    }
}

/// Column `c` of the top row may receive a new opponent: it holds none
/// already (it may hold the player).
pub open spec fn open_top(s: Seq<TileType>, c: int) -> bool {
    0 <= c < 8 && !(s[cell(c, 0)] is Opponent)
}

impl Spawner {
    /// The ramp values lie between their floors and their starting values.
    pub open spec fn wf(self) -> bool {
        &&& MIN_SPAWN_DUR <= self.cur_duration <= MAX_SPAWN_DUR
        &&& MIN_OPP_SPEED <= self.cur_piece_speed <= MAX_OPP_SPEED
    }

    /// The spawner after a spawn fires: both values one step down, and the
    /// timer rearmed once with the new interval.
    pub open spec fn ramped(self) -> Spawner {
        let d = ramp_down(self.cur_duration, MIN_SPAWN_DUR, SPAWN_DUR_DECR);
        Spawner {
            timer: Timer { duration: d, elapsed: 0, mode: TimerMode::Once, finished: false },
            cur_duration: d,
            cur_piece_speed: ramp_down(self.cur_piece_speed, MIN_OPP_SPEED, OPP_SPEED_DECR),
        }
    }

    /// The spawner after `n` spawns.
    pub open spec fn ramped_n(self, n: nat) -> Spawner
        decreases n,
    {
        if n == 0 {
            self
        } else {
            self.ramped_n((n - 1) as nat).ramped()
        }
    }

    /// The spawner at the start of a game.
    pub open spec fn new_spec() -> Spawner {
        Spawner {
            timer: Timer { duration: 0, elapsed: 0, mode: TimerMode::Once, finished: false },
            cur_duration: MAX_SPAWN_DUR,
            cur_piece_speed: MAX_OPP_SPEED,
        }
    }

    /// A spawner that fires on the first tick, at the starting pace.
    pub fn new() -> (s: Spawner)
        ensures
            s.wf(),
            s == Spawner::new_spec(),
    {
        Spawner {
            timer: Timer::new(0, TimerMode::Once),
            cur_duration: MAX_SPAWN_DUR,
            cur_piece_speed: MAX_OPP_SPEED,
        }
    }

    /// Moves the ramp one step on and rearms the timer.
    pub fn ramp(&mut self)
        requires
            old(self).wf(),
        ensures
            *final(self) == old(self).ramped(),
            final(self).wf(),
            final(self).cur_duration <= old(self).cur_duration,
            final(self).cur_piece_speed <= old(self).cur_piece_speed,
    {
        self.cur_duration = if self.cur_duration >= MIN_SPAWN_DUR + SPAWN_DUR_DECR {
            self.cur_duration - SPAWN_DUR_DECR
        } else if self.cur_duration > MIN_SPAWN_DUR {
            MIN_SPAWN_DUR
        } else {
            self.cur_duration
        };
        self.cur_piece_speed = if self.cur_piece_speed >= MIN_OPP_SPEED + OPP_SPEED_DECR {
            self.cur_piece_speed - OPP_SPEED_DECR
        } else if self.cur_piece_speed > MIN_OPP_SPEED {
            MIN_OPP_SPEED
        } else {
            self.cur_piece_speed
        };
        self.timer = Timer::new(self.cur_duration, TimerMode::Once);
    }
}

/// After any number of spawns, the spawn interval and the base move time
/// are each at most what they were before the first, and never below their
/// floors.
pub proof fn ramp_monotone(s: Spawner, n: nat)
    requires
        s.wf(),
    ensures
        s.ramped_n(n).wf(),
        MIN_SPAWN_DUR <= s.ramped_n(n).cur_duration <= s.cur_duration,
        MIN_OPP_SPEED <= s.ramped_n(n).cur_piece_speed <= s.cur_piece_speed,
    decreases n,
{
    if n > 0 {
        ramp_monotone(s, (n - 1) as nat);
    }
}

/// The kind of a new opponent for draw `roll`.
pub fn piece_for_roll(roll: u64) -> (p: Piece)
    ensures
        p == roll_piece(roll),
{
    if roll < 2 {
        Piece::Queen
    } else if roll < 6 {
        Piece::Bishop
    } else {
        Piece::Rook
    }
}

/// The columns of the top row that may receive a new opponent, left to right.
pub fn spawn_locations(board: &Board) -> (cols: Vec<usize>)
    requires
        board@.len() == 64,
    ensures
        cols@.len() <= 8,
        forall|i: int| 0 <= i < cols@.len() ==> open_top(board@, #[trigger] cols@[i] as int),
        forall|c: int| open_top(board@, c) ==> cols@.contains(c as usize),
        forall|i: int, j: int| 0 <= i < j < cols@.len() ==> (#[trigger] cols@[i]) < (#[trigger] cols@[j]),
        cols@.no_duplicates(),
{
    let mut cols: Vec<usize> = Vec::new();
    let mut col: usize = 0;
    while col < N_TILES
        invariant
            board@.len() == 64,
            col <= 8,
            cols@.len() <= col,
            forall|i: int| 0 <= i < cols@.len() ==> open_top(board@, #[trigger] cols@[i] as int),
            forall|c: int| 0 <= c < col && open_top(board@, c) ==> cols@.contains(c as usize),
            forall|i: int| 0 <= i < cols@.len() ==> (#[trigger] cols@[i]) < col,
            forall|i: int, j: int| 0 <= i < j < cols@.len() ==> (#[trigger] cols@[i]) < (#[trigger] cols@[j]),
        decreases 8 - col,
    {
        let ghost before = cols@;
        match board.get(col, 0) {
            TileType::Opponent(_) => {},
            _ => {
                cols.push(col);
                assert(cols@[cols@.len() - 1] == col);
            },
        }
        assert forall|c: int| 0 <= c < col + 1 && open_top(board@, c) implies cols@.contains(
            c as usize,
        ) by {
            if c < col {
                let i = choose|i: int| 0 <= i < before.len() && before[i] == c as usize;
                assert(cols@[i] == before[i]);
            }
        }
        col += 1;
    }
    assert(cols@.no_duplicates()) by {
        assert forall|i: int, j: int| 0 <= i < cols@.len() && 0 <= j < cols@.len() && i != j implies cols@[i]
            != cols@[j] by {
            if i < j {
                assert(cols@[i] < cols@[j]);
            } else {
                assert(cols@[j] < cols@[i]);
            }
        }
    }
    cols
}

} // verus!
