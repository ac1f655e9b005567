//! One game session: the board, the spawner and the game-over flag, and the
//! phases of a tick that change them.

use crate::board::{
    cell, resolve_all, valid_requests, Board, EntityId, Move, MoveReq,
    MoveResult, TileType, WorldPos,
};
use crate::pieces::Piece;
use crate::rng::{generate_range, shuffle};
use crate::spawner::{
    open_top, piece_for_roll, roll_piece, spawn_locations, speed_offset, Spawner, PIECE_ROLL_MAX,
    SPEED_OFFSET_STEP,
};
use nanorand::pcg64::Pcg64;
use vstd::prelude::*;

verus! {

/// Column of the player's starting cell.
pub const START_X: usize = 3;
/// Row of the player's starting cell.
pub const START_Y: usize = 3;

/// Where a captured player is put out of sight, in half-pixels.
pub const OFF_BOARD_X: i64 = 20_000;
pub const OFF_BOARD_Y: i64 = 20_000;

/// What the presentation layer is to do with a piece.
#[derive(Clone, Copy, Debug, PartialEq, Eq, Structural)]
pub enum Effect {
    /// Show the piece at this position.
    Place(EntityId, WorldPos),
    /// Remove the piece.
    Despawn(EntityId),
}

/// The random draws of one spawn: the column, the new piece's move time, and
/// the draw that picks its kind.
#[derive(Clone, Copy, Debug, PartialEq, Eq, Structural)]
pub struct SpawnChoice {
    pub col: usize,
    pub move_time: u64,
    pub roll: u64,
}

/// A new opponent placed on the top row.
#[derive(Clone, Copy, Debug, PartialEq, Eq, Structural)]
pub struct Spawned {
    pub id: EntityId,
    pub col: usize,
    pub piece: Piece,
    pub move_time: u64,
    /// The player's capture, when the piece landed on the player.
    pub capture: Option<Move>,
}

/// A game session.
#[derive(Debug)]
pub struct Game {
    pub board: Board,
    pub spawner: Spawner,
    pub game_over: bool,
    pub player: EntityId,
}

pub open spec fn off_board() -> WorldPos {
    WorldPos { x: OFF_BOARD_X, y: OFF_BOARD_Y }
}

/// What one outcome asks of the presentation layer: a move shows the piece
/// at its new place; a captured player is put out of sight, any other
/// captured piece removed.
pub open spec fn effect_of(player: EntityId, ev: Move) -> Effect {
    match ev.mov {
        MoveResult::NewLoc(p) => Effect::Place(ev.id, p),
        MoveResult::Delete => if ev.id == player {
            Effect::Place(ev.id, off_board())
        } else {
            Effect::Despawn(ev.id)
        },
    }
}

/// Some outcome captures the player.
pub open spec fn ends_game(player: EntityId, evs: Seq<Move>) -> bool {
    exists|i: int| 0 <= i < evs.len() && #[trigger] evs[i] == Move { id: player, mov: MoveResult::Delete }
}

/// `id` stands nowhere on the board.
pub open spec fn absent(s: Seq<TileType>, id: EntityId) -> bool {
    forall|k: int| 0 <= k < s.len() ==> (#[trigger] s[k]).id_opt() != Option::Some(id)
}

/// The draws of a spawn are fair ones: a column that may receive a new
/// opponent (none exactly when no column may), a move time of the base
/// plus an allowed offset, and a kind draw from 1 to `PIECE_ROLL_MAX`.
pub open spec fn fair_choice(s: Seq<TileType>, sp: Spawner, ch: Option<SpawnChoice>) -> bool {
    match ch {
        Option::Some(c) => {
            &&& open_top(s, c.col as int)
            &&& speed_offset(c.move_time - sp.cur_piece_speed)
            &&& 1 <= c.roll <= PIECE_ROLL_MAX
        },
        Option::None => forall|c: int| 0 <= c < 8 ==> !open_top(s, c),
    }
}

impl Game {
    pub open spec fn wf(&self) -> bool {
        self.board.wf() && self.spawner.wf()
    }

    /// The board after a spawn with draws `ch` places `fresh`, and what is
    /// reported of it. While the game is over nothing changes; otherwise the
    /// ramp moves on whether or not a piece was placed.
    pub open spec fn spawn_result(&self, fresh: EntityId, ch: Option<SpawnChoice>) -> (
        Seq<TileType>,
        Spawner,
        Option<Spawned>,
    ) {
        if self.game_over {
            (self.board@, self.spawner, Option::None)
        } else {
            match ch {
                Option::Some(c) => {
                    let here = self.board@[cell(c.col as int, 0)];
                    (
                        self.board@.update(cell(c.col as int, 0), TileType::Opponent(fresh)),
                        self.spawner.ramped(),
                        Option::Some(
                            Spawned {
                                id: fresh,
                                col: c.col,
                                piece: roll_piece(c.roll),
                                move_time: c.move_time,
                                capture: match here {
                                    TileType::Player(p) => Option::Some(
                                        Move { id: p, mov: MoveResult::Delete },
                                    ),
                                    _ => Option::None,
                                },
                            },
                        ),
                    )
                },
                Option::None => (self.board@, self.spawner.ramped(), Option::None),
            }
        }
    }

    /// A session with `player` on its starting cell.
    pub fn new(player: EntityId) -> (g: Game)
        ensures
            g.wf(),
            g.board@ == crate::board::empty_tiles().update(
                cell(START_X as int, START_Y as int),
                TileType::Player(player),
            ),
            g.spawner == Spawner::new_spec(),
            !g.game_over,
            g.player == player,
    {
        let mut board = Board::default();
        board.place_piece(START_X, START_Y, TileType::Player(player));
        proof {
            let s = board@;
            assert forall|i: int, j: int|
                0 <= i < s.len() && 0 <= j < s.len() && i != j && (#[trigger] s[i]).id_opt() is Some
                    implies s[i].id_opt() != (#[trigger] s[j]).id_opt() by {}
        }
        Game { board, spawner: Spawner::new(), game_over: false, player }
    }

    /// Resolves this tick's requests, unless the game is over.
    pub fn update_board(&mut self, reqs: &Vec<MoveReq>) -> (evs: Vec<Move>)
        requires
            old(self).wf(),
            !old(self).game_over ==> valid_requests(old(self).board@, reqs@),
        ensures
            final(self).wf(),
            final(self).spawner == old(self).spawner,
            final(self).game_over == old(self).game_over,
            final(self).player == old(self).player,
            old(self).game_over ==> final(self).board@ == old(self).board@ && evs@.len() == 0,
            !old(self).game_over ==> (final(self).board@, evs@) == resolve_all(
                old(self).board@,
                reqs@,
            ),
    {
        if self.game_over {
            Vec::new()
        } else {
            self.board.update(reqs)
        }
    }

    /// Advances the spawn timer, unless the game is over; true when a spawn
    /// is due.
    pub fn spawn_timer(&mut self, delta: u64) -> (fire: bool)
        ensures
            final(self).board@ == old(self).board@,
            final(self).game_over == old(self).game_over,
            final(self).player == old(self).player,
            final(self).spawner.cur_duration == old(self).spawner.cur_duration,
            final(self).spawner.cur_piece_speed == old(self).spawner.cur_piece_speed,
            old(self).game_over ==> final(self).spawner == old(self).spawner && !fire,
            !old(self).game_over ==> (final(self).spawner.timer, fire)
                == old(self).spawner.timer.advanced(delta),
    {
        if self.game_over {
            false
        } else {
            self.spawner.timer.tick(delta)
        }
    }

    /// Carries out a spawn with the draws `ch`: places `fresh` on the top
    /// row, captures the player if it stood there, and moves the ramp on.
    pub fn spawn_at(&mut self, fresh: EntityId, ch: Option<SpawnChoice>) -> (r: Option<Spawned>)
        requires
            old(self).wf(),
            absent(old(self).board@, fresh),
            ch matches Option::Some(c) ==> open_top(old(self).board@, c.col as int),
        ensures
            final(self).wf(),
            (final(self).board@, final(self).spawner, r) == old(self).spawn_result(fresh, ch),
            final(self).game_over == old(self).game_over,
            final(self).player == old(self).player,
    {
        if self.game_over {
            return Option::None;
        }
        let r = match ch {
            Option::Some(c) => {
                let here = self.board.get(c.col, 0);
                let ghost before = self.board@;
                let k = c.col;
                self.board.tiles.set(k, TileType::Opponent(fresh));
                proof {
                    assert(cell(c.col as int, 0) == k as int);
                    let s = self.board@;
                    assert forall|i: int, j: int|
                        0 <= i < s.len() && 0 <= j < s.len() && i != j && (#[trigger] s[i]).id_opt() is Some
                            implies s[i].id_opt() != (#[trigger] s[j]).id_opt() by {
                        if i != k && j != k {
                            assert(before[i].id_opt() != before[j].id_opt());
                        }
                    }
                }
                let capture = match here {
                    TileType::Player(p) => Option::Some(Move { id: p, mov: MoveResult::Delete }),
                    _ => Option::None,
                };
                Option::Some(
                    Spawned {
                        id: fresh,
                        col: c.col,
                        piece: piece_for_roll(c.roll),
                        move_time: c.move_time,
                        capture,
                    },
                )
            },
            Option::None => Option::None,
        };
        self.spawner.ramp();
        r
    }

    /// A spawn with fresh random draws: a column that may receive a new
    /// opponent, a move time, and a kind, as `spawn_at` carries them out.
    pub fn spawn_opp_piece(&mut self, fresh: EntityId, rng: &mut Pcg64) -> (r: Option<Spawned>)
        requires
            old(self).wf(),
            absent(old(self).board@, fresh),
        ensures
            final(self).wf(),
            final(self).game_over == old(self).game_over,
            final(self).player == old(self).player,
            exists|ch: Option<SpawnChoice>|
                fair_choice(old(self).board@, old(self).spawner, ch) && (
                final(self).board@,
                final(self).spawner,
                r,
            ) == old(self).spawn_result(fresh, ch),
    {
        let mut cols = spawn_locations(&self.board);
        let ghost all_cols = cols@;
        shuffle(rng, &mut cols);
        let ch = match cols.pop() {
            Option::Some(col) => {
                proof {
                    broadcast use vstd::seq_lib::group_to_multiset_ensures;

                    assert(all_cols.to_multiset().count(col) > 0);
                    let i = choose|i: int| 0 <= i < all_cols.len() && all_cols[i] == col;
                    assert(open_top(self.board@, all_cols[i] as int));
                }
                let base = self.spawner.cur_piece_speed;
                let mut speeds: Vec<u64> = vec![
                    base,
                    base + SPEED_OFFSET_STEP,
                    base + 2 * SPEED_OFFSET_STEP,
                    base + 3 * SPEED_OFFSET_STEP,
                ];
                let ghost all_speeds = speeds@;
                shuffle(rng, &mut speeds);
                proof {
                    broadcast use vstd::seq_lib::group_to_multiset_ensures;

                    assert(all_speeds.to_multiset().len() == 4);
                    assert(speeds@.to_multiset().len() == speeds@.len());
                }
                let move_time = match speeds.pop() {
                    Option::Some(m) => m,
                    Option::None => base,
                };
                proof {
                    broadcast use vstd::seq_lib::group_to_multiset_ensures;

                    assert(all_speeds.to_multiset().count(move_time) > 0);
                    let i = choose|i: int| 0 <= i < all_speeds.len() && all_speeds[i] == move_time;
                    assert(speed_offset(move_time - base));
                }
                let roll = generate_range(rng, 1, PIECE_ROLL_MAX);
                Option::Some(SpawnChoice { col, move_time, roll })
            },
            Option::None => {
                proof {
                    broadcast use vstd::seq_lib::group_to_multiset_ensures;

                    assert(all_cols.to_multiset().len() == 0);
                    assert forall|c: int| 0 <= c < 8 implies !open_top(self.board@, c) by {
                        if open_top(self.board@, c) {
                            assert(all_cols.contains(c as usize));
                            assert(all_cols.to_multiset().count(c as usize) > 0);
                        }
                    }
                }
                Option::None
            },
        };
        let r = self.spawn_at(fresh, ch);
        assert(fair_choice(old(self).board@, old(self).spawner, ch));
        r
    }

    /// Applies this tick's outcomes: returns what the presentation layer is
    /// to do for each, in order, and ends the game if one captures the
    /// player.
    pub fn move_pieces(&mut self, evs: &Vec<Move>) -> (effects: Vec<Effect>)
        ensures
            effects@ == evs@.map_values(|e: Move| effect_of(old(self).player, e)),
            final(self).game_over == (old(self).game_over || ends_game(old(self).player, evs@)),
            final(self).board@ == old(self).board@,
            final(self).spawner == old(self).spawner,
            final(self).player == old(self).player,
    {
        let mut effects: Vec<Effect> = Vec::new();
        let n = evs.len();
        let mut i: usize = 0;
        while i < n
            invariant
                n == evs@.len(),
                i <= n,
                effects@ == evs@.take(i as int).map_values(|e: Move| effect_of(self.player, e)),
                self.game_over == (old(self).game_over || ends_game(self.player, evs@.take(i as int))),
                self.board@ == old(self).board@,
                self.spawner == old(self).spawner,
                self.player == old(self).player,
            decreases n - i,
        {
            let ev = evs[i];
            let ghost taken = evs@.take(i as int);
            let eff = match ev.mov {
                MoveResult::NewLoc(p) => Effect::Place(ev.id, p),
                MoveResult::Delete => {
                    if ev.id == self.player {
                        self.game_over = true;
                        Effect::Place(ev.id, WorldPos { x: OFF_BOARD_X, y: OFF_BOARD_Y })
                    } else {
                        Effect::Despawn(ev.id)
                    }
                },
            };
            effects.push(eff);
            proof {
                let t2 = evs@.take(i as int + 1);
                assert(t2 =~= taken.push(ev));
                assert(effects@ =~= t2.map_values(|e: Move| effect_of(self.player, e)));
                if ends_game(self.player, taken) {
                    let j = choose|j: int|
                        0 <= j < taken.len() && #[trigger] taken[j] == Move {
                            id: self.player,
                            mov: MoveResult::Delete,
                        };
                    assert(t2[j] == taken[j]);
                }
                if ev == (Move { id: self.player, mov: MoveResult::Delete }) {
                    assert(t2[i as int] == ev);
                }
                if ends_game(self.player, t2) {
                    let j = choose|j: int|
                        0 <= j < t2.len() && #[trigger] t2[j] == Move {
                            id: self.player,
                            mov: MoveResult::Delete,
                        };
                    if j < i {
                        assert(taken[j] == t2[j]);
                    }
                }
            }
            i += 1;
        }
        assert(evs@.take(n as int) =~= evs@);
        effects
    }
}

/// When exactly one column of the top row may receive a new opponent, a
/// spawn with any fair draws places the new piece in that column, changes
/// no other cell, and captures nothing if the column was empty.
pub proof fn spawn_single_open_column(g: Game, fresh: EntityId, ch: Option<SpawnChoice>, c: int)
    requires
        !g.game_over,
        fair_choice(g.board@, g.spawner, ch),
        open_top(g.board@, c),
        forall|c2: int| 0 <= c2 < 8 && c2 != c ==> !open_top(g.board@, c2),
    ensures
        g.spawn_result(fresh, ch).2 is Some,
        g.spawn_result(fresh, ch).2->Some_0.col == c,
        g.spawn_result(fresh, ch).2->Some_0.id == fresh,
        g.spawn_result(fresh, ch).0 == g.board@.update(cell(c, 0), TileType::Opponent(fresh)),
        g.board@[cell(c, 0)] is Empty ==> g.spawn_result(fresh, ch).2->Some_0.capture is None,
{
    match ch {
        Option::Some(k) => {
            assert(open_top(g.board@, k.col as int));
        },
        Option::None => {
            assert(!open_top(g.board@, c));
        },
    }
}

} // verus!
