//! Piece kinds and how each chooses its moves: from the held controls for
//! the player, at random from a fixed set for opponents.

use crate::board::{Direction, EntityId, MoveReq, TileType};
use crate::rng::shuffle;
use crate::timer::{Timer, TimerMode};
use nanorand::pcg64::Pcg64;
use vstd::prelude::*;

verus! {

/// Cooldown between two moves of the player, in microseconds.
pub const PLAYER_MOVE_SPEED: u64 = 150_000;

#[derive(Clone, Copy, Debug, PartialEq, Eq, Hash, Structural)]
pub enum Piece {
    Rook,
    Bishop,
    Knight,
    Pawn,
    Queen,
    King,
}

/// The logical directions the player holds this tick: four axis
/// directions, and the eight two-one jumps of a knight.
#[derive(Clone, Copy, Debug, PartialEq, Eq, Structural)]
pub struct Controls {
    pub up: bool,
    pub down: bool,
    pub left: bool,
    pub right: bool,
    pub up_left_wide: bool,
    pub up_left_narrow: bool,
    pub up_right_narrow: bool,
    pub up_right_wide: bool,
    pub down_left_wide: bool,
    pub down_left_narrow: bool,
    pub down_right_narrow: bool,
    pub down_right_wide: bool,
}

/// A rook moves one cell along an axis when exactly one axis direction is held.
pub open spec fn rook_choice(c: Controls) -> Option<Direction> {
    match (c.up, c.down, c.left, c.right) {
        (true, false, false, false) => Option::Some(Direction::Up),
        (false, true, false, false) => Option::Some(Direction::Down),
        (false, false, true, false) => Option::Some(Direction::Left),
        (false, false, false, true) => Option::Some(Direction::Right),
        _ => Option::None,
    }
}

/// A bishop moves one cell diagonally when exactly one vertical and one
/// horizontal direction are held.
pub open spec fn bishop_choice(c: Controls) -> Option<Direction> {
    match (c.up, c.down, c.left, c.right) {
        (true, false, true, false) => Option::Some(Direction::UpLeft),
        (true, false, false, true) => Option::Some(Direction::UpRight),
        (false, true, false, true) => Option::Some(Direction::DownRight),
        (false, true, true, false) => Option::Some(Direction::DownLeft),
        _ => Option::None,
    }
}

/// A knight takes the first held jump, in the order of the fields of
/// `Controls` with the down-right ones last.
pub open spec fn knight_choice(c: Controls) -> Option<Direction> {
    if c.up_left_wide {
        Option::Some(Direction::UpLeftWide)
    } else if c.up_left_narrow {
        Option::Some(Direction::UpLeftNarrow)
    } else if c.up_right_narrow {
        Option::Some(Direction::UpRightNarrow)
    } else if c.up_right_wide {
        Option::Some(Direction::UpRightWide)
    } else if c.down_left_wide {
        Option::Some(Direction::DownLeftWide)
    } else if c.down_left_narrow {
        Option::Some(Direction::DownLeftNarrow)
    } else if c.down_right_narrow {
        Option::Some(Direction::DownRightNarrow)
    } else if c.down_right_wide {
        Option::Some(Direction::DownRightWide)
    } else {
        Option::None
    }
}

/// The kinds the player can be.
pub open spec fn playable(piece: Piece) -> bool {
    piece == Piece::Rook || piece == Piece::Bishop || piece == Piece::Knight
}

/// The move that the held controls ask of a playable piece.
pub open spec fn control_choice(piece: Piece, c: Controls) -> Option<Direction> {
    match piece {
        Piece::Rook => rook_choice(c),
        Piece::Bishop => bishop_choice(c),
        _ => knight_choice(c),
    }
}

/// The kinds that spawn as opponents.
pub open spec fn spawnable(piece: Piece) -> bool {
    piece == Piece::Rook || piece == Piece::Bishop || piece == Piece::Queen
}

/// The moves an opponent picks from: a rook goes straight down, a bishop
/// down along a diagonal, a queen either.
pub open spec fn opp_options(piece: Piece) -> Seq<Direction> {
    match piece {
        Piece::Rook => seq![Direction::Down],
        Piece::Bishop => seq![Direction::DownLeft, Direction::DownRight],
        _ => seq![Direction::DownLeft, Direction::Down, Direction::DownRight],
    }
}

pub fn rook_move(c: &Controls) -> (r: Option<Direction>)
    ensures
        r == rook_choice(*c),
{
    match (c.up, c.down, c.left, c.right) {
        (true, false, false, false) => Option::Some(Direction::Up),
        (false, true, false, false) => Option::Some(Direction::Down),
        (false, false, true, false) => Option::Some(Direction::Left),
        (false, false, false, true) => Option::Some(Direction::Right),
        _ => Option::None,
    }
}

pub fn bishop_move(c: &Controls) -> (r: Option<Direction>)
    ensures
        r == bishop_choice(*c),
{
    match (c.up, c.down, c.left, c.right) {
        (true, false, true, false) => Option::Some(Direction::UpLeft),
        (true, false, false, true) => Option::Some(Direction::UpRight),
        (false, true, false, true) => Option::Some(Direction::DownRight),
        (false, true, true, false) => Option::Some(Direction::DownLeft),
        _ => Option::None,
    }
}

pub fn knight_move(c: &Controls) -> (r: Option<Direction>)
    ensures
        r == knight_choice(*c),
{
    if c.up_left_wide {
        Option::Some(Direction::UpLeftWide)
    } else if c.up_left_narrow {
        Option::Some(Direction::UpLeftNarrow)
    } else if c.up_right_narrow {
        Option::Some(Direction::UpRightNarrow)
    } else if c.up_right_wide {
        Option::Some(Direction::UpRightWide)
    } else if c.down_left_wide {
        Option::Some(Direction::DownLeftWide)
    } else if c.down_left_narrow {
        Option::Some(Direction::DownLeftNarrow)
    } else if c.down_right_narrow {
        Option::Some(Direction::DownRightNarrow)
    } else if c.down_right_wide {
        Option::Some(Direction::DownRightWide)
    } else {
        Option::None
    }
}

/// The player's move cooldown.
#[derive(Clone, Copy, Debug, PartialEq, Eq, Structural)]
pub struct Player {
    pub timer: Timer,
    pub can_move: bool,
}

impl Player {
    /// The state after one tick of `delta` microseconds with controls `c`,
    /// and the direction requested. The cooldown ending lets the player
    /// move; a move starts a one-shot cooldown of `PLAYER_MOVE_SPEED`.
    pub open spec fn stepped(self, piece: Piece, delta: u64, c: Controls) -> (Player, Direction) {
        let (t, done) = self.timer.advanced(delta);
        let can = self.can_move || done;
        match control_choice(piece, c) {
            Option::Some(d) => if can {
                (
                    Player {
                        timer: Timer {
                            duration: PLAYER_MOVE_SPEED,
                            elapsed: 0,
                            mode: TimerMode::Once,
                            finished: false,
                        },
                        can_move: false,
                    },
                    d,
                )
            } else {
                (Player { timer: t, can_move: can }, Direction::Stay)
            },
            Option::None => (Player { timer: t, can_move: can }, Direction::Stay),
        }
    }

    /// A player free to move, with a repeating cooldown of `move_time`.
    pub fn new(move_time: u64) -> (p: Player)
        ensures
            p == (Player {
                timer: Timer { duration: move_time, elapsed: 0, mode: TimerMode::Repeating, finished: false },
                can_move: true,
            }),
    {
        Player { timer: Timer::new(move_time, TimerMode::Repeating), can_move: true }
    }

    /// The player's request for this tick; `Stay` when no move is held or
    /// the cooldown is running.
    pub fn player_input(&mut self, entity: EntityId, piece: Piece, delta: u64, c: &Controls) -> (r: MoveReq)
        requires
            playable(piece),
        ensures
            (*final(self), r.mov) == old(self).stepped(piece, delta, *c),
            r.id == TileType::Player(entity),
    {
        if self.timer.tick(delta) {
            self.can_move = true;
        }
        if self.can_move {
            let mov = match piece {
                Piece::Rook => rook_move(c),
                Piece::Bishop => bishop_move(c),
                _ => knight_move(c),
            };
            if let Option::Some(dir) = mov {
                self.can_move = false;
                self.timer = Timer::new(PLAYER_MOVE_SPEED, TimerMode::Once);
                return MoveReq { id: TileType::Player(entity), mov: dir };
            }
        }
        MoveReq { id: TileType::Player(entity), mov: Direction::Stay }
    }
}

/// An opponent's move timer.
#[derive(Clone, Copy, Debug, PartialEq, Eq, Structural)]
pub struct Opponent {
    pub timer: Timer,
}

fn options_of(piece: Piece) -> (v: Vec<Direction>)
    ensures
        v@ == opp_options(piece),
{
    let v = match piece {
        Piece::Rook => vec![Direction::Down],
        Piece::Bishop => vec![Direction::DownLeft, Direction::DownRight],
        _ => vec![Direction::DownLeft, Direction::Down, Direction::DownRight],
    };
    assert(v@ =~= opp_options(piece));
    v
}

impl Opponent {
    /// An opponent that moves every `move_time` microseconds.
    pub fn new(move_time: u64) -> (o: Opponent)
        ensures
            o.timer == (Timer {
                duration: move_time,
                elapsed: 0,
                mode: TimerMode::Repeating,
                finished: false,
            }),
    {
        Opponent { timer: Timer::new(move_time, TimerMode::Repeating) }
    }

    /// The opponent's request for this tick: when its timer finishes, one of
    /// its kind's moves drawn at random, else `Stay`.
    pub fn opp_move(&mut self, entity: EntityId, piece: Piece, delta: u64, rng: &mut Pcg64) -> (r: MoveReq)
        requires
            spawnable(piece),
        ensures
            final(self).timer == old(self).timer.advanced(delta).0,
            r.id == TileType::Opponent(entity),
            old(self).timer.advanced(delta).1 ==> opp_options(piece).contains(r.mov),
            !old(self).timer.advanced(delta).1 ==> r.mov == Direction::Stay,
    {
        if self.timer.tick(delta) {
            let mut options = options_of(piece);
            let ghost before = options@;
            shuffle(rng, &mut options);
            proof {
                broadcast use vstd::seq_lib::group_to_multiset_ensures;

                assert(before.to_multiset().len() == before.len());
                assert(options@.to_multiset().len() == options@.len());
            }
            let dir = match options.pop() {
                Option::Some(d) => d,
                Option::None => Direction::Stay,
            };
            proof {
                broadcast use vstd::seq_lib::group_to_multiset_ensures;

                assert(opp_options(piece).to_multiset().count(dir) > 0);
            }
            MoveReq { id: TileType::Opponent(entity), mov: dir }
        } else {
            MoveReq { id: TileType::Opponent(entity), mov: Direction::Stay }
        }
    }
}

} // verus!
