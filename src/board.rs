//! The 8x8 occupancy grid and the per-tick resolution of move requests.

use vstd::prelude::*;

verus! {

/// Cells along each side of the board.
pub const N_TILES: usize = 8;

/// Distance between the centres of two neighbouring cells, in half-pixels.
pub const TILE_SPACING: i64 = 170;

/// Column and row of the cell whose centre is the world origin.
pub const ORIGIN_CELL: i64 = 3;

/// Identity of a live piece.
#[derive(Clone, Copy, Debug, PartialEq, Eq, Hash, Structural)]
pub struct EntityId(pub u64);

/// What one cell of the board holds.
#[derive(Clone, Copy, Debug, PartialEq, Eq, Structural)]
pub enum TileType {
    Empty,
    Player(EntityId),
    Opponent(EntityId),
}

/// A requested displacement, or `Stay` for staying put.
#[derive(Clone, Copy, Debug, PartialEq, Eq, Structural)]
pub enum Direction {
    Up,
    UpLeft,
    UpRight,
    Left,
    Right,
    Down,
    DownLeft,
    DownRight,
    UpLeftWide,
    UpLeftNarrow,
    UpRightNarrow,
    UpRightWide,
    DownRightWide,
    DownRightNarrow,
    DownLeftNarrow,
    DownLeftWide,
    Stay,
}

/// A world position, in half-pixels; y grows upwards.
#[derive(Clone, Copy, Debug, PartialEq, Eq, Structural)]
pub struct WorldPos {
    pub x: i64,
    pub y: i64,
}

/// One piece's intent for this tick.
#[derive(Clone, Copy, Debug, PartialEq, Eq, Structural)]
pub struct MoveReq {
    pub id: TileType,
    pub mov: Direction,
}

/// What happens to a piece as a result of resolution.
#[derive(Clone, Copy, Debug, PartialEq, Eq, Structural)]
pub enum MoveResult {
    /// The piece now stands at this position.
    NewLoc(WorldPos),
    /// The piece is captured.
    Delete,
}

/// An outcome for one piece.
#[derive(Clone, Copy, Debug, PartialEq, Eq, Structural)]
pub struct Move {
    pub id: EntityId,
    pub mov: MoveResult,
}

/// The board: 64 cells, row by row from the top, each row left to right.
#[derive(Debug)]
pub struct Board {
    pub tiles: Vec<TileType>,
}

impl TileType {
    /// The piece in the cell, if any.
    pub open spec fn id_opt(self) -> Option<EntityId> {
        match self {
            TileType::Empty => Option::None,
            TileType::Player(e) => Option::Some(e),
            TileType::Opponent(e) => Option::Some(e),
        }
    }

    pub open spec fn is_player(self) -> bool {
        self is Player
    }
}

/// Index of cell (col, row) in a board's tiles.
pub open spec fn cell(col: int, row: int) -> int {
    row * 8 + col
}

/// The board with every cell empty.
pub open spec fn empty_tiles() -> Seq<TileType> {
    Seq::new(64, |i: int| TileType::Empty)
}

/// No piece stands in two cells.
pub open spec fn unique_ids(s: Seq<TileType>) -> bool {
    forall|i: int, j: int|
        0 <= i < s.len() && 0 <= j < s.len() && i != j && (#[trigger] s[i]).id_opt() is Some
            ==> s[i].id_opt() != (#[trigger] s[j]).id_opt()
}

/// `t` stands at (col, row).
pub open spec fn on_board(s: Seq<TileType>, t: TileType, col: int, row: int) -> bool {
    0 <= col < 8 && 0 <= row < 8 && s[cell(col, row)] == t
}

pub open spec fn located(s: Seq<TileType>, t: TileType) -> bool {
    exists|col: int, row: int| on_board(s, t, col, row)
}

/// Where `t` stands, when it does.
pub open spec fn locate_spec(s: Seq<TileType>, t: TileType) -> (int, int) {
    choose|col: int, row: int| on_board(s, t, col, row)
}

/// The displacement of a direction, as (columns right, rows down).
pub open spec fn offset(dir: Direction) -> (int, int) {
    match dir {
        Direction::Up => (0, -1),
        Direction::Down => (0, 1),
        Direction::Left => (-1, 0),
        Direction::Right => (1, 0),
        Direction::DownLeft => (-1, 1),
        Direction::DownRight => (1, 1),
        Direction::UpLeft => (-1, -1),
        Direction::UpRight => (1, -1),
        Direction::UpLeftWide => (-2, -1),
        Direction::UpLeftNarrow => (-1, -2),
        Direction::UpRightNarrow => (1, -2),
        Direction::UpRightWide => (2, -1),
        Direction::DownRightWide => (2, 1),
        Direction::DownRightNarrow => (1, 2),
        Direction::DownLeftNarrow => (-1, 2),
        Direction::DownLeftWide => (-2, 1),
        Direction::Stay => (0, 0),
    }
}

/// The cell reached from (col, row) in direction `dir`, if it is on the board.
pub open spec fn step_to(dir: Direction, col: int, row: int) -> Option<(int, int)> {
    let c = col + offset(dir).0;
    let r = row + offset(dir).1;
    if 0 <= c < 8 && 0 <= r < 8 {
        Option::Some((c, r))
    } else {
        Option::None
    }
}

/// World position of the centre of cell (col, row).
pub open spec fn position(col: int, row: int) -> WorldPos {
    WorldPos {
        x: ((col - ORIGIN_CELL) * TILE_SPACING) as i64,
        y: ((ORIGIN_CELL - row) * TILE_SPACING) as i64,
    }
}

/// The outcome list and next board when `mover` claims cell (col, row) of
/// the board being built. `moving` tells whether that cell differs from the
/// one the mover held.
///
/// An empty cell is taken. A moving piece that finds the cell held by the
/// other side takes it and captures the holder; the player who takes a
/// cell this way is also moved there. A moving piece that finds its own
/// side there is stopped: it is captured and claims nothing. A piece that
/// stays and finds its cell taken by a piece that arrived this tick is
/// captured by the arrival and claims nothing.
pub open spec fn claim(nx: Seq<TileType>, col: int, row: int, mover: TileType, moving: bool) -> (
    Seq<TileType>,
    Seq<Move>,
) {
    let d = cell(col, row);
    let arrive = if moving {
        seq![Move { id: mover.id_opt()->Some_0, mov: MoveResult::NewLoc(position(col, row)) }]
    } else {
        Seq::empty()
    };
    match nx[d] {
        TileType::Empty => (nx.update(d, mover), arrive),
        _ => if moving && nx[d].is_player() != mover.is_player() {
            (
                nx.update(d, mover),
                seq![Move { id: nx[d].id_opt()->Some_0, mov: MoveResult::Delete }] + if mover.is_player() {
                    arrive
                } else {
                    Seq::empty()
                },
            )
        } else {
            (nx, seq![Move { id: mover.id_opt()->Some_0, mov: MoveResult::Delete }])
        },
    }
}

/// The cell that request `req` claims in the board being built, or `None`
/// for an opponent that leaves the board. A player whose move would leave
/// the board claims its own cell.
pub open spec fn target(old: Seq<TileType>, req: MoveReq) -> Option<(int, int)> {
    let (c, r) = locate_spec(old, req.id);
    match step_to(req.mov, c, r) {
        Option::Some(p) => Option::Some(p),
        Option::None => if req.id.is_player() {
            Option::Some((c, r))
        } else {
            Option::None
        },
    }
}

/// One request resolved against the old board `old` and the board being
/// built `nx`.
///
/// The claimed cell is looked at in `nx`, not in `old`, so the outcome
/// depends on which requests came first. A player that stays, or whose
/// move would leave the board, is put back in its cell with no outcome.
/// An opponent that stays claims its own cell, so one whose timer did not
/// fire keeps its place on the next board.
pub open spec fn resolve_step(old: Seq<TileType>, nx: Seq<TileType>, req: MoveReq) -> (
    Seq<TileType>,
    Seq<Move>,
) {
    if req.id is Empty || !located(old, req.id) {
        (nx, Seq::empty())
    } else {
        match target(old, req) {
            Option::Some((c, r)) => if req.id.is_player() && (c, r) == locate_spec(old, req.id) {
                (nx.update(cell(c, r), req.id), Seq::empty())
            } else {
                claim(nx, c, r, req.id, (c, r) != locate_spec(old, req.id))
            },
            Option::None => (nx, seq![Move { id: req.id.id_opt()->Some_0, mov: MoveResult::Delete }]),
        }
    }
}

/// The next board and the outcomes after resolving `reqs` in order,
/// starting from an empty board.
pub open spec fn resolve_all(old: Seq<TileType>, reqs: Seq<MoveReq>) -> (Seq<TileType>, Seq<Move>)
    decreases reqs.len(),
{
    if reqs.len() == 0 {
        (empty_tiles(), Seq::empty())
    } else {
        let (nx, evs) = resolve_all(old, reqs.drop_last());
        let (nx2, evs2) = resolve_step(old, nx, reqs.last());
        (nx2, evs + evs2)
    }
}

/// No piece makes two requests.
pub open spec fn distinct_ids(reqs: Seq<MoveReq>) -> bool {
    forall|i: int, j: int|
        0 <= i < reqs.len() && 0 <= j < reqs.len() && i != j ==> (#[trigger] reqs[i]).id.id_opt()
            != (#[trigger] reqs[j]).id.id_opt()
}

/// Each request names a piece on the board, no piece makes two, and a
/// request of the player comes first.
pub open spec fn valid_requests(old: Seq<TileType>, reqs: Seq<MoveReq>) -> bool {
    &&& forall|i: int| 0 <= i < reqs.len() ==> located(old, #[trigger] reqs[i].id)
    &&& forall|i: int| 0 <= i < reqs.len() ==> !(#[trigger] reqs[i].id is Empty)
    &&& forall|i: int| 0 < i < reqs.len() ==> !(#[trigger] reqs[i].id is Player)
    &&& distinct_ids(reqs)
}

/// Every occupied cell of `nx` holds the piece of one of `reqs`.
pub open spec fn placed_by(nx: Seq<TileType>, reqs: Seq<MoveReq>) -> bool {
    forall|k: int|
        0 <= k < nx.len() && !(#[trigger] nx[k] is Empty) ==> exists|i: int|
            0 <= i < reqs.len() && nx[k] == (#[trigger] reqs[i]).id
}

impl Board {
    pub open spec fn view(&self) -> Seq<TileType> {
        self.tiles@
    }

    /// 64 cells, and no piece in two of them.
    pub open spec fn wf(&self) -> bool {
        self@.len() == 64 && unique_ids(self@)
    }
}


impl TileType {
    /// The piece in a non-empty cell.
    fn id(&self) -> (e: EntityId)
        requires
            !(*self is Empty),
        ensures
            self.id_opt() == Option::Some(e),
    {
        match self {
            TileType::Player(e) => *e,
            TileType::Opponent(e) => *e,
            TileType::Empty => EntityId(0),
        }
    }
}

/// If `t` stands at (col, row) of a board without repeated pieces, that is
/// where it is located.
pub proof fn lemma_locate_unique(s: Seq<TileType>, t: TileType, col: int, row: int)
    requires
        s.len() == 64,
        unique_ids(s),
        !(t is Empty),
        on_board(s, t, col, row),
    ensures
        located(s, t),
        locate_spec(s, t) == (col, row),
{
    let (c, r) = locate_spec(s, t);
    assert(on_board(s, t, c, r));
    assert(s[cell(c, r)].id_opt() is Some);
    assert(cell(c, r) == cell(col, row));
}

/// One step writes at most the mover into the board being built, so a
/// mover that was not there yet leaves no piece in two cells.
pub proof fn lemma_step_unique(old: Seq<TileType>, nx: Seq<TileType>, req: MoveReq)
    requires
        nx.len() == 64,
        unique_ids(nx),
        forall|k: int| 0 <= k < 64 && !(#[trigger] nx[k] is Empty) ==> nx[k].id_opt() != req.id.id_opt(),
    ensures
        resolve_step(old, nx, req).0.len() == 64,
        unique_ids(resolve_step(old, nx, req).0),
        forall|k: int|
            0 <= k < 64 ==> (#[trigger] resolve_step(old, nx, req).0[k] == nx[k]
                || resolve_step(old, nx, req).0[k] == req.id),
{
    let n2 = resolve_step(old, nx, req).0;
    if !(req.id is Empty) && located(old, req.id) {
        if let Option::Some((c, r)) = target(old, req) {
            let (lc, lr) = locate_spec(old, req.id);
            assert(on_board(old, req.id, lc, lr));
            assert(0 <= c < 8 && 0 <= r < 8);
            let d = cell(c, r);
            assert forall|i: int, j: int|
                0 <= i < n2.len() && 0 <= j < n2.len() && i != j && (#[trigger] n2[i]).id_opt() is Some
                    implies n2[i].id_opt() != (#[trigger] n2[j]).id_opt() by {
                if i != d && j != d {
                    assert(nx[i].id_opt() != nx[j].id_opt());
                }
            }
        }
    }
}

/// Resolving requests of distinct pieces leaves no piece in two cells, and
/// every occupied cell holds one of the requesting pieces.
pub proof fn lemma_resolve_all_unique(old: Seq<TileType>, reqs: Seq<MoveReq>)
    requires
        distinct_ids(reqs),
    ensures
        resolve_all(old, reqs).0.len() == 64,
        unique_ids(resolve_all(old, reqs).0),
        placed_by(resolve_all(old, reqs).0, reqs),
    decreases reqs.len(),
{
    if reqs.len() == 0 {
        assert(unique_ids(empty_tiles()));
    } else {
        let front = reqs.drop_last();
        let last = reqs.last();
        assert(distinct_ids(front)) by {
            assert forall|i: int, j: int|
                0 <= i < front.len() && 0 <= j < front.len() && i != j implies (#[trigger] front[i]).id.id_opt()
                    != (#[trigger] front[j]).id.id_opt() by {
                assert(front[i] == reqs[i] && front[j] == reqs[j]);
            }
        }
        lemma_resolve_all_unique(old, front);
        let nx = resolve_all(old, front).0;
        assert forall|k: int| 0 <= k < 64 && !(#[trigger] nx[k] is Empty) implies nx[k].id_opt()
            != last.id.id_opt() by {
            let i = choose|i: int| 0 <= i < front.len() && nx[k] == (#[trigger] front[i]).id;
            assert(front[i] == reqs[i]);
            assert(reqs[i].id.id_opt() != reqs[reqs.len() - 1].id.id_opt());
        }
        lemma_step_unique(old, nx, last);
        let n2 = resolve_step(old, nx, last).0;
        assert forall|k: int| 0 <= k < n2.len() && !(#[trigger] n2[k] is Empty) implies exists|i: int|
            0 <= i < reqs.len() && n2[k] == (#[trigger] reqs[i]).id by {
            if n2[k] == last.id {
                assert(reqs[reqs.len() - 1].id == n2[k]);
            } else {
                assert(n2[k] == nx[k]);
                let i = choose|i: int| 0 <= i < front.len() && nx[k] == (#[trigger] front[i]).id;
                assert(front[i] == reqs[i]);
            }
        }
    }
}

/// The displacement of `dir`, as (columns right, rows down).
fn offset_of(dir: Direction) -> (d: (i64, i64))
    ensures
        d.0 == offset(dir).0,
        d.1 == offset(dir).1,
{
    match dir {
        Direction::Up => (0, -1),
        Direction::Down => (0, 1),
        Direction::Left => (-1, 0),
        Direction::Right => (1, 0),
        Direction::DownLeft => (-1, 1),
        Direction::DownRight => (1, 1),
        Direction::UpLeft => (-1, -1),
        Direction::UpRight => (1, -1),
        Direction::UpLeftWide => (-2, -1),
        Direction::UpLeftNarrow => (-1, -2),
        Direction::UpRightNarrow => (1, -2),
        Direction::UpRightWide => (2, -1),
        Direction::DownRightWide => (2, 1),
        Direction::DownRightNarrow => (1, 2),
        Direction::DownLeftNarrow => (-1, 2),
        Direction::DownLeftWide => (-2, 1),
        Direction::Stay => (0, 0),
    }
}

impl Default for Board {
    fn default() -> (b: Board)
        ensures
            b@ == empty_tiles(),
            b.wf(),
    {
        let mut tiles: Vec<TileType> = Vec::new();
        let mut i: usize = 0;
        while i < 64
            invariant
                i <= 64,
                tiles@ == Seq::new(i as nat, |k: int| TileType::Empty),
            decreases 64 - i,
        {
            tiles.push(TileType::Empty);
            i += 1;
        }
        assert(tiles@ =~= empty_tiles());
        Board { tiles }
    }
}

impl Board {
    /// World position of the centre of cell (x, y).
    pub fn coord_to_vec(x: usize, y: usize) -> (p: WorldPos)
        requires
            x < N_TILES,
            y < N_TILES,
        ensures
            p == position(x as int, y as int),
    {
        let xb = x as i64;
        let yb = y as i64;
        WorldPos {
            x: (xb - ORIGIN_CELL) * TILE_SPACING,
            y: (ORIGIN_CELL - yb) * TILE_SPACING,
        }
    }

    /// Puts `entity` at (x, y) if that cell is empty; false, with the board
    /// unchanged, if it is not.
    pub fn place_piece(&mut self, x: usize, y: usize, entity: TileType) -> (placed: bool)
        requires
            old(self)@.len() == 64,
            x < N_TILES,
            y < N_TILES,
        ensures
            placed == (old(self)@[cell(x as int, y as int)] == TileType::Empty),
            final(self)@ == if placed {
                old(self)@.update(cell(x as int, y as int), entity)
            } else {
                old(self)@
            },
    {
        let k = y * N_TILES + x;
        if self.tiles[k] == TileType::Empty {
            self.tiles.set(k, entity);
            true
        } else {
            false
        }
    }

    /// The tile at (x, y).
    pub fn get(&self, x: usize, y: usize) -> (t: TileType)
        requires
            self@.len() == 64,
            x < N_TILES,
            y < N_TILES,
        ensures
            t == self@[cell(x as int, y as int)],
    {
        self.tiles[y * N_TILES + x]
    }

    /// Where `id` stands, as (column, row).
    pub fn locate(&self, id: TileType) -> (r: Option<(usize, usize)>)
        requires
            self.wf(),
        ensures
            r is Some <==> located(self@, id),
            r matches Option::Some((c, w)) ==> on_board(self@, id, c as int, w as int),
            r matches Option::Some((c, w)) ==> (!(id is Empty) ==> locate_spec(self@, id) == (
            c as int, w as int)),
    {
        let mut row: usize = 0;
        while row < N_TILES
            invariant
                self.wf(),
                row <= 8,
                forall|c: int, w: int| 0 <= c < 8 && 0 <= w < row ==> !on_board(self@, id, c, w),
            decreases 8 - row,
        {
            let mut col: usize = 0;
            while col < N_TILES
                invariant
                    self.wf(),
                    row < 8,
                    col <= 8,
                    forall|c: int, w: int| 0 <= c < 8 && 0 <= w < row ==> !on_board(self@, id, c, w),
                    forall|c: int| 0 <= c < col ==> !on_board(self@, id, c, row as int),
                decreases 8 - col,
            {
                if self.tiles[row * N_TILES + col] == id {
                    assert(on_board(self@, id, col as int, row as int));
                    proof {
                        if !(id is Empty) {
                            lemma_locate_unique(self@, id, col as int, row as int);
                        }
                    }
                    return Option::Some((col, row));
                }
                col += 1;
            }
            row += 1;
        }
        Option::None
    }

    /// The cell reached from `xy` in direction `dir`, if it is on the board.
    pub fn new_xy(dir: Direction, xy: (usize, usize)) -> (r: Option<(usize, usize)>)
        requires
            xy.0 < N_TILES,
            xy.1 < N_TILES,
        ensures
            r matches Option::Some((c, w)) ==> c < N_TILES && w < N_TILES,
            r matches Option::Some((c, w)) ==> step_to(dir, xy.0 as int, xy.1 as int) == Option::Some(
                (c as int, w as int),
            ),
            r is None ==> step_to(dir, xy.0 as int, xy.1 as int) is None,
    {
        let (dx, dy) = offset_of(dir);
        let x = xy.0 as i64 + dx;
        let y = xy.1 as i64 + dy;
        if 0 <= x && x < N_TILES as i64 && 0 <= y && y < N_TILES as i64 {
            Option::Some((x as usize, y as usize))
        } else {
            Option::None
        }
    }

    /// Lets `mover` claim (x, y) of the board being built; see `claim`.
    fn claim_cell(&mut self, x: usize, y: usize, mover: TileType, moving: bool) -> (evs: Vec<Move>)
        requires
            old(self)@.len() == 64,
            x < N_TILES,
            y < N_TILES,
            !(mover is Empty),
        ensures
            (final(self)@, evs@) == claim(old(self)@, x as int, y as int, mover, moving),
    {
        let k = y * N_TILES + x;
        let here = self.tiles[k];
        let mover_id = mover.id();
        let mut evs: Vec<Move> = Vec::new();
        match here {
            TileType::Empty => {
                self.tiles.set(k, mover);
                if moving {
                    evs.push(Move { id: mover_id, mov: MoveResult::NewLoc(Self::coord_to_vec(x, y)) });
                }
            },
            _ => {
                let here_player = matches!(here, TileType::Player(_));
                let mover_player = matches!(mover, TileType::Player(_));
                if moving && here_player != mover_player {
                    self.tiles.set(k, mover);
                    evs.push(Move { id: here.id(), mov: MoveResult::Delete });
                    if moving && mover_player {
                        evs.push(
                            Move { id: mover_id, mov: MoveResult::NewLoc(Self::coord_to_vec(x, y)) },
                        );
                    }
                } else {
                    evs.push(Move { id: mover_id, mov: MoveResult::Delete });
                }
            },
        }
        assert(evs@ =~= claim(old(self)@, x as int, y as int, mover, moving).1);
        evs
    }

    /// Resolves one request against this (old) board, writing into the
    /// board being built and returning the outcomes.
    pub fn mov(&self, req: &MoveReq, new_board: &mut Board) -> (evs: Vec<Move>)
        requires
            self.wf(),
            old(new_board)@.len() == 64,
            req.id is Empty || located(self@, req.id),
        ensures
            (final(new_board)@, evs@) == resolve_step(self@, old(new_board)@, *req),
            req.id is Player && target(self@, *req) == Option::Some(locate_spec(self@, req.id)) ==> evs@.len()
                == 0 && final(new_board)@ == old(new_board)@.update(
                cell(locate_spec(self@, req.id).0, locate_spec(self@, req.id).1),
                req.id,
            ),
    {
        if req.id == TileType::Empty {
            return Vec::new();
        }
        let (ox, oy) = match self.locate(req.id) {
            Option::Some(p) => p,
            Option::None => { return Vec::new(); },
        };
        let is_player = matches!(req.id, TileType::Player(_));
        match Self::new_xy(req.mov, (ox, oy)) {
            Option::Some((x, y)) => {
                if is_player && x == ox && y == oy {
                    new_board.tiles.set(oy * N_TILES + ox, req.id);
                    Vec::new()
                } else {
                    new_board.claim_cell(x, y, req.id, x != ox || y != oy)
                }
            },
            Option::None => {
                if is_player {
                    new_board.tiles.set(oy * N_TILES + ox, req.id);
                    Vec::new()
                } else {
                    let mut evs: Vec<Move> = Vec::new();
                    evs.push(Move { id: req.id.id(), mov: MoveResult::Delete });
                    assert(evs@ =~= resolve_step(self@, old(new_board)@, *req).1);
                    evs
                }
            },
        }
    }

    /// Resolves one tick: every request in order against this board, into a
    /// board that starts empty and then replaces this one. Returns the
    /// outcomes in the order they arose.
    pub fn update(&mut self, reqs: &Vec<MoveReq>) -> (evs: Vec<Move>)
        requires
            old(self).wf(),
            valid_requests(old(self)@, reqs@),
        ensures
            (final(self)@, evs@) == resolve_all(old(self)@, reqs@),
            final(self).wf(),
    {
        let mut new_board = Board::default();
        let mut evs: Vec<Move> = Vec::new();
        let n = reqs.len();
        let mut i: usize = 0;
        while i < n
            invariant
                self.wf(),
                valid_requests(self@, reqs@),
                n == reqs@.len(),
                i <= n,
                new_board@.len() == 64,
                (new_board@, evs@) == resolve_all(self@, reqs@.take(i as int)),
            decreases n - i,
        {
            let req = &reqs[i];
            assert(located(self@, reqs@[i as int].id));
            let mut step_evs = self.mov(req, &mut new_board);
            proof {
                let t = reqs@.take(i as int + 1);
                assert(t.drop_last() =~= reqs@.take(i as int));
                assert(t.last() == reqs@[i as int]);
            }
            evs.append(&mut step_evs);
            i += 1;
        }
        assert(reqs@.take(n as int) =~= reqs@);
        proof {
            lemma_resolve_all_unique(self@, reqs@);
        }
        self.tiles = new_board.tiles;
        evs
    }
}

} // verus!
