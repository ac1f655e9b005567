//! Properties of a whole tick of resolution and of the outcomes it reports.

use crate::board::{
    cell, distinct_ids, empty_tiles, lemma_resolve_all_unique, located, locate_spec, on_board,
    position, resolve_all, resolve_step, step_to, target, unique_ids, valid_requests, Direction,
    EntityId, Move, MoveReq, MoveResult, TileType, WorldPos,
};
use crate::game::{effect_of, ends_game, Effect};
use vstd::prelude::*;

verus! {

/// `p` is the centre of a cell of the board.
pub open spec fn cell_position(p: WorldPos) -> bool {
    exists|c: int, r: int| 0 <= c < 8 && 0 <= r < 8 && p == position(c, r)
}

/// Every new position that resolution reports is the centre of a cell of
/// the board.
pub open spec fn moves_on_board(evs: Seq<Move>) -> bool {
    forall|k: int|
        0 <= k < evs.len() ==> ((#[trigger] evs[k]).mov matches MoveResult::NewLoc(p) ==> cell_position(p))
}

proof fn lemma_step_on_board(old: Seq<TileType>, nx: Seq<TileType>, req: MoveReq)
    requires
        nx.len() == 64,
    ensures
        resolve_step(old, nx, req).0.len() == 64,
        moves_on_board(resolve_step(old, nx, req).1),
{
    if !(req.id is Empty) && located(old, req.id) {
        let (lc, lr) = locate_spec(old, req.id);
        assert(on_board(old, req.id, lc, lr));
        if let Option::Some((c, r)) = target(old, req) {
            assert(0 <= c < 8 && 0 <= r < 8);
            assert(cell_position(position(c, r)));
        }
    }
}

/// Resolution only ever sends a piece to a cell of the board: the next board
/// has its 64 cells, and each reported new position is the centre of a cell
/// whose column and row both lie in 0..8.
pub proof fn destinations_on_board(old: Seq<TileType>, reqs: Seq<MoveReq>)
    ensures
        resolve_all(old, reqs).0.len() == 64,
        moves_on_board(resolve_all(old, reqs).1),
    decreases reqs.len(),
{
    if reqs.len() > 0 {
        let front = reqs.drop_last();
        destinations_on_board(old, front);
        let (nx, evs) = resolve_all(old, front);
        lemma_step_on_board(old, nx, reqs.last());
        let evs2 = resolve_step(old, nx, reqs.last()).1;
        let all = evs + evs2;
        assert forall|k: int| 0 <= k < all.len() implies ((#[trigger] all[k]).mov matches MoveResult::NewLoc(
            p,
        ) ==> cell_position(p)) by {
            if k < evs.len() {
                assert(all[k] == evs[k]);
            } else {
                assert(all[k] == evs2[k - evs.len()]);
            }
        }
    }
}

/// No outcome in `evs` names `id`.
pub open spec fn unnamed(evs: Seq<Move>, id: EntityId) -> bool {
    forall|k: int| 0 <= k < evs.len() ==> (#[trigger] evs[k]).id != id
}

proof fn lemma_distinct_prefix(reqs: Seq<MoveReq>, n: int)
    requires
        distinct_ids(reqs),
        0 <= n <= reqs.len(),
    ensures
        distinct_ids(reqs.take(n)),
{
    let t = reqs.take(n);
    assert forall|i: int, j: int| 0 <= i < t.len() && 0 <= j < t.len() && i != j implies (#[trigger] t[i]).id.id_opt()
        != (#[trigger] t[j]).id.id_opt() by {
        assert(t[i] == reqs[i] && t[j] == reqs[j]);
    }
}

proof fn lemma_stay_prefix(old: Seq<TileType>, reqs: Seq<MoveReq>, i: int, n: int)
    requires
        old.len() == 64,
        unique_ids(old),
        valid_requests(old, reqs),
        0 <= i < reqs.len(),
        reqs[i].mov == Direction::Stay,
        forall|j: int|
            0 <= j < reqs.len() && j != i ==> target(old, #[trigger] reqs[j]) != Option::Some(
                locate_spec(old, reqs[i].id),
            ),
        0 <= n <= reqs.len(),
    ensures
        ({
            let (c, r) = locate_spec(old, reqs[i].id);
            let nx = resolve_all(old, reqs.take(n)).0;
            &&& n <= i ==> nx[cell(c, r)] is Empty
            &&& n > i ==> nx[cell(c, r)] == reqs[i].id
        }),
        unnamed(resolve_all(old, reqs.take(n)).1, reqs[i].id.id_opt()->Some_0),
    decreases n,
{
    let t = reqs[i].id;
    let id = t.id_opt()->Some_0;
    let (c, r) = locate_spec(old, t);
    assert(located(old, reqs[i].id));
    assert(on_board(old, t, c, r));
    let ci = cell(c, r);
    if n == 0 {
        assert(reqs.take(0).len() == 0);
    } else {
        let j = n - 1;
        let tn = reqs.take(n);
        assert(tn.drop_last() =~= reqs.take(j));
        assert(tn.last() == reqs[j]);
        lemma_stay_prefix(old, reqs, i, j);
        lemma_distinct_prefix(reqs, j);
        lemma_resolve_all_unique(old, reqs.take(j));
        let (nx, evs) = resolve_all(old, reqs.take(j));
        let req = reqs[j];
        let (nx2, evs2) = resolve_step(old, nx, req);
        assert(resolve_all(old, tn) == (nx2, evs + evs2));
        assert(located(old, req.id));
        let (lc, lr) = locate_spec(old, req.id);
        assert(on_board(old, req.id, lc, lr));
        if j == i {
            assert(step_to(Direction::Stay, c, r) == Option::Some((c, r)));
            assert(target(old, req) == Option::Some((c, r)));
            assert(evs2 =~= Seq::<Move>::empty());
        } else {
            assert(req.id.id_opt() != t.id_opt());
            // `t` stands nowhere but in its own cell of the board being built.
            assert forall|k: int| 0 <= k < 64 && k != ci && !(#[trigger] nx[k] is Empty) implies nx[k].id_opt()
                != t.id_opt() by {
                if j > i {
                    assert(nx[ci].id_opt() is Some);
                } else {
                    let m = choose|m: int|
                        0 <= m < reqs.take(j).len() && nx[k] == (#[trigger] reqs.take(j)[m]).id;
                    assert(reqs.take(j)[m] == reqs[m]);
                }
            }
            match target(old, req) {
                Option::Some((dc, dr)) => {
                    assert(0 <= dc < 8 && 0 <= dr < 8);
                    assert((dc, dr) != (c, r));
                    assert(cell(dc, dr) != ci);
                    let d = cell(dc, dr);
                    if !(nx[d] is Empty) {
                        assert(nx[d].id_opt() != t.id_opt());
                    }
                    assert(nx2[ci] == nx[ci]);
                },
                Option::None => {},
            }
        }
        let all = evs + evs2;
        assert forall|k: int| 0 <= k < all.len() implies (#[trigger] all[k]).id != id by {
            if k < evs.len() {
                assert(all[k] == evs[k]);
            } else {
                assert(all[k] == evs2[k - evs.len()]);
            }
        }
    }
}

/// A piece that asks to stay put, while no other request claims its cell,
/// ends the tick in the cell it held, and no outcome names it, so its world
/// position does not change.
pub proof fn null_intent_stays(old: Seq<TileType>, reqs: Seq<MoveReq>, i: int)
    requires
        old.len() == 64,
        unique_ids(old),
        valid_requests(old, reqs),
        0 <= i < reqs.len(),
        reqs[i].mov == Direction::Stay,
        forall|j: int|
            0 <= j < reqs.len() && j != i ==> target(old, #[trigger] reqs[j]) != Option::Some(
                locate_spec(old, reqs[i].id),
            ),
    ensures
        on_board(
            resolve_all(old, reqs).0,
            reqs[i].id,
            locate_spec(old, reqs[i].id).0,
            locate_spec(old, reqs[i].id).1,
        ),
        unnamed(resolve_all(old, reqs).1, reqs[i].id.id_opt()->Some_0),
{
    lemma_stay_prefix(old, reqs, i, reqs.len() as int);
    assert(reqs.take(reqs.len() as int) =~= reqs);
    assert(located(old, reqs[i].id));
    let (c, r) = locate_spec(old, reqs[i].id);
    assert(on_board(old, reqs[i].id, c, r));
}

/// An opponent that moves onto the cell where the player stands in the
/// board being built captures the player: the only outcome is the player's
/// capture, the opponent takes the cell, and applying the outcome ends the
/// game.
pub proof fn opponent_captures_player(
    old: Seq<TileType>,
    nx: Seq<TileType>,
    req: MoveReq,
    c: int,
    r: int,
    player: EntityId,
)
    requires
        nx.len() == 64,
        req.id is Opponent,
        located(old, req.id),
        target(old, req) == Option::Some((c, r)),
        (c, r) != locate_spec(old, req.id),
        nx[cell(c, r)] == TileType::Player(player),
    ensures
        resolve_step(old, nx, req).1 == seq![Move { id: player, mov: MoveResult::Delete }],
        resolve_step(old, nx, req).0[cell(c, r)] == req.id,
        ends_game(player, resolve_step(old, nx, req).1),
{
    let (lc, lr) = locate_spec(old, req.id);
    assert(on_board(old, req.id, lc, lr));
    let evs = resolve_step(old, nx, req).1;
    assert(evs =~= seq![Move { id: player, mov: MoveResult::Delete }]);
    assert(evs[0] == Move { id: player, mov: MoveResult::Delete });
}

/// The player who moves onto a cell held by opponent `a` in the board
/// being built captures it: `a`'s capture comes out first, the player takes
/// the cell, and applying the outcomes removes `a` and leaves the game
/// running.
pub proof fn player_captures_opponent(
    old: Seq<TileType>,
    nx: Seq<TileType>,
    req: MoveReq,
    c: int,
    r: int,
    a: EntityId,
)
    requires
        nx.len() == 64,
        req.id is Player,
        located(old, req.id),
        target(old, req) == Option::Some((c, r)),
        (c, r) != locate_spec(old, req.id),
        nx[cell(c, r)] == TileType::Opponent(a),
        req.id.id_opt() != Option::Some(a),
    ensures
        resolve_step(old, nx, req).1 == seq![
            Move { id: a, mov: MoveResult::Delete },
            Move { id: req.id.id_opt()->Some_0, mov: MoveResult::NewLoc(position(c, r)) },
        ],
        resolve_step(old, nx, req).0[cell(c, r)] == req.id,
        effect_of(req.id.id_opt()->Some_0, resolve_step(old, nx, req).1[0]) == Effect::Despawn(a),
        !ends_game(req.id.id_opt()->Some_0, resolve_step(old, nx, req).1),
{
    let (lc, lr) = locate_spec(old, req.id);
    assert(on_board(old, req.id, lc, lr));
    let p = req.id.id_opt()->Some_0;
    let evs = resolve_step(old, nx, req).1;
    assert(evs =~= seq![
        Move { id: a, mov: MoveResult::Delete },
        Move { id: p, mov: MoveResult::NewLoc(position(c, r)) },
    ]);
}

/// An opponent that stays while the player has already moved into its cell
/// is captured by the player: `a`'s capture is the only outcome, the player
/// keeps the cell, and the game goes on.
pub proof fn staying_opponent_captured(
    old: Seq<TileType>,
    nx: Seq<TileType>,
    req: MoveReq,
    player: EntityId,
)
    requires
        nx.len() == 64,
        req.id is Opponent,
        located(old, req.id),
        target(old, req) == Option::Some(locate_spec(old, req.id)),
        nx[cell(locate_spec(old, req.id).0, locate_spec(old, req.id).1)] == TileType::Player(player),
        req.id.id_opt() != Option::Some(player),
    ensures
        resolve_step(old, nx, req).1 == seq![Move { id: req.id.id_opt()->Some_0, mov: MoveResult::Delete }],
        resolve_step(old, nx, req).0 == nx,
        effect_of(player, resolve_step(old, nx, req).1[0]) == Effect::Despawn(req.id.id_opt()->Some_0),
        !ends_game(player, resolve_step(old, nx, req).1),
{
    let (lc, lr) = locate_spec(old, req.id);
    assert(on_board(old, req.id, lc, lr));
    let evs = resolve_step(old, nx, req).1;
    assert(evs =~= seq![Move { id: req.id.id_opt()->Some_0, mov: MoveResult::Delete }]);
}

/// Unfolds a tick of two requests.
proof fn lemma_two_requests(old: Seq<TileType>, r0: MoveReq, r1: MoveReq)
    ensures
        ({
            let (n0, e0) = resolve_step(old, empty_tiles(), r0);
            let (n1, e1) = resolve_step(old, n0, r1);
            resolve_all(old, seq![r0, r1]) == (n1, e0 + e1)
        }),
{
    let reqs = seq![r0, r1];
    let one = seq![r0];
    assert(reqs.drop_last() =~= one);
    assert(reqs.last() == r1);
    assert(one.drop_last() =~= Seq::<MoveReq>::empty());
    assert(one.last() == r0);
    assert(resolve_all(old, Seq::<MoveReq>::empty()) == (empty_tiles(), Seq::<Move>::empty()));
    let (n0, e0) = resolve_step(old, empty_tiles(), r0);
    assert(Seq::<Move>::empty() + e0 =~= e0);
    assert(resolve_all(old, one) == (n0, e0));
}

/// In a tick where the player stays at (pc, pr) and then opponent `a`
/// moves onto that cell, the one outcome is the player's capture, so
/// applying it ends the game, and `a` holds the cell.
pub proof fn tick_opponent_captures_player(
    old: Seq<TileType>,
    p: EntityId,
    pc: int,
    pr: int,
    a: EntityId,
    ac: int,
    ar: int,
    dir: Direction,
)
    requires
        old.len() == 64,
        unique_ids(old),
        on_board(old, TileType::Player(p), pc, pr),
        on_board(old, TileType::Opponent(a), ac, ar),
        step_to(dir, ac, ar) == Option::Some((pc, pr)),
    ensures
        ({
            let reqs = seq![
                MoveReq { id: TileType::Player(p), mov: Direction::Stay },
                MoveReq { id: TileType::Opponent(a), mov: dir },
            ];
            &&& resolve_all(old, reqs).1 == seq![Move { id: p, mov: MoveResult::Delete }]
            &&& ends_game(p, resolve_all(old, reqs).1)
            &&& resolve_all(old, reqs).0[cell(pc, pr)] == TileType::Opponent(a)
        }),
{
    let r0 = MoveReq { id: TileType::Player(p), mov: Direction::Stay };
    let r1 = MoveReq { id: TileType::Opponent(a), mov: dir };
    lemma_two_requests(old, r0, r1);
    crate::board::lemma_locate_unique(old, r0.id, pc, pr);
    crate::board::lemma_locate_unique(old, r1.id, ac, ar);
    assert(step_to(Direction::Stay, pc, pr) == Option::Some((pc, pr)));
    let (n0, e0) = resolve_step(old, empty_tiles(), r0);
    assert(e0 =~= Seq::<Move>::empty());
    assert(n0[cell(pc, pr)] == TileType::Player(p));
    assert((pc, pr) != (ac, ar));
    opponent_captures_player(old, n0, r1, pc, pr, p);
    assert(e0 + resolve_step(old, n0, r1).1 =~= seq![Move { id: p, mov: MoveResult::Delete }]);
}

/// In a tick where the player moves from (pc, pr) onto the cell of
/// opponent `a`, which stays, the player arrives there and `a` is
/// captured: the outcomes are the player's move and `a`'s capture, so
/// applying them removes `a` and leaves the game running.
pub proof fn tick_player_captures_opponent(
    old: Seq<TileType>,
    p: EntityId,
    pc: int,
    pr: int,
    a: EntityId,
    ac: int,
    ar: int,
    dir: Direction,
)
    requires
        old.len() == 64,
        unique_ids(old),
        on_board(old, TileType::Player(p), pc, pr),
        on_board(old, TileType::Opponent(a), ac, ar),
        step_to(dir, pc, pr) == Option::Some((ac, ar)),
    ensures
        ({
            let reqs = seq![
                MoveReq { id: TileType::Player(p), mov: dir },
                MoveReq { id: TileType::Opponent(a), mov: Direction::Stay },
            ];
            &&& resolve_all(old, reqs).1 == seq![
                Move { id: p, mov: MoveResult::NewLoc(position(ac, ar)) },
                Move { id: a, mov: MoveResult::Delete },
            ]
            &&& !ends_game(p, resolve_all(old, reqs).1)
            &&& effect_of(p, resolve_all(old, reqs).1[1]) == Effect::Despawn(a)
            &&& resolve_all(old, reqs).0[cell(ac, ar)] == TileType::Player(p)
        }),
{
    let r0 = MoveReq { id: TileType::Player(p), mov: dir };
    let r1 = MoveReq { id: TileType::Opponent(a), mov: Direction::Stay };
    lemma_two_requests(old, r0, r1);
    crate::board::lemma_locate_unique(old, r0.id, pc, pr);
    crate::board::lemma_locate_unique(old, r1.id, ac, ar);
    assert(old[cell(pc, pr)].id_opt() is Some);
    assert(cell(pc, pr) != cell(ac, ar));
    assert(a != p);
    assert(step_to(Direction::Stay, ac, ar) == Option::Some((ac, ar)));
    let (n0, e0) = resolve_step(old, empty_tiles(), r0);
    assert(e0 =~= seq![Move { id: p, mov: MoveResult::NewLoc(position(ac, ar)) }]);
    assert(n0[cell(ac, ar)] == TileType::Player(p));
    staying_opponent_captured(old, n0, r1, p);
    let evs = e0 + resolve_step(old, n0, r1).1;
    assert(evs =~= seq![
        Move { id: p, mov: MoveResult::NewLoc(position(ac, ar)) },
        Move { id: a, mov: MoveResult::Delete },
    ]);
    assert(!ends_game(p, evs)) by {
        if ends_game(p, evs) {
            let j = choose|j: int| 0 <= j < evs.len() && #[trigger] evs[j] == Move { id: p, mov: MoveResult::Delete };
            assert(j == 0 || j == 1);
        }
    }
}

} // verus!
