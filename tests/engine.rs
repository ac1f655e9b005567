use chess_dodge::board::{Board, Direction, EntityId, Move, MoveReq, MoveResult, TileType, WorldPos};
use chess_dodge::game::{Effect, Game, SpawnChoice, OFF_BOARD_X, OFF_BOARD_Y};
use chess_dodge::pieces::{
    bishop_move, knight_move, rook_move, Controls, Opponent, Piece, Player, PLAYER_MOVE_SPEED,
};
use chess_dodge::spawner::{
    piece_for_roll, spawn_locations, Spawner, MAX_OPP_SPEED, MAX_SPAWN_DUR, MIN_OPP_SPEED,
    MIN_SPAWN_DUR,
};
use chess_dodge::timer::{Timer, TimerMode};
use nanorand::pcg64::Pcg64;

const P: EntityId = EntityId(1);

fn no_controls() -> Controls {
    Controls {
        up: false,
        down: false,
        left: false,
        right: false,
        up_left_wide: false,
        up_left_narrow: false,
        up_right_narrow: false,
        up_right_wide: false,
        down_left_wide: false,
        down_left_narrow: false,
        down_right_narrow: false,
        down_right_wide: false,
    }
}

fn req(id: TileType, mov: Direction) -> MoveReq {
    MoveReq { id, mov }
}

fn game_with(player_at: Option<(usize, usize)>) -> Game {
    let mut board = Board::default();
    if let Some((x, y)) = player_at {
        assert!(board.place_piece(x, y, TileType::Player(P)));
    }
    Game { board, spawner: Spawner::new(), game_over: false, player: P }
}

#[test]
fn player_moves_up_from_centre() {
    let mut board = Board::default();
    assert!(board.place_piece(3, 3, TileType::Player(P)));
    let evs = board.update(&vec![req(TileType::Player(P), Direction::Up)]);
    assert_eq!(evs, vec![Move { id: P, mov: MoveResult::NewLoc(Board::coord_to_vec(3, 2)) }]);
    assert_eq!(board.get(3, 2), TileType::Player(P));
    assert_eq!(board.get(3, 3), TileType::Empty);
}

#[test]
fn rook_steps_down() {
    let o = EntityId(7);
    let mut board = Board::default();
    assert!(board.place_piece(5, 0, TileType::Opponent(o)));
    let evs = board.update(&vec![req(TileType::Opponent(o), Direction::Down)]);
    assert_eq!(evs, vec![Move { id: o, mov: MoveResult::NewLoc(Board::coord_to_vec(5, 1)) }]);
    assert_eq!(board.get(5, 1), TileType::Opponent(o));
}

#[test]
fn opponent_lands_on_player() {
    let o = EntityId(7);
    let mut game = game_with(Some((3, 2)));
    assert!(game.board.place_piece(3, 1, TileType::Opponent(o)));
    let reqs = vec![req(TileType::Player(P), Direction::Stay), req(TileType::Opponent(o), Direction::Down)];
    let evs = game.update_board(&reqs);
    assert_eq!(evs, vec![Move { id: P, mov: MoveResult::Delete }]);
    assert_eq!(game.board.get(3, 2), TileType::Opponent(o));
    let effects = game.move_pieces(&evs);
    assert!(game.game_over);
    assert_eq!(effects, vec![Effect::Place(P, WorldPos { x: OFF_BOARD_X, y: OFF_BOARD_Y })]);
}

#[test]
fn player_captures_opponent_and_game_goes_on() {
    let a = EntityId(9);
    let mut game = game_with(Some((3, 3)));
    assert!(game.board.place_piece(3, 2, TileType::Opponent(a)));
    let reqs = vec![req(TileType::Player(P), Direction::Up), req(TileType::Opponent(a), Direction::Stay)];
    let evs = game.update_board(&reqs);
    assert_eq!(
        evs,
        vec![
            Move { id: P, mov: MoveResult::NewLoc(Board::coord_to_vec(3, 2)) },
            Move { id: a, mov: MoveResult::Delete },
        ]
    );
    assert_eq!(game.board.get(3, 2), TileType::Player(P));
    assert_eq!(game.board.get(3, 3), TileType::Empty);
    let effects = game.move_pieces(&evs);
    assert!(!game.game_over);
    assert_eq!(effects, vec![Effect::Place(P, Board::coord_to_vec(3, 2)), Effect::Despawn(a)]);
}

#[test]
fn spawn_only_in_free_column() {
    for _ in 0..50 {
        let mut game = game_with(Some((3, 3)));
        for col in 0..8usize {
            if col != 2 {
                assert!(game.board.place_piece(col, 0, TileType::Opponent(EntityId(100 + col as u64))));
            }
        }
        let mut rng = Pcg64::new();
        let s = game.spawn_opp_piece(EntityId(50), &mut rng).unwrap();
        assert_eq!(s.col, 2);
        assert_eq!(s.id, EntityId(50));
        assert_eq!(s.capture, None);
        assert_eq!(game.board.get(2, 0), TileType::Opponent(EntityId(50)));
    }
}

#[test]
fn spawn_interval_stays_at_floor() {
    let mut s = Spawner::new();
    s.cur_duration = MIN_SPAWN_DUR;
    s.ramp();
    assert_eq!(s.cur_duration, MIN_SPAWN_DUR);
    assert_eq!(s.timer.duration, MIN_SPAWN_DUR);
    s.ramp();
    assert_eq!(s.cur_duration, MIN_SPAWN_DUR);
}

#[test]
fn null_intent_keeps_position() {
    let o = EntityId(4);
    let mut game = game_with(Some((0, 7)));
    assert!(game.board.place_piece(6, 4, TileType::Opponent(o)));
    let reqs = vec![req(TileType::Player(P), Direction::Stay), req(TileType::Opponent(o), Direction::Stay)];
    let evs = game.update_board(&reqs);
    assert!(evs.is_empty());
    assert_eq!(game.board.get(6, 4), TileType::Opponent(o));
    assert_eq!(game.board.get(0, 7), TileType::Player(P));
}

#[test]
fn ramp_never_rises_and_stops_at_floors() {
    let mut s = Spawner::new();
    assert_eq!(s.cur_duration, MAX_SPAWN_DUR);
    assert_eq!(s.cur_piece_speed, MAX_OPP_SPEED);
    s.ramp();
    assert_eq!(s.cur_duration, 1_400_000);
    assert_eq!(s.cur_piece_speed, 1_150_000);
    let mut prev = (s.cur_duration, s.cur_piece_speed);
    for n in 2..=30 {
        s.ramp();
        assert!(s.cur_duration <= prev.0 && s.cur_piece_speed <= prev.1);
        assert!(s.cur_duration >= MIN_SPAWN_DUR && s.cur_piece_speed >= MIN_OPP_SPEED);
        if n == 9 {
            assert_eq!(s.cur_duration, MIN_SPAWN_DUR);
        }
        if n == 16 {
            assert_eq!(s.cur_piece_speed, MIN_OPP_SPEED);
        }
        prev = (s.cur_duration, s.cur_piece_speed);
    }
}

#[test]
fn destinations_stay_on_board() {
    assert_eq!(Board::new_xy(Direction::Left, (0, 0)), None);
    assert_eq!(Board::new_xy(Direction::Up, (4, 0)), None);
    assert_eq!(Board::new_xy(Direction::DownRightNarrow, (6, 5)), Some((7, 7)));
    assert_eq!(Board::new_xy(Direction::DownRightNarrow, (6, 6)), None);
    assert_eq!(Board::new_xy(Direction::UpLeftWide, (2, 1)), Some((0, 0)));
    assert_eq!(Board::new_xy(Direction::Stay, (7, 7)), Some((7, 7)));
}

#[test]
fn positions_centre_on_cell_three_three() {
    assert_eq!(Board::coord_to_vec(3, 3), WorldPos { x: 0, y: 0 });
    assert_eq!(Board::coord_to_vec(3, 2), WorldPos { x: 0, y: 170 });
    assert_eq!(Board::coord_to_vec(0, 7), WorldPos { x: -510, y: -680 });
    assert_eq!(Board::coord_to_vec(7, 0), WorldPos { x: 680, y: 510 });
}

#[test]
fn player_blocked_by_edge_stays() {
    let mut board = Board::default();
    assert!(board.place_piece(0, 0, TileType::Player(P)));
    let evs = board.update(&vec![req(TileType::Player(P), Direction::Up)]);
    assert!(evs.is_empty());
    assert_eq!(board.get(0, 0), TileType::Player(P));
}

#[test]
fn opponent_leaving_board_is_removed() {
    let o = EntityId(3);
    let mut board = Board::default();
    assert!(board.place_piece(0, 7, TileType::Opponent(o)));
    let evs = board.update(&vec![req(TileType::Opponent(o), Direction::Down)]);
    assert_eq!(evs, vec![Move { id: o, mov: MoveResult::Delete }]);
    assert_eq!(board.locate(TileType::Opponent(o)), None);
}

#[test]
fn opponent_blocked_by_opponent_is_removed() {
    let a = EntityId(3);
    let b = EntityId(4);
    let mut board = Board::default();
    assert!(board.place_piece(2, 2, TileType::Opponent(a)));
    assert!(board.place_piece(2, 1, TileType::Opponent(b)));
    let reqs = vec![req(TileType::Opponent(a), Direction::Stay), req(TileType::Opponent(b), Direction::Down)];
    let evs = board.update(&reqs);
    assert_eq!(evs, vec![Move { id: b, mov: MoveResult::Delete }]);
    assert_eq!(board.get(2, 2), TileType::Opponent(a));
    assert_eq!(board.get(2, 1), TileType::Empty);
}

#[test]
fn locate_and_place() {
    let mut board = Board::default();
    assert!(board.place_piece(4, 6, TileType::Player(P)));
    assert!(!board.place_piece(4, 6, TileType::Opponent(EntityId(2))));
    assert_eq!(board.get(4, 6), TileType::Player(P));
    assert_eq!(board.locate(TileType::Player(P)), Some((4, 6)));
    assert_eq!(board.locate(TileType::Opponent(P)), None);
}

#[test]
fn one_shot_timer_fires_once() {
    let mut t = Timer::new(0, TimerMode::Once);
    assert!(t.tick(16_000));
    assert!(!t.tick(16_000));
    let mut t = Timer::new(100, TimerMode::Once);
    assert!(!t.tick(60));
    assert!(t.tick(60));
    assert_eq!(t.elapsed, 100);
    assert!(!t.tick(1_000));
}

#[test]
fn repeating_timer_keeps_remainder() {
    let mut t = Timer::new(100, TimerMode::Repeating);
    assert!(!t.tick(70));
    assert!(t.tick(70));
    assert_eq!(t.elapsed, 40);
    assert!(t.tick(260));
    assert_eq!(t.elapsed, 0);
}

#[test]
fn control_decoding() {
    let mut c = no_controls();
    assert_eq!(rook_move(&c), None);
    c.up = true;
    assert_eq!(rook_move(&c), Some(Direction::Up));
    assert_eq!(bishop_move(&c), None);
    c.left = true;
    assert_eq!(rook_move(&c), None);
    assert_eq!(bishop_move(&c), Some(Direction::UpLeft));
    let mut k = no_controls();
    k.down_right_wide = true;
    assert_eq!(knight_move(&k), Some(Direction::DownRightWide));
    k.up_right_narrow = true;
    assert_eq!(knight_move(&k), Some(Direction::UpRightNarrow));
}

#[test]
fn player_cooldown() {
    let mut pl = Player::new(PLAYER_MOVE_SPEED);
    let mut c = no_controls();
    c.up_left_wide = true;
    let r = pl.player_input(P, Piece::Knight, 16_000, &c);
    assert_eq!(r, req(TileType::Player(P), Direction::UpLeftWide));
    assert!(!pl.can_move);
    let r = pl.player_input(P, Piece::Knight, 100_000, &c);
    assert_eq!(r.mov, Direction::Stay);
    let r = pl.player_input(P, Piece::Knight, 60_000, &c);
    assert_eq!(r.mov, Direction::UpLeftWide);
    let idle = pl.player_input(P, Piece::Knight, 200_000, &no_controls());
    assert_eq!(idle.mov, Direction::Stay);
    assert!(pl.can_move);
}

#[test]
fn opponent_moves_when_timer_fires() {
    let mut rng = Pcg64::new();
    let o = EntityId(5);
    let mut rook = Opponent::new(500_000);
    assert_eq!(rook.opp_move(o, Piece::Rook, 200_000, &mut rng), req(TileType::Opponent(o), Direction::Stay));
    assert_eq!(rook.opp_move(o, Piece::Rook, 300_000, &mut rng), req(TileType::Opponent(o), Direction::Down));
    let mut seen_left = false;
    let mut seen_right = false;
    let mut bishop = Opponent::new(10);
    for _ in 0..200 {
        let r = bishop.opp_move(o, Piece::Bishop, 10, &mut rng);
        match r.mov {
            Direction::DownLeft => seen_left = true,
            Direction::DownRight => seen_right = true,
            other => panic!("bishop moved {:?}", other),
        }
    }
    assert!(seen_left && seen_right);
}

#[test]
fn spawn_draws_vary() {
    let mut rng = Pcg64::new();
    let mut cols = [false; 8];
    let mut kinds = [false; 3];
    let mut times = std::collections::HashSet::new();
    for n in 0..300u64 {
        let mut game = game_with(None);
        let s = game.spawn_opp_piece(EntityId(n + 10), &mut rng).unwrap();
        cols[s.col] = true;
        let offset = s.move_time - MAX_OPP_SPEED;
        assert!(offset == 0 || offset == 300_000 || offset == 600_000 || offset == 900_000);
        times.insert(s.move_time);
        match s.piece {
            Piece::Queen => kinds[0] = true,
            Piece::Bishop => kinds[1] = true,
            Piece::Rook => kinds[2] = true,
            other => panic!("spawned {:?}", other),
        }
    }
    assert!(cols.iter().filter(|c| **c).count() >= 2);
    assert!(kinds[2] && kinds[1]);
    assert!(times.len() >= 2);
}

#[test]
fn spawn_on_player_captures() {
    let mut game = game_with(Some((2, 0)));
    for col in 0..8usize {
        if col != 2 {
            assert!(game.board.place_piece(col, 0, TileType::Opponent(EntityId(100 + col as u64))));
        }
    }
    let mut rng = Pcg64::new();
    let s = game.spawn_opp_piece(EntityId(60), &mut rng).unwrap();
    assert_eq!(s.capture, Some(Move { id: P, mov: MoveResult::Delete }));
    let effects = game.move_pieces(&vec![s.capture.unwrap()]);
    assert!(game.game_over);
    assert_eq!(effects.len(), 1);
}

#[test]
fn spawn_with_full_top_row_only_ramps() {
    let mut game = game_with(Some((3, 3)));
    for col in 0..8usize {
        assert!(game.board.place_piece(col, 0, TileType::Opponent(EntityId(100 + col as u64))));
    }
    assert!(spawn_locations(&game.board).is_empty());
    let r = game.spawn_at(EntityId(61), None);
    assert_eq!(r, None);
    assert_eq!(game.spawner.cur_duration, 1_400_000);
}

#[test]
fn spawn_with_given_draws() {
    let mut game = game_with(Some((3, 3)));
    let ch = SpawnChoice { col: 5, move_time: MAX_OPP_SPEED + 600_000, roll: 1 };
    let s = game.spawn_at(EntityId(70), Some(ch)).unwrap();
    assert_eq!(s.piece, Piece::Queen);
    assert_eq!(s.col, 5);
    assert_eq!(s.move_time, 1_800_000);
    assert_eq!(game.board.get(5, 0), TileType::Opponent(EntityId(70)));
    assert_eq!(game.spawner.cur_piece_speed, 1_150_000);
    assert_eq!(game.spawner.timer, Timer::new(1_400_000, TimerMode::Once));
}

#[test]
fn piece_kind_bands() {
    assert_eq!(piece_for_roll(1), Piece::Queen);
    assert_eq!(piece_for_roll(2), Piece::Bishop);
    assert_eq!(piece_for_roll(5), Piece::Bishop);
    assert_eq!(piece_for_roll(6), Piece::Rook);
    assert_eq!(piece_for_roll(17), Piece::Rook);
}

#[test]
fn spawn_columns_skip_opponents() {
    let mut board = Board::default();
    assert!(board.place_piece(1, 0, TileType::Opponent(EntityId(2))));
    assert!(board.place_piece(4, 0, TileType::Player(P)));
    assert!(board.place_piece(5, 1, TileType::Opponent(EntityId(3))));
    assert_eq!(spawn_locations(&board), vec![0, 2, 3, 4, 5, 6, 7]);
}

#[test]
fn new_game_and_spawn_timer() {
    let mut game = Game::new(P);
    assert_eq!(game.board.locate(TileType::Player(P)), Some((3, 3)));
    assert!(!game.game_over);
    assert!(game.spawn_timer(16_000));
    assert!(!game.spawn_timer(16_000));
}

#[test]
fn nothing_moves_after_game_over() {
    let mut game = Game::new(P);
    game.game_over = true;
    let evs = game.update_board(&vec![req(TileType::Player(P), Direction::Up)]);
    assert!(evs.is_empty());
    assert_eq!(game.board.get(3, 3), TileType::Player(P));
    assert!(!game.spawn_timer(16_000));
    let mut rng = Pcg64::new();
    assert_eq!(game.spawn_opp_piece(EntityId(80), &mut rng), None);
    assert_eq!(game.spawner.cur_duration, MAX_SPAWN_DUR);
}

#[test]
fn staying_opponent_taken_by_arrival() {
    let a = EntityId(3);
    let b = EntityId(4);
    let mut board = Board::default();
    assert!(board.place_piece(2, 2, TileType::Opponent(a)));
    assert!(board.place_piece(2, 1, TileType::Opponent(b)));
    let reqs = vec![req(TileType::Opponent(b), Direction::Down), req(TileType::Opponent(a), Direction::Stay)];
    let evs = board.update(&reqs);
    assert_eq!(
        evs,
        vec![
            Move { id: b, mov: MoveResult::NewLoc(Board::coord_to_vec(2, 2)) },
            Move { id: a, mov: MoveResult::Delete },
        ]
    );
    assert_eq!(board.get(2, 2), TileType::Opponent(b));
    assert_eq!(board.get(2, 1), TileType::Empty);
}

#[test]
fn staying_player_is_put_back_without_outcome() {
    let mut board = Board::default();
    assert!(board.place_piece(7, 7, TileType::Player(P)));
    let mut next = Board::default();
    let evs = board.mov(&req(TileType::Player(P), Direction::DownRight), &mut next);
    assert!(evs.is_empty());
    assert_eq!(next.get(7, 7), TileType::Player(P));
    let evs = board.mov(&req(TileType::Player(P), Direction::Stay), &mut next);
    assert!(evs.is_empty());
    assert_eq!(next.get(7, 7), TileType::Player(P));
}
