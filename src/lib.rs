//! Discrete simulation engine of a grid survival game: one controlled piece
//! on an 8x8 board, enemy pieces that spawn on the top edge and advance, and a
//! spawner whose pace tightens over time.
//!
//! A tick runs in this order: each piece states its request (`pieces`), the
//! board resolves them one after another into a new board (`board`,
//! `Game::update_board`), the spawner may place a new opponent
//! (`Game::spawn_timer`, `Game::spawn_opp_piece`), and the outcomes are turned
//! into effects for the presentation layer (`Game::move_pieces`). Requests
//! are resolved in the order they are given, and that order decides who
//! captures whom when two pieces meet; `valid_requests` asks that the
//! player's request come first. Times are whole microseconds, and world
//! positions half-pixels with the centre of cell (3, 3) at the origin.

pub mod board;
pub mod game;
pub mod laws;
pub mod pieces;
pub mod rng;
pub mod spawner;
pub mod timer;
