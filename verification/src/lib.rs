//! The engine of a maze game, verified with Verus.
//!
//! A maze is a rectangle of cells that hold free ground, walls, boulders, an
//! exit, trolls and one player. The player turns and steps on request,
//! pushes boulders, wins on the exit and dies on a troll; the trolls wander
//! at random, push boulders too, and kill when they reach the player.
//!
//! * [`grid`] is the mathematical model: grids as sequences of rows, and the
//!   rules of the game as functions on them.
//! * [`maze`], [`movement`], [`trolls`] and [`spawn`] hold the board and what
//!   changes it, each function with a contract over the model.
//! * [`loader`] reads a maze from the text of a map.
//! * [`game`] sets up a game and runs a session from its start to its end.
//! * [`draw`] turns a maze into steps for a painter.
//! * [`laws`] proves what holds of every game.
//! * [`chance`] is where the random numbers come from: the `rand` crate,
//!   behind contracts that are taken on trust.

pub mod chance;
pub mod direction;
pub mod draw;
pub mod game;
pub mod grid;
pub mod laws;
pub mod loader;
pub mod maze;
pub mod movement;
pub mod piece;
pub mod spawn;
pub mod trolls;

pub use direction::Direction;
pub use game::{make_new_game, Phase, Session};
pub use loader::LoadError;
pub use maze::Maze;
pub use piece::{GameState, Piece, TrollAction};
