use vstd::prelude::*;
use crate::direction::Direction;

verus! {

/// What one cell of the maze holds.
#[derive(Clone, Copy, Debug, PartialEq, Eq, Structural)]
pub enum Piece {
    /// Free ground.
    Empty,
    /// The player, with the heading it faces.
    Player(Direction),
    /// A rock that an occupant can push one cell ahead of itself.
    Boulder,
    /// The way out: the player wins by stepping onto it.
    Exit,
    /// A troll, with the heading it faces.
    Troll(Direction),
    /// Solid rock: nothing enters it and nothing moves it.
    Wall,
}

/// How a requested move ended.
#[derive(Clone, Copy, Debug, PartialEq, Eq, Structural)]
pub enum GameState {
    /// The player reached the exit.
    Won,
    /// The move was rejected and the maze is as it was.
    InvalidMove,
    /// The maze changed and play goes on.
    Moved,
    /// The player and a troll met.
    Dead,
}

/// What a troll does with its turn.
#[derive(Clone, Copy, Debug, PartialEq, Eq, Structural)]
pub enum TrollAction {
    /// Stay in place and face the given heading.
    Turn(Direction),
    /// Try to step one cell the way it faces.
    Advance,
}

impl Piece {
    /// Players and trolls are the pieces that move by themselves.
    pub open spec fn is_occupant(self) -> bool {
        self is Player || self is Troll
    }

    /// Exec counterpart of [`Piece::is_occupant`].
    pub fn occupant(&self) -> (b: bool)
        ensures
            b == self.is_occupant(),
    {
        match self {
            Piece::Player(_) => true,
            Piece::Troll(_) => true,
            _ => false,
        }
    }
}

} // verus!
