use vstd::prelude::*;
use crate::chance::pick_one;

verus! {

/// One of the four headings an occupant of the maze can face or step in.
#[derive(Clone, Copy, Debug, PartialEq, Eq, Structural)]
pub enum Direction {
    Left,
    Right,
    Down,
    Up,
}

/// Horizontal part of the unit displacement of `dir`: columns grow to the right.
pub open spec fn dx(dir: Direction) -> int {
    match dir {
        Direction::Left => -1,
        Direction::Right => 1,
        Direction::Up => 0,
        Direction::Down => 0,
    }
}

/// Vertical part of the unit displacement of `dir`: rows grow downwards.
pub open spec fn dy(dir: Direction) -> int {
    match dir {
        Direction::Left => 0,
        Direction::Right => 0,
        Direction::Up => -1,
        Direction::Down => 1,
    }
}

/// The unit displacement `(dx, dy)` of a direction.
pub fn get_dxdy(dir: Direction) -> (d: (i32, i32))
    ensures
        d.0 == dx(dir),
        d.1 == dy(dir),
{
    match dir {
        Direction::Left => (-1, 0),
        Direction::Right => (1, 0),
        Direction::Up => (0, -1),
        Direction::Down => (0, 1),
    }
}

impl Direction {
    /// A heading drawn at random, each of the four with the same chance.
    pub fn random(rng: &mut rand::ThreadRng) -> Direction {
        let dirs = [Direction::Down, Direction::Up, Direction::Right, Direction::Left];
        match pick_one(rng, dirs.as_slice()) {
            Some(dir) => *dir,
            None => Direction::Up,
        }
    }
}

} // verus!
