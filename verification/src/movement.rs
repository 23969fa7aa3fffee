use vstd::prelude::*;
use crate::direction::Direction;
use crate::grid::{advance, attempt, has_player, one_player, player_at, request};
use crate::laws::{lemma_advance_preserves, lemma_put, lemma_put_keeps_players};
use crate::maze::Maze;
use crate::piece::{GameState, Piece};

verus! {

impl Maze {
    /// The occupant `piece`, standing on `(x, y)`, tries to step one cell in
    /// direction `dir`. Where `(x, y)` is no cell of the maze, does not hold
    /// `piece`, or `piece` is neither player nor troll, the move is invalid
    /// and nothing changes.
    pub fn move_piece_forward(
        &mut self,
        piece: Piece,
        x: usize,
        y: usize,
        dir: Direction,
    ) -> (r: GameState)
        requires
            old(self).wf(),
        ensures
            final(self).wf(),
            (final(self)@, r) == attempt(old(self)@, piece, x as int, y as int, dir),
            has_player(final(self)@) == has_player(old(self)@),
    {
        match self.get(x, y) {
            Some(here) => {
                if here != piece || !piece.occupant() {
                    return GameState::InvalidMove;
                }
            },
            None => {
                return GameState::InvalidMove;
            },
        }
        proof {
            lemma_advance_preserves(self@, x as int, y as int, dir);
        }
        let (nx, ny) = match self.neighbor(x, y, dir) {
            Some(n) => n,
            None => {
                return GameState::InvalidMove;
            },
        };
        let target = self.at(nx, ny);
        match target {
            Piece::Empty => {
                self.set(x, y, Piece::Empty);
                proof {
                    lemma_put(old(self)@, x as int, y as int, Piece::Empty);
                }
                self.set(nx, ny, piece);
                GameState::Moved
            },
            Piece::Boulder => {
                let (bx, by) = match self.neighbor(nx, ny, dir) {
                    Some(n) => n,
                    None => {
                        return GameState::InvalidMove;
                    },
                };
                let beyond = self.at(bx, by);
                match beyond {
                    Piece::Empty | Piece::Troll(_) => {
                        self.set(x, y, Piece::Empty);
                        proof {
                            lemma_put(old(self)@, x as int, y as int, Piece::Empty);
                        }
                        let ghost g1 = self@;
                        self.set(bx, by, Piece::Boulder);
                        proof {
                            lemma_put(g1, bx as int, by as int, Piece::Boulder);
                        }
                        self.set(nx, ny, piece);
                        GameState::Moved
                    },
                    _ => GameState::InvalidMove,
                }
            },
            Piece::Wall => GameState::InvalidMove,
            Piece::Exit => match piece {
                Piece::Player(_) => GameState::Won,
                _ => GameState::InvalidMove,
            },
            Piece::Troll(_) => match piece {
                Piece::Player(_) => GameState::Dead,
                _ => GameState::InvalidMove,
            },
            Piece::Player(_) => match piece {
                Piece::Troll(_) => GameState::Dead,
                _ => GameState::InvalidMove,
            },
        }
    }

    /// The player tries to step one cell the way it faces.
    pub fn move_player_forward(&mut self) -> (r: GameState)
        requires
            old(self).wf(),
            has_player(old(self)@),
        ensures
            final(self).wf(),
            one_player(final(self)@),
            forall|x: int, y: int| #[trigger]
                player_at(old(self)@, x, y) ==> (final(self)@, r) == advance(
                    old(self)@,
                    x,
                    y,
                    old(self)@[y][x]->Player_0,
                ),
    {
        match self.find_player() {
            Some((x, y, dir)) => {
                self.move_piece_forward(Piece::Player(dir), x, y, dir)
            },
            None => GameState::InvalidMove,
        }
    }

    /// A directional request to the player. Where `req_dir` is not the way
    /// the player faces, the player turns to it and stays on its cell, which
    /// counts as `Moved`. Where it is, the player tries to step that way.
    pub fn move_player(&mut self, req_dir: Direction) -> (r: GameState)
        requires
            old(self).wf(),
            has_player(old(self)@),
        ensures
            final(self).wf(),
            one_player(final(self)@),
            forall|x: int, y: int| #[trigger]
                player_at(old(self)@, x, y) ==> (final(self)@, r) == request(
                    old(self)@,
                    x,
                    y,
                    req_dir,
                ),
    {
        match self.find_player() {
            Some((x, y, dir)) => {
                if dir == req_dir {
                    self.move_player_forward()
                } else {
                    proof {
                        lemma_put_keeps_players(
                            self@,
                            x as int,
                            y as int,
                            Piece::Player(req_dir),
                        );
                    }
                    self.set(x, y, Piece::Player(req_dir));
                    GameState::Moved
                }
            },
            None => GameState::InvalidMove,
        }
    }
}

} // verus!
