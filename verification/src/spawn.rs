use vstd::prelude::*;
use crate::chance::sample_range;
use crate::direction::Direction;
use crate::grid::{
    before, changed, changed_cells, has_player, has_room, one_player, put, same_player,
    spawnable, spawned_at, spawned_from,
};
use crate::laws::{
    lemma_nothing_changed, lemma_put, lemma_put_first_player, lemma_put_keeps_players,
    lemma_spawn_one_more,
};
use crate::maze::Maze;
use crate::piece::Piece;

verus! {

/// `s` lists exactly the spawnable cells met before `(x, y)` when the grid is
/// read in row-major order, in that order.
spec fn free_before(g: Seq<Seq<Piece>>, s: Seq<(usize, usize)>, x: int, y: int) -> bool {
    &&& forall|i: int|
        0 <= i < s.len() ==> spawnable(g, (#[trigger] s[i]).0 as int, s[i].1 as int) && before(
            s[i].0 as int,
            s[i].1 as int,
            x,
            y,
        )
    &&& forall|i: int, j: int|
        0 <= i < j < s.len() ==> before(
            (#[trigger] s[i]).0 as int,
            s[i].1 as int,
            (#[trigger] s[j]).0 as int,
            s[j].1 as int,
        )
    &&& forall|a: int, b: int| #[trigger]
        spawnable(g, a, b) && before(a, b, x, y) ==> exists|i: int|
            0 <= i < s.len() && (#[trigger] s[i]).0 == a && s[i].1 == b
}

/// `s` lists the spawnable cells of `g`, each once, in row-major order.
pub open spec fn free_listing(g: Seq<Seq<Piece>>, s: Seq<(usize, usize)>) -> bool {
    &&& forall|i: int| 0 <= i < s.len() ==> spawnable(g, (#[trigger] s[i]).0 as int, s[i].1 as int)
    &&& forall|i: int, j: int|
        0 <= i < j < s.len() ==> before(
            (#[trigger] s[i]).0 as int,
            s[i].1 as int,
            (#[trigger] s[j]).0 as int,
            s[j].1 as int,
        )
    &&& forall|a: int, b: int| #[trigger]
        spawnable(g, a, b) ==> exists|i: int|
            0 <= i < s.len() && (#[trigger] s[i]).0 == a && s[i].1 == b
}

impl Maze {
    /// The cells on which a piece can be spawned: free ground off the outer
    /// border, in row-major order.
    pub fn free_cells(&self) -> (cells: Vec<(usize, usize)>)
        requires
            self.wf(),
        ensures
            free_listing(self@, cells@),
            cells@.len() > 0 <==> has_room(self@),
    {
        let mut cells: Vec<(usize, usize)> = Vec::new();
        let rows = self.rows();
        let cols = self.cols();
        if rows < 3 || cols < 3 {
            assert forall|a: int, b: int| !spawnable(self@, a, b) by {}
            return cells;
        }
        let mut y: usize = 1;
        while y < rows - 1
            invariant
                self.wf(),
                rows == self@.len(),
                cols == self@[0].len(),
                rows >= 3,
                cols >= 3,
                1 <= y <= rows - 1,
                free_before(self@, cells@, 0, y as int),
            decreases rows - y,
        {
            let mut x: usize = 1;
            while x < cols - 1
                invariant
                    self.wf(),
                    rows == self@.len(),
                    cols == self@[0].len(),
                    rows >= 3,
                    cols >= 3,
                    1 <= y < rows - 1,
                    1 <= x <= cols - 1,
                    free_before(self@, cells@, x as int, y as int),
                decreases cols - x,
            {
                let ghost seen = cells@;
                match self.at(x, y) {
                    Piece::Empty => {
                        cells.push((x, y));
                        assert forall|a: int, b: int| #[trigger]
                            spawnable(self@, a, b) && before(
                                a,
                                b,
                                x + 1,
                                y as int,
                            ) implies exists|i: int|
                            0 <= i < cells@.len() && (#[trigger] cells@[i]).0 == a && cells@[i].1
                                == b by {
                            if a == x && b == y {
                                assert(cells@[seen.len() as int].0 == a);
                            } else {
                                let i = choose|i: int|
                                    0 <= i < seen.len() && (#[trigger] seen[i]).0 == a && seen[i].1
                                        == b;
                                assert(cells@[i].0 == a);
                            }
                        }
                    },
                    _ => {},
                }
                x += 1;
            }
            y += 1;
        }
        proof {
            if cells@.len() > 0 {
                assert(spawnable(self@, cells@[0].0 as int, cells@[0].1 as int));
            }
        }
        cells
    }

    /// Puts `piece` on cell `(x, y)`, provided that the cell is free ground
    /// off the outer border and, for a player, that the maze has none yet.
    /// Otherwise the maze stays as it is.
    pub fn place_piece(&mut self, piece: Piece, x: usize, y: usize) -> (placed: bool)
        requires
            old(self).wf(),
        ensures
            final(self).wf(),
            placed <==> spawnable(old(self)@, x as int, y as int) && (piece is Player
                ==> !has_player(old(self)@)),
            placed ==> final(self)@ == put(old(self)@, x as int, y as int, piece),
            !placed ==> final(self)@ == old(self)@,
    {
        let rows = self.rows();
        let cols = self.cols();
        if !(1 <= y && y < rows - 1 && 1 <= x && x < cols - 1) {
            return false;
        }
        match self.at(x, y) {
            Piece::Empty => {},
            _ => {
                return false;
            },
        }
        match piece {
            Piece::Player(_) => {
                if self.find_player().is_some() {
                    return false;
                }
                proof {
                    lemma_put_first_player(self@, x as int, y as int, piece);
                }
            },
            _ => {
                proof {
                    lemma_put_keeps_players(self@, x as int, y as int, piece);
                }
            },
        }
        self.set(x, y, piece);
        true
    }

    /// Puts `piece` on a cell drawn at random among the free cells off the
    /// outer border, each with the same chance. Nothing is placed where there
    /// is no such cell, nor a second player beside the first.
    pub fn add_piece(&mut self, piece: Piece) -> (placed: bool)
        requires
            old(self).wf(),
        ensures
            final(self).wf(),
            placed <==> has_room(old(self)@) && (piece is Player ==> !has_player(old(self)@)),
            placed ==> exists|x: int, y: int| #[trigger]
                spawned_at(old(self)@, final(self)@, x, y) && final(self)@[y][x] == piece,
            !placed ==> final(self)@ == old(self)@,
    {
        let mut rng = rand::thread_rng();
        let cells = self.free_cells();
        if cells.len() == 0 {
            return false;
        }
        let (x, y) = cells[sample_range(&mut rng, 0, cells.len())];
        let placed = self.place_piece(piece, x, y);
        proof {
            if placed {
                lemma_put(old(self)@, x as int, y as int, piece);
                assert(spawned_at(old(self)@, self@, x as int, y as int));
            }
        }
        placed
    }

    /// Puts the player, facing a heading drawn at random, on a free cell off
    /// the outer border drawn at random. Nothing is placed in a maze that has
    /// a player already or no such cell.
    pub fn add_player(&mut self) -> (placed: bool)
        requires
            old(self).wf(),
        ensures
            final(self).wf(),
            placed <==> has_room(old(self)@) && !has_player(old(self)@),
            placed ==> one_player(final(self)@),
            placed ==> exists|x: int, y: int| #[trigger]
                spawned_at(old(self)@, final(self)@, x, y) && final(self)@[y][x] is Player,
            !placed ==> final(self)@ == old(self)@,
    {
        let mut rng = rand::thread_rng();
        let piece = Piece::Player(Direction::random(&mut rng));
        let placed = self.add_piece(piece);
        proof {
            if placed {
                let (x, y) = choose|x: int, y: int| #[trigger]
                    spawned_at(old(self)@, self@, x, y) && self@[y][x] == piece;
                lemma_put_first_player(old(self)@, x, y, piece);
            }
        }
        placed
    }

    /// Puts up to `amount` trolls, each facing a heading drawn at random, on
    /// free cells off the outer border drawn at random, and says how many it
    /// placed: all of them, unless the free cells ran out before.
    pub fn add_trolls(&mut self, amount: usize) -> (placed: usize)
        requires
            old(self).wf(),
        ensures
            final(self).wf(),
            placed <= amount,
            placed < amount ==> !has_room(final(self)@),
            spawned_from(old(self)@, final(self)@),
            forall|x: int, y: int| #[trigger]
                changed(old(self)@, final(self)@, x, y) ==> final(self)@[y][x] is Troll,
            changed_cells(old(self)@, final(self)@).finite(),
            changed_cells(old(self)@, final(self)@).len() == placed,
            same_player(old(self)@, final(self)@),
    {
        let mut rng = rand::thread_rng();
        let mut placed: usize = 0;
        proof {
            lemma_nothing_changed(self@);
        }
        while placed < amount
            invariant
                old(self).wf(),
                self.wf(),
                placed <= amount,
                spawned_from(old(self)@, self@),
                forall|x: int, y: int| #[trigger]
                    changed(old(self)@, self@, x, y) ==> self@[y][x] is Troll,
                changed_cells(old(self)@, self@).finite(),
                changed_cells(old(self)@, self@).len() == placed,
                same_player(old(self)@, self@),
            decreases amount - placed,
        {
            let ghost now = self@;
            let piece = Piece::Troll(Direction::random(&mut rng));
            if !self.add_piece(piece) {
                return placed;
            }
            proof {
                let (x, y) = choose|x: int, y: int| #[trigger]
                    spawned_at(now, self@, x, y) && self@[y][x] == piece;
                lemma_spawn_one_more(old(self)@, now, x, y, piece);
                lemma_put_keeps_players(now, x, y, piece);
                lemma_put(now, x, y, piece);
                assert forall|a: int, b: int| #[trigger]
                    changed(old(self)@, self@, a, b) implies self@[b][a] is Troll by {
                    if !(a == x && b == y) {
                        assert(changed(old(self)@, now, a, b));
                    }
                }
            }
            placed += 1;
        }
        placed
    }
}

} // verus!
