use vstd::prelude::*;
use crate::direction::{dx, dy, get_dxdy, Direction};
use crate::grid::{
    before, has_player, in_bounds, player_at, put, rectangular, troll_at, troll_listing,
    well_formed,
};
use crate::loader::{grid_fault, LoadError};
use crate::piece::Piece;

verus! {

/// The board of one session: a rectangle of cells, stored row by row.
#[derive(Debug)]
pub struct Maze {
    pieces: Vec<Vec<Piece>>,
}

impl View for Maze {
    type V = Seq<Seq<Piece>>;

    /// The grid: `self@[y][x]` is the cell of column `x` in row `y`.
    closed spec fn view(&self) -> Seq<Seq<Piece>> {
        Seq::new(self.pieces@.len(), |y: int| self.pieces@[y]@)
    }
}

impl Clone for Maze {
    /// A maze with the same grid.
    fn clone(&self) -> (m: Maze)
        ensures
            m@ == self@,
    {
        let mut pieces: Vec<Vec<Piece>> = Vec::new();
        let mut y: usize = 0;
        while y < self.pieces.len()
            invariant
                y <= self.pieces.len(),
                pieces.len() == y,
                forall|b: int| 0 <= b < y ==> #[trigger] pieces@[b]@ == self.pieces@[b]@,
            decreases self.pieces.len() - y,
        {
            let mut row: Vec<Piece> = Vec::new();
            let mut x: usize = 0;
            while x < self.pieces[y].len()
                invariant
                    y < self.pieces.len(),
                    x <= self.pieces@[y as int]@.len(),
                    row@ == self.pieces@[y as int]@.take(x as int),
                decreases self.pieces@[y as int]@.len() - x,
            {
                row.push(self.pieces[y][x]);
                x += 1;
            }
            pieces.push(row);
            y += 1;
        }
        Maze { pieces }
    }
}

/// The grid that a matrix of pieces, given row by row, stands for.
pub open spec fn rows_view(rows: Vec<Vec<Piece>>) -> Seq<Seq<Piece>> {
    Seq::new(rows@.len(), |y: int| rows@[y]@)
}

/// `v + d`, where that is an index below `limit`.
fn shifted(v: usize, d: i32, limit: usize) -> (r: Option<usize>)
    requires
        -1 <= d <= 1,
    ensures
        (match r {
            Some(w) => w == v + d && w < limit,
            None => !(0 <= v + d < limit),
        }),
{
    if d < 0 {
        if v >= 1 && v - 1 < limit {
            Some(v - 1)
        } else {
            None
        }
    } else if d > 0 {
        if v < limit && v + 1 < limit {
            Some(v + 1)
        } else {
            None
        }
    } else {
        if v < limit {
            Some(v)
        } else {
            None
        }
    }
}

impl Maze {
    /// The invariant of every maze: a rectangle with at least one cell and at
    /// most one player.
    pub open spec fn wf(&self) -> bool {
        well_formed(self@)
    }

    /// Makes a maze of a matrix of pieces, given row by row. The matrix must
    /// have at least one cell, rows of one length, and at most one player.
    pub fn from_rows(rows: Vec<Vec<Piece>>) -> (r: Result<Maze, LoadError>)
        ensures
            (match r {
                Ok(m) => m.wf() && m@ == rows_view(rows) && grid_fault(rows_view(rows)) is None,
                Err(e) => grid_fault(rows_view(rows)) == Some(e),
            }),
    {
        let ghost g = rows_view(rows);
        if rows.len() == 0 || rows[0].len() == 0 {
            return Err(LoadError::EmptyMap);
        }
        let cols = rows[0].len();
        let mut y: usize = 1;
        while y < rows.len()
            invariant
                1 <= y <= rows.len(),
                g == rows_view(rows),
                cols == g[0].len(),
                cols > 0,
                forall|b: int| 0 <= b < y ==> #[trigger] g[b].len() == cols,
            decreases rows.len() - y,
        {
            if rows[y].len() != cols {
                assert(g[y as int].len() != g[0].len());
                return Err(LoadError::NonRectangular);
            }
            y += 1;
        }
        let mut seen: Option<(usize, usize)> = None;
        let mut y: usize = 0;
        while y < rows.len()
            invariant
                y <= rows.len(),
                g == rows_view(rows),
                rectangular(g),
                cols == g[0].len(),
                match seen {
                    Some((px, py)) => player_at(g, px as int, py as int) && py < y,
                    None => true,
                },
                forall|a: int, b: int| #[trigger]
                    player_at(g, a, b) && b < y ==> seen == Some((a as usize, b as usize)),
            decreases rows.len() - y,
        {
            let mut x: usize = 0;
            while x < cols
                invariant
                    y < rows.len(),
                    x <= cols,
                    g == rows_view(rows),
                    rectangular(g),
                    cols == g[0].len(),
                    match seen {
                        Some((px, py)) => player_at(g, px as int, py as int) && before(
                            px as int,
                            py as int,
                            x as int,
                            y as int,
                        ),
                        None => true,
                    },
                    forall|a: int, b: int| #[trigger]
                        player_at(g, a, b) && before(a, b, x as int, y as int) ==> seen == Some(
                            (a as usize, b as usize),
                        ),
                decreases cols - x,
            {
                assert(g[y as int] == rows@[y as int]@);
                match rows[y][x] {
                    Piece::Player(_) => {
                        assert(player_at(g, x as int, y as int));
                        match seen {
                            Some(_) => {
                                return Err(LoadError::DuplicatePlayer);
                            },
                            None => {
                                seen = Some((x, y));
                            },
                        }
                    },
                    _ => {},
                }
                x += 1;
            }
            y += 1;
        }
        Ok(Maze { pieces: rows })
    }

    /// Number of rows.
    pub fn rows(&self) -> (n: usize)
        requires
            self.wf(),
        ensures
            n == self@.len(),
            n > 0,
    {
        self.pieces.len()
    }

    /// Number of columns.
    pub fn cols(&self) -> (n: usize)
        requires
            self.wf(),
        ensures
            n == self@[0].len(),
            n > 0,
            forall|y: int| 0 <= y < self@.len() ==> n == #[trigger] self@[y].len(),
    {
        self.pieces[0].len()
    }

    /// The piece on cell `(x, y)`, or `None` where the grid has no such cell.
    pub fn get(&self, x: usize, y: usize) -> (p: Option<Piece>)
        ensures
            p == (if in_bounds(self@, x as int, y as int) {
                Some(self@[y as int][x as int])
            } else {
                None::<Piece>
            }),
    {
        if y < self.pieces.len() && x < self.pieces[y].len() {
            Some(self.pieces[y][x])
        } else {
            None
        }
    }

    /// The piece on cell `(x, y)` of the grid.
    pub(crate) fn at(&self, x: usize, y: usize) -> (p: Piece)
        requires
            in_bounds(self@, x as int, y as int),
        ensures
            p == self@[y as int][x as int],
    {
        self.pieces[y][x]
    }

    /// Replaces the piece on cell `(x, y)`. What the maze must satisfy is for
    /// the caller to restore.
    pub(crate) fn set(&mut self, x: usize, y: usize, p: Piece)
        requires
            in_bounds(old(self)@, x as int, y as int),
        ensures
            final(self)@ == put(old(self)@, x as int, y as int, p),
    {
        self.pieces[y][x] = p;
    }

    /// The cell next to `(x, y)` in direction `dir`, if the grid has it.
    pub(crate) fn neighbor(&self, x: usize, y: usize, dir: Direction) -> (n: Option<(usize, usize)>)
        requires
            self.wf(),
        ensures
            (match n {
                Some((nx, ny)) => nx == x + dx(dir) && ny == y + dy(dir) && in_bounds(
                    self@,
                    nx as int,
                    ny as int,
                ),
                None => !in_bounds(self@, x + dx(dir), y + dy(dir)),
            }),
    {
        let (step_x, step_y) = get_dxdy(dir);
        let rows = self.rows();
        let cols = self.cols();
        match shifted(y, step_y, rows) {
            Some(ny) => match shifted(x, step_x, cols) {
                Some(nx) => Some((nx, ny)),
                None => None,
            },
            None => None,
        }
    }

    /// Where the player stands and which way it faces, or `None` in a maze
    /// without a player.
    pub fn find_player(&self) -> (r: Option<(usize, usize, Direction)>)
        requires
            self.wf(),
        ensures
            (match r {
                Some((x, y, dir)) => player_at(self@, x as int, y as int)
                    && self@[y as int][x as int] == Piece::Player(dir),
                None => !has_player(self@),
            }),
    {
        let rows = self.rows();
        let cols = self.cols();
        let mut y: usize = 0;
        while y < rows
            invariant
                self.wf(),
                rows == self@.len(),
                cols == self@[0].len(),
                y <= rows,
                forall|a: int, b: int| player_at(self@, a, b) ==> b >= y,
            decreases rows - y,
        {
            let mut x: usize = 0;
            while x < cols
                invariant
                    self.wf(),
                    rows == self@.len(),
                    cols == self@[0].len(),
                    y < rows,
                    x <= cols,
                    forall|a: int, b: int| player_at(self@, a, b) ==> b > y || (b == y && a >= x),
                decreases cols - x,
            {
                match self.at(x, y) {
                    Piece::Player(dir) => {
                        return Some((x, y, dir));
                    },
                    _ => {},
                }
                x += 1;
            }
            y += 1;
        }
        None
    }

    /// The trolls of the maze, each with its cell `(x, y)` and the way it
    /// faces, in row-major order.
    pub fn find_trolls(&self) -> (trolls: Vec<(usize, usize, Direction)>)
        requires
            self.wf(),
        ensures
            troll_listing(self@, trolls@),
    {
        let mut trolls: Vec<(usize, usize, Direction)> = Vec::new();
        let rows = self.rows();
        let cols = self.cols();
        let mut y: usize = 0;
        while y < rows
            invariant
                self.wf(),
                rows == self@.len(),
                cols == self@[0].len(),
                y <= rows,
                listed_before(self@, trolls@, 0, y as int),
            decreases rows - y,
        {
            let mut x: usize = 0;
            while x < cols
                invariant
                    self.wf(),
                    rows == self@.len(),
                    cols == self@[0].len(),
                    y < rows,
                    x <= cols,
                    listed_before(self@, trolls@, x as int, y as int),
                decreases cols - x,
            {
                let ghost seen = trolls@;
                match self.at(x, y) {
                    Piece::Troll(dir) => {
                        trolls.push((x, y, dir));
                        assert forall|a: int, b: int| #[trigger]
                            troll_at(self@, a, b) && before(
                                a,
                                b,
                                x + 1,
                                y as int,
                            ) implies exists|i: int|
                            0 <= i < trolls@.len() && (#[trigger] trolls@[i]).0 == a && trolls@[i].1
                                == b by {
                            if a == x && b == y {
                                assert(trolls@[seen.len() as int].0 == a);
                            } else {
                                let i = choose|i: int|
                                    0 <= i < seen.len() && (#[trigger] seen[i]).0 == a && seen[i].1
                                        == b;
                                assert(trolls@[i].0 == a);
                            }
                        }
                    },
                    _ => {},
                }
                x += 1;
            }
            y += 1;
        }
        trolls
    }
}

/// `s` lists exactly the trolls met before `(x, y)` when the grid is read in
/// row-major order, in that order.
spec fn listed_before(
    g: Seq<Seq<Piece>>,
    s: Seq<(usize, usize, Direction)>,
    x: int,
    y: int,
) -> bool {
    &&& forall|i: int|
        0 <= i < s.len() ==> in_bounds(g, (#[trigger] s[i]).0 as int, s[i].1 as int)
            && g[s[i].1 as int][s[i].0 as int] == Piece::Troll(s[i].2) && before(
            s[i].0 as int,
            s[i].1 as int,
            x,
            y,
        )
    &&& forall|i: int, j: int|
        0 <= i < j < s.len() ==> before(
            (#[trigger] s[i]).0 as int,
            s[i].1 as int,
            (#[trigger] s[j]).0 as int,
            s[j].1 as int,
        )
    &&& forall|a: int, b: int| #[trigger]
        troll_at(g, a, b) && before(a, b, x, y) ==> exists|i: int|
            0 <= i < s.len() && (#[trigger] s[i]).0 == a && s[i].1 == b
}

} // verus!
