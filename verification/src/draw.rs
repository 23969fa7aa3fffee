use vstd::prelude::*;
use crate::direction::Direction;
use crate::maze::Maze;
use crate::piece::Piece;

verus! {

/// A colour, by its red, green and blue parts.
#[derive(Clone, Copy, Debug, PartialEq, Eq, Structural)]
pub struct Color {
    pub r: u8,
    pub g: u8,
    pub b: u8,
}

/// A pixel of the picture, `x` counted from the left and `y` from the top.
#[derive(Clone, Copy, Debug, PartialEq, Eq, Structural)]
pub struct Point {
    pub x: i32,
    pub y: i32,
}

/// One instruction to whoever paints the maze. The steps of a picture are
/// carried out in order.
#[derive(Clone, Copy, Debug, PartialEq, Eq, Structural)]
pub enum DrawStep {
    /// Take this colour for the steps that follow.
    SetColor(Color),
    /// Fill the rectangle whose top left corner is `(x, y)`.
    FillRect { x: i32, y: i32, width: u32, height: u32 },
    /// Draw a line from `a` to `b` and on to `c`.
    Lines { a: Point, b: Point, c: Point },
}

/// Side of the square that a cell is painted as, in pixels.
pub const CELL: u32 = 10;

/// The largest number of rows or columns of a maze that can be painted: the
/// pixel coordinates of a larger one would not fit.
pub const MAX_PAINTED: usize = 214_748_364;

/// The colour of free ground, and the one that is left set after a cell.
pub open spec fn white() -> Color {
    Color { r: 255, g: 255, b: 255 }
}

/// The colour that a piece is painted in: boulders grey, free ground white,
/// the exit yellow, walls black, the player red and trolls brown.
pub open spec fn piece_color(p: Piece) -> Color {
    match p {
        Piece::Boulder => Color { r: 128, g: 128, b: 128 },
        Piece::Empty => white(),
        Piece::Exit => Color { r: 255, g: 255, b: 0 },
        Piece::Wall => Color { r: 0, g: 0, b: 0 },
        Piece::Player(_) => Color { r: 255, g: 0, b: 0 },
        Piece::Troll(_) => Color { r: 139, g: 69, b: 19 },
    }
}

/// The arrow head that shows an occupant facing `dir`, in the box of the
/// given size whose top left corner is `(x, y)`: two strokes that meet in the
/// middle of the side that the occupant faces.
pub open spec fn triangle(dir: Direction, x: int, y: int, width: int, height: int) -> (
    (int, int),
    (int, int),
    (int, int),
) {
    match dir {
        Direction::Left => ((x + width / 2, y + height), (x, y + height / 2), (x + width / 2, y)),
        Direction::Right => (
            (x + width / 2, y + height),
            (x + width, y + height / 2),
            (x + width / 2, y),
        ),
        Direction::Up => ((x, y + height / 2), (x + width / 2, y), (x + width, y + height / 2)),
        Direction::Down => (
            (x, y + height / 2),
            (x + width / 2, y + height),
            (x + width, y + height / 2),
        ),
    }
}

/// The step that draws the arrow head of `triangle`.
pub open spec fn arrow(dir: Direction, x: int, y: int, width: int, height: int) -> DrawStep {
    let t = triangle(dir, x, y, width, height);
    DrawStep::Lines {
        a: Point { x: t.0.0 as i32, y: t.0.1 as i32 },
        b: Point { x: t.1.0 as i32, y: t.1.1 as i32 },
        c: Point { x: t.2.0 as i32, y: t.2.1 as i32 },
    }
}

/// The steps that paint the cell of column `x` in row `y`, holding `p`. The
/// cell's square is first filled in whatever colour is set. Then the piece's
/// colour is taken. An occupant is drawn as an arrow head in it; for any
/// other piece the square is filled again and white is taken.
pub open spec fn cell_steps(p: Piece, x: int, y: int) -> Seq<DrawStep> {
    let left = x * CELL;
    let top = y * CELL;
    let square = DrawStep::FillRect {
        x: left as i32,
        y: top as i32,
        width: CELL,
        height: CELL,
    };
    match p {
        Piece::Player(dir) | Piece::Troll(dir) => seq![
            square,
            DrawStep::SetColor(piece_color(p)),
            arrow(dir, left, top, CELL as int, CELL as int),
        ],
        _ => seq![
            square,
            DrawStep::SetColor(piece_color(p)),
            square,
            DrawStep::SetColor(white()),
        ],
    }
}

/// The steps that paint the first `n` cells of row `y`, left to right.
pub open spec fn row_steps(row: Seq<Piece>, y: int, n: int) -> Seq<DrawStep>
    decreases n,
{
    if n <= 0 {
        Seq::empty()
    } else {
        row_steps(row, y, n - 1) + cell_steps(row[n - 1], n - 1, y)
    }
}

/// The steps that paint the first `n` rows of a grid, top to bottom.
pub open spec fn rows_steps(g: Seq<Seq<Piece>>, n: int) -> Seq<DrawStep>
    decreases n,
{
    if n <= 0 {
        Seq::empty()
    } else {
        rows_steps(g, n - 1) + row_steps(g[n - 1], n - 1, g[n - 1].len() as int)
    }
}

/// The steps that paint a grid: cell after cell in row-major order.
pub open spec fn picture(g: Seq<Seq<Piece>>) -> Seq<DrawStep> {
    rows_steps(g, g.len() as int)
}

/// Exec counterpart of [`piece_color`].
pub fn color_of(p: Piece) -> (c: Color)
    ensures
        c == piece_color(p),
{
    match p {
        Piece::Boulder => Color { r: 128, g: 128, b: 128 },
        Piece::Empty => Color { r: 255, g: 255, b: 255 },
        Piece::Exit => Color { r: 255, g: 255, b: 0 },
        Piece::Wall => Color { r: 0, g: 0, b: 0 },
        Piece::Player(_) => Color { r: 255, g: 0, b: 0 },
        Piece::Troll(_) => Color { r: 139, g: 69, b: 19 },
    }
}

/// The arrow head of an occupant that faces `dir`, in the box of the given
/// size whose top left corner is `(x, y)`.
pub fn render_triangle(dir: Direction, x: i32, y: i32, width: i32, height: i32) -> (step: DrawStep)
    requires
        0 <= width,
        0 <= height,
        x + width <= i32::MAX,
        y + height <= i32::MAX,
    ensures
        step == arrow(dir, x as int, y as int, width as int, height as int),
{
    let half_w = width / 2;
    let half_h = height / 2;
    match dir {
        Direction::Left => DrawStep::Lines {
            a: Point { x: x + half_w, y: y + height },
            b: Point { x: x, y: y + half_h },
            c: Point { x: x + half_w, y: y },
        },
        Direction::Right => DrawStep::Lines {
            a: Point { x: x + half_w, y: y + height },
            b: Point { x: x + width, y: y + half_h },
            c: Point { x: x + half_w, y: y },
        },
        Direction::Up => DrawStep::Lines {
            a: Point { x: x, y: y + half_h },
            b: Point { x: x + half_w, y: y },
            c: Point { x: x + width, y: y + half_h },
        },
        Direction::Down => DrawStep::Lines {
            a: Point { x: x, y: y + half_h },
            b: Point { x: x + half_w, y: y + height },
            c: Point { x: x + width, y: y + half_h },
        },
    }
}

/// Appends the steps that paint the cell of column `x` in row `y`.
fn render_cell(steps: &mut Vec<DrawStep>, p: Piece, x: usize, y: usize)
    requires
        x < MAX_PAINTED,
        y < MAX_PAINTED,
    ensures
        final(steps)@ == old(steps)@ + cell_steps(p, x as int, y as int),
{
    let left: i32 = (x * 10) as i32;
    let top: i32 = (y * 10) as i32;
    let square = DrawStep::FillRect { x: left, y: top, width: CELL, height: CELL };
    steps.push(square);
    steps.push(DrawStep::SetColor(color_of(p)));
    match p {
        Piece::Player(dir) | Piece::Troll(dir) => {
            steps.push(render_triangle(dir, left, top, 10, 10));
        },
        _ => {
            steps.push(square);
            steps.push(DrawStep::SetColor(Color { r: 255, g: 255, b: 255 }));
        },
    }
}

impl Maze {
    /// The steps that paint the maze, or `None` for a maze of more than
    /// `MAX_PAINTED` rows or columns.
    pub fn render(&self) -> (steps: Option<Vec<DrawStep>>)
        requires
            self.wf(),
        ensures
            steps is Some <==> self@.len() <= MAX_PAINTED && self@[0].len() <= MAX_PAINTED,
            steps matches Some(s) ==> s@ == picture(self@),
    {
        let rows = self.rows();
        let cols = self.cols();
        if rows > MAX_PAINTED || cols > MAX_PAINTED {
            return None;
        }
        let mut steps: Vec<DrawStep> = Vec::new();
        let mut y: usize = 0;
        while y < rows
            invariant
                self.wf(),
                rows == self@.len(),
                cols == self@[0].len(),
                rows <= MAX_PAINTED,
                cols <= MAX_PAINTED,
                y <= rows,
                steps@ == rows_steps(self@, y as int),
            decreases rows - y,
        {
            let ghost above = steps@;
            let mut x: usize = 0;
            while x < cols
                invariant
                    self.wf(),
                    rows == self@.len(),
                    cols == self@[0].len(),
                    rows <= MAX_PAINTED,
                    cols <= MAX_PAINTED,
                    y < rows,
                    x <= cols,
                    steps@ == above + row_steps(self@[y as int], y as int, x as int),
                decreases cols - x,
            {
                let ghost so_far = row_steps(self@[y as int], y as int, x as int);
                let p = self.at(x, y);
                render_cell(&mut steps, p, x, y);
                assert(above + so_far + cell_steps(p, x as int, y as int) == above + (so_far
                    + cell_steps(p, x as int, y as int)));
                x += 1;
            }
            y += 1;
        }
        Some(steps)
    }
}

} // verus!
