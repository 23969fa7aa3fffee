use vstd::prelude::*;
use crate::direction::{dx, dy, Direction};
use crate::piece::{GameState, Piece, TrollAction};

verus! {

/// A grid is a sequence of rows, top to bottom; a row is a sequence of cells,
/// left to right. The cell of column `x` in row `y` is `g[y][x]`.
///
/// `rectangular` holds of a grid with at least one cell whose rows all have
/// the same length.
pub open spec fn rectangular(g: Seq<Seq<Piece>>) -> bool {
    &&& g.len() > 0
    &&& g[0].len() > 0
    &&& forall|y: int| 0 <= y < g.len() ==> #[trigger] g[y].len() == g[0].len()
}

/// Number of rows.
pub open spec fn height(g: Seq<Seq<Piece>>) -> int {
    g.len() as int
}

/// Number of columns (of the first row; that of every row when `rectangular`).
pub open spec fn width(g: Seq<Seq<Piece>>) -> int {
    if g.len() > 0 {
        g[0].len() as int
    } else {
        0
    }
}

/// `(x, y)` names a cell of the grid.
pub open spec fn in_bounds(g: Seq<Seq<Piece>>, x: int, y: int) -> bool {
    0 <= y < g.len() && 0 <= x < g[y].len()
}

/// `(x, y)` names a cell that is not on the outer border.
pub open spec fn interior(g: Seq<Seq<Piece>>, x: int, y: int) -> bool {
    1 <= y < height(g) - 1 && 1 <= x < width(g) - 1
}

/// The grid with cell `(x, y)` replaced by `p`.
pub open spec fn put(g: Seq<Seq<Piece>>, x: int, y: int, p: Piece) -> Seq<Seq<Piece>> {
    g.update(y, g[y].update(x, p))
}

/// Two grids have the same number of rows and, row by row, of columns.
pub open spec fn same_shape(a: Seq<Seq<Piece>>, b: Seq<Seq<Piece>>) -> bool {
    &&& a.len() == b.len()
    &&& forall|y: int| 0 <= y < a.len() ==> #[trigger] a[y].len() == b[y].len()
}

/// The player stands on cell `(x, y)`.
pub open spec fn player_at(g: Seq<Seq<Piece>>, x: int, y: int) -> bool {
    in_bounds(g, x, y) && g[y][x] is Player
}

/// A troll stands on cell `(x, y)`.
pub open spec fn troll_at(g: Seq<Seq<Piece>>, x: int, y: int) -> bool {
    in_bounds(g, x, y) && g[y][x] is Troll
}

/// Cell `(x, y)` is free ground off the outer border: a place to spawn on.
pub open spec fn spawnable(g: Seq<Seq<Piece>>, x: int, y: int) -> bool {
    interior(g, x, y) && in_bounds(g, x, y) && g[y][x] is Empty
}

/// Some cell holds the player.
pub open spec fn has_player(g: Seq<Seq<Piece>>) -> bool {
    exists|x: int, y: int| player_at(g, x, y)
}

/// No two cells hold a player.
pub open spec fn at_most_one_player(g: Seq<Seq<Piece>>) -> bool {
    forall|x1: int, y1: int, x2: int, y2: int|
        #[trigger] player_at(g, x1, y1) && #[trigger] player_at(g, x2, y2) ==> x1 == x2 && y1
            == y2
}

/// Exactly one cell holds the player: the state of a session in play.
pub open spec fn one_player(g: Seq<Seq<Piece>>) -> bool {
    has_player(g) && at_most_one_player(g)
}

/// Some cell off the outer border is free ground.
pub open spec fn has_room(g: Seq<Seq<Piece>>) -> bool {
    exists|x: int, y: int| spawnable(g, x, y)
}

/// What every maze satisfies: a rectangle of cells with at most one player.
pub open spec fn well_formed(g: Seq<Seq<Piece>>) -> bool {
    rectangular(g) && at_most_one_player(g)
}

/// Cell `(x, y)` of `a` holds another piece in `b`.
pub open spec fn changed(a: Seq<Seq<Piece>>, b: Seq<Seq<Piece>>, x: int, y: int) -> bool {
    in_bounds(a, x, y) && a[y][x] != b[y][x]
}

/// The cells of `a` that hold another piece in `b`.
pub open spec fn changed_cells(a: Seq<Seq<Piece>>, b: Seq<Seq<Piece>>) -> Set<(int, int)> {
    Set::new(|c: (int, int)| changed(a, b, c.0, c.1))
}

/// `b` is `a` with a piece spawned on `(x, y)`: the cell was free ground off
/// the border of `a`, and nothing else differs.
pub open spec fn spawned_at(a: Seq<Seq<Piece>>, b: Seq<Seq<Piece>>, x: int, y: int) -> bool {
    spawnable(a, x, y) && b == put(a, x, y, b[y][x])
}

/// `b` is `a` after some spawning: it has the shape of `a`, and every cell
/// that differs was free ground off the border of `a`.
pub open spec fn spawned_from(a: Seq<Seq<Piece>>, b: Seq<Seq<Piece>>) -> bool {
    &&& same_shape(a, b)
    &&& forall|x: int, y: int| #[trigger] changed(a, b, x, y) ==> spawnable(a, x, y)
}

/// Row-major order on cells: `(x1, y1)` is met before `(x2, y2)` when the
/// grid is read row by row from the top, each row from the left.
pub open spec fn before(x1: int, y1: int, x2: int, y2: int) -> bool {
    y1 < y2 || (y1 == y2 && x1 < x2)
}

/// The occupant on `(x, y)` tries to step one cell in direction `dir`.
///
/// The result is the grid afterwards and the outcome. Only `Moved` changes the
/// grid. A step off the grid or into a wall is invalid. Free ground is taken.
/// A boulder is pushed along if the cell behind it is on the grid and holds
/// free ground or a troll, which the boulder crushes; otherwise the step is
/// invalid. The player wins on the exit and dies on a troll; a troll kills
/// on the player, and is turned back by the exit and by other trolls.
pub open spec fn advance(g: Seq<Seq<Piece>>, x: int, y: int, dir: Direction) -> (
    Seq<Seq<Piece>>,
    GameState,
) {
    let mover = g[y][x];
    let x1 = x + dx(dir);
    let y1 = y + dy(dir);
    let x2 = x1 + dx(dir);
    let y2 = y1 + dy(dir);
    if !in_bounds(g, x1, y1) {
        (g, GameState::InvalidMove)
    } else {
        match g[y1][x1] {
            Piece::Empty => (put(put(g, x, y, Piece::Empty), x1, y1, mover), GameState::Moved),
            Piece::Wall => (g, GameState::InvalidMove),
            Piece::Exit => if mover is Player {
                (g, GameState::Won)
            } else {
                (g, GameState::InvalidMove)
            },
            Piece::Troll(_) => if mover is Player {
                (g, GameState::Dead)
            } else {
                (g, GameState::InvalidMove)
            },
            Piece::Player(_) => if mover is Troll {
                (g, GameState::Dead)
            } else {
                (g, GameState::InvalidMove)
            },
            Piece::Boulder => if in_bounds(g, x2, y2) && (g[y2][x2] is Empty
                || g[y2][x2] is Troll) {
                (
                    put(put(put(g, x, y, Piece::Empty), x2, y2, Piece::Boulder), x1, y1, mover),
                    GameState::Moved,
                )
            } else {
                (g, GameState::InvalidMove)
            },
        }
    }
}

/// The occupant `piece`, taken to stand on `(x, y)`, tries to step in
/// direction `dir`. Where `(x, y)` is no cell of the grid or does not hold
/// `piece`, or `piece` is neither player nor troll, the move is invalid and
/// nothing changes.
pub open spec fn attempt(g: Seq<Seq<Piece>>, piece: Piece, x: int, y: int, dir: Direction) -> (
    Seq<Seq<Piece>>,
    GameState,
) {
    if in_bounds(g, x, y) && g[y][x] == piece && piece.is_occupant() {
        advance(g, x, y, dir)
    } else {
        (g, GameState::InvalidMove)
    }
}

/// A directional request to the player on `(x, y)`: where the request differs
/// from the heading the player faces, the player only turns to it, which
/// counts as `Moved`; where it matches, the player tries to step.
pub open spec fn request(g: Seq<Seq<Piece>>, x: int, y: int, req: Direction) -> (
    Seq<Seq<Piece>>,
    GameState,
) {
    if g[y][x] == Piece::Player(req) {
        advance(g, x, y, req)
    } else {
        (put(g, x, y, Piece::Player(req)), GameState::Moved)
    }
}

/// One troll's turn. The troll was seen on `(x, y)` facing `dir` when the
/// tick began; if the cell no longer holds it (a boulder crushed it since),
/// nothing happens and the outcome is `InvalidMove`. Otherwise it turns or
/// tries to step, as `action` says.
pub open spec fn troll_step(
    g: Seq<Seq<Piece>>,
    x: int,
    y: int,
    dir: Direction,
    action: TrollAction,
) -> (Seq<Seq<Piece>>, GameState) {
    if !(in_bounds(g, x, y) && g[y][x] == Piece::Troll(dir)) {
        (g, GameState::InvalidMove)
    } else {
        match action {
            TrollAction::Turn(d) => (put(g, x, y, Piece::Troll(d)), GameState::Moved),
            TrollAction::Advance => advance(g, x, y, dir),
        }
    }
}

/// The player, if there is one, stands on the same cell and faces the same
/// way in both grids.
pub open spec fn same_player(a: Seq<Seq<Piece>>, b: Seq<Seq<Piece>>) -> bool {
    forall|x: int, y: int|
        #![trigger player_at(a, x, y)]
        #![trigger player_at(b, x, y)]
        (player_at(a, x, y) <==> player_at(b, x, y)) && (player_at(a, x, y) ==> a[y][x]
            == b[y][x])
}

/// Cell `(x, y)` holds a wall or the exit: a piece that nothing moves.
pub open spec fn fixture_at(g: Seq<Seq<Piece>>, x: int, y: int) -> bool {
    in_bounds(g, x, y) && (g[y][x] is Wall || g[y][x] is Exit)
}

/// The walls and the exit are on the same cells in both grids.
pub open spec fn same_fixtures(a: Seq<Seq<Piece>>, b: Seq<Seq<Piece>>) -> bool {
    forall|x: int, y: int|
        #![trigger fixture_at(a, x, y)]
        #![trigger fixture_at(b, x, y)]
        (fixture_at(a, x, y) <==> fixture_at(b, x, y)) && (fixture_at(a, x, y) ==> a[y][x]
            == b[y][x])
}

/// `s` lists the trolls of `g`: each entry is the cell `(x, y)` of a troll
/// with the way it faces, every troll has its entry, and the entries come in
/// row-major order, so no troll is listed twice.
pub open spec fn troll_listing(g: Seq<Seq<Piece>>, s: Seq<(usize, usize, Direction)>) -> bool {
    &&& forall|i: int|
        0 <= i < s.len() ==> in_bounds(g, (#[trigger] s[i]).0 as int, s[i].1 as int)
            && g[s[i].1 as int][s[i].0 as int] == Piece::Troll(s[i].2)
    &&& forall|i: int, j: int|
        0 <= i < j < s.len() ==> before(
            (#[trigger] s[i]).0 as int,
            s[i].1 as int,
            (#[trigger] s[j]).0 as int,
            s[j].1 as int,
        )
    &&& forall|x: int, y: int| #[trigger]
        troll_at(g, x, y) ==> exists|i: int|
            0 <= i < s.len() && (#[trigger] s[i]).0 == x && s[i].1 == y
}

/// One tick of the trolls. `trolls` is what was seen when the tick began and
/// `actions` says what each of them does, entry by entry; the turns are taken
/// in the order of the list, each on the grid that the turns before it left.
/// The tick is over as soon as a troll reaches the player: the outcome is
/// then `Dead` and the trolls further down the list take no turn. Otherwise
/// the outcome is `Moved`.
pub open spec fn tick(
    g: Seq<Seq<Piece>>,
    trolls: Seq<(usize, usize, Direction)>,
    actions: Seq<TrollAction>,
) -> (Seq<Seq<Piece>>, GameState)
    recommends
        trolls.len() == actions.len(),
    decreases trolls.len(),
{
    if trolls.len() == 0 {
        (g, GameState::Moved)
    } else {
        let (g1, r1) = tick(g, trolls.drop_last(), actions.drop_last());
        let t = trolls.last();
        let (g2, r2) = troll_step(g1, t.0 as int, t.1 as int, t.2, actions.last());
        if r1 == GameState::Dead {
            (g1, GameState::Dead)
        } else if r2 == GameState::Dead {
            (g2, GameState::Dead)
        } else {
            (g2, GameState::Moved)
        }
    }
}

/// `h` and `outcome` are what a tick of the trolls can leave of `g`: the
/// result of `tick` on the trolls of `g`, for some choice of what each does.
pub open spec fn ticked(g: Seq<Seq<Piece>>, h: Seq<Seq<Piece>>, outcome: GameState) -> bool {
    exists|trolls: Seq<(usize, usize, Direction)>, actions: Seq<TrollAction>|
        troll_listing(g, trolls) && actions.len() == trolls.len() && (h, outcome)
            == #[trigger] tick(g, trolls, actions)
}

} // verus!
