use vstd::prelude::*;
use vstd::set_lib::lemma_set_disjoint_lens;
use crate::direction::{dx, dy, Direction};
use crate::grid::{
    advance, before, changed, changed_cells, fixture_at, has_player, in_bounds, one_player,
    player_at, put, rectangular, request, same_fixtures, same_player, same_shape, spawnable,
    spawned_from, tick, troll_at, troll_listing, troll_step, well_formed,
};
use crate::piece::{GameState, Piece, TrollAction};

verus! {

/// Replacing one cell keeps the shape of the grid and every other cell.
pub proof fn lemma_put(g: Seq<Seq<Piece>>, x: int, y: int, p: Piece)
    requires
        in_bounds(g, x, y),
    ensures
        same_shape(g, put(g, x, y, p)),
        rectangular(g) ==> rectangular(put(g, x, y, p)),
        put(g, x, y, p)[y][x] == p,
        forall|a: int, b: int|
            in_bounds(g, a, b) && !(a == x && b == y) ==> #[trigger] put(g, x, y, p)[b][a]
                == g[b][a],
        forall|a: int, b: int| in_bounds(g, a, b) <==> #[trigger] in_bounds(put(g, x, y, p), a, b),
{
}

/// A step never breaks the maze: the grid keeps its shape, stays a rectangle
/// with at most one player, and a player that was there is still there. In
/// particular exactly one player remains after every step of a session in
/// play, whatever the outcome and whoever moved.
pub proof fn lemma_advance_preserves(g: Seq<Seq<Piece>>, x: int, y: int, dir: Direction)
    requires
        well_formed(g),
        in_bounds(g, x, y),
        g[y][x].is_occupant(),
    ensures
        same_shape(g, advance(g, x, y, dir).0),
        well_formed(advance(g, x, y, dir).0),
        has_player(g) <==> has_player(advance(g, x, y, dir).0),
        one_player(g) ==> one_player(advance(g, x, y, dir).0),
{
    let (h, r) = advance(g, x, y, dir);
    let mover = g[y][x];
    let x1 = x + dx(dir);
    let y1 = y + dy(dir);
    let x2 = x1 + dx(dir);
    let y2 = y1 + dy(dir);
    if r == GameState::Moved {
        let g1 = put(g, x, y, Piece::Empty);
        lemma_put(g, x, y, Piece::Empty);
        if g[y1][x1] is Empty {
            lemma_put(g1, x1, y1, mover);
        } else {
            let g2 = put(g1, x2, y2, Piece::Boulder);
            lemma_put(g1, x2, y2, Piece::Boulder);
            lemma_put(g2, x1, y1, mover);
        }
        // every player of the new grid is the mover on its new cell, or a
        // player that has not moved
        assert forall|a: int, b: int| #[trigger] player_at(h, a, b) implies (mover is Player && a
            == x1 && b == y1) || (player_at(g, a, b) && !(a == x && b == y)) by {}
        if mover is Player {
            assert(player_at(g, x, y));
        }
        if has_player(g) {
            let (a, b) = choose|a: int, b: int| player_at(g, a, b);
            if a == x && b == y {
                assert(player_at(h, x1, y1));
            } else {
                assert(player_at(h, a, b));
            }
        }
    }
}

/// Replacing a cell by a piece of its own kind (a player by a player, anything
/// else by anything but a player) leaves the player where it is.
pub proof fn lemma_put_keeps_players(g: Seq<Seq<Piece>>, x: int, y: int, p: Piece)
    requires
        well_formed(g),
        in_bounds(g, x, y),
        g[y][x] is Player <==> p is Player,
    ensures
        same_shape(g, put(g, x, y, p)),
        well_formed(put(g, x, y, p)),
        forall|a: int, b: int| player_at(g, a, b) <==> #[trigger] player_at(put(g, x, y, p), a, b),
        has_player(g) <==> has_player(put(g, x, y, p)),
{
    let h = put(g, x, y, p);
    lemma_put(g, x, y, p);
    assert forall|a: int, b: int| player_at(g, a, b) <==> #[trigger] player_at(h, a, b) by {}
    if has_player(g) {
        let (a, b) = choose|a: int, b: int| player_at(g, a, b);
        assert(player_at(h, a, b));
    }
}

/// Putting the player on a cell of a maze that has none gives a maze with
/// exactly one.
pub proof fn lemma_put_first_player(g: Seq<Seq<Piece>>, x: int, y: int, p: Piece)
    requires
        well_formed(g),
        !has_player(g),
        in_bounds(g, x, y),
        p is Player,
    ensures
        same_shape(g, put(g, x, y, p)),
        well_formed(put(g, x, y, p)),
        one_player(put(g, x, y, p)),
{
    let h = put(g, x, y, p);
    lemma_put(g, x, y, p);
    assert forall|a: int, b: int| #[trigger] player_at(h, a, b) implies a == x && b == y by {
        if !(a == x && b == y) {
            assert(player_at(g, a, b));
        }
    }
    assert(player_at(h, x, y));
}

/// A directional request keeps a session in play in order: whatever the
/// outcome, the grid keeps its shape and exactly one player remains.
pub proof fn lemma_request_preserves(g: Seq<Seq<Piece>>, x: int, y: int, req: Direction)
    requires
        well_formed(g),
        player_at(g, x, y),
    ensures
        same_shape(g, request(g, x, y, req).0),
        well_formed(request(g, x, y, req).0),
        one_player(request(g, x, y, req).0),
{
    if g[y][x] == Piece::Player(req) {
        lemma_advance_preserves(g, x, y, req);
    } else {
        lemma_put_keeps_players(g, x, y, Piece::Player(req));
    }
}

/// A request never both turns and steps: where the player faces another way
/// than requested, it stays on its cell, now facing as requested, and no
/// other cell changes.
pub proof fn lemma_turn_keeps_place(g: Seq<Seq<Piece>>, x: int, y: int, req: Direction)
    requires
        player_at(g, x, y),
        g[y][x] != Piece::Player(req),
    ensures
        request(g, x, y, req).1 == GameState::Moved,
        request(g, x, y, req).0[y][x] == Piece::Player(req),
        forall|a: int, b: int|
            in_bounds(g, a, b) && !(a == x && b == y) ==> #[trigger] request(
                g,
                x,
                y,
                req,
            ).0[b][a] == g[b][a],
{
    lemma_put(g, x, y, Piece::Player(req));
}

/// The trolls of a grid can be listed in one way only.
pub proof fn lemma_troll_listing_unique(
    g: Seq<Seq<Piece>>,
    s: Seq<(usize, usize, Direction)>,
    t: Seq<(usize, usize, Direction)>,
)
    requires
        troll_listing(g, s),
        troll_listing(g, t),
    ensures
        s == t,
    decreases s.len(),
{
    if s.len() == 0 {
        if t.len() > 0 {
            assert(troll_at(g, t[0].0 as int, t[0].1 as int));
        }
        assert(s =~= t);
    } else {
        let (x, y) = (s.last().0 as int, s.last().1 as int);
        assert(troll_at(g, x, y));
        let j = choose|j: int| 0 <= j < t.len() && (#[trigger] t[j]).0 == x && t[j].1 == y;
        let (u, v) = (t.last().0 as int, t.last().1 as int);
        assert(troll_at(g, u, v));
        let i = choose|i: int| 0 <= i < s.len() && (#[trigger] s[i]).0 == u && s[i].1 == v;
        // each list ends with the troll that is met last
        assert(x == u && y == v) by {
            if i < s.len() - 1 {
                assert(before(u, v, x, y));
            }
            if j < t.len() - 1 {
                assert(before(x, y, u, v));
            }
        }
        assert(s.last() == t.last());
        // without that troll, what is left of either list lists what is left
        let h = put(g, x, y, Piece::Empty);
        lemma_put(g, x, y, Piece::Empty);
        lemma_listing_without_last(g, s);
        lemma_listing_without_last(g, t);
        lemma_troll_listing_unique(h, s.drop_last(), t.drop_last());
        assert(s =~= s.drop_last().push(s.last()));
        assert(t =~= t.drop_last().push(t.last()));
    }
}

/// A listing without its last entry lists the trolls of the grid without the
/// last troll.
proof fn lemma_listing_without_last(g: Seq<Seq<Piece>>, s: Seq<(usize, usize, Direction)>)
    requires
        troll_listing(g, s),
        s.len() > 0,
    ensures
        troll_listing(
            put(g, s.last().0 as int, s.last().1 as int, Piece::Empty),
            s.drop_last(),
        ),
{
    let (x, y) = (s.last().0 as int, s.last().1 as int);
    let h = put(g, x, y, Piece::Empty);
    let r = s.drop_last();
    lemma_put(g, x, y, Piece::Empty);
    assert forall|i: int| 0 <= i < r.len() implies in_bounds(
        h,
        (#[trigger] r[i]).0 as int,
        r[i].1 as int,
    ) && h[r[i].1 as int][r[i].0 as int] == Piece::Troll(r[i].2) by {
        assert(r[i] == s[i]);
        assert(before(s[i].0 as int, s[i].1 as int, x, y));
    }
    assert forall|i: int, j: int| 0 <= i < j < r.len() implies before(
        (#[trigger] r[i]).0 as int,
        r[i].1 as int,
        (#[trigger] r[j]).0 as int,
        r[j].1 as int,
    ) by {
        assert(r[i] == s[i] && r[j] == s[j]);
    }
    assert forall|a: int, b: int| #[trigger] troll_at(h, a, b) implies exists|i: int|
        0 <= i < r.len() && (#[trigger] r[i]).0 == a && r[i].1 == b by {
        assert(troll_at(g, a, b));
        let i = choose|i: int| 0 <= i < s.len() && (#[trigger] s[i]).0 == a && s[i].1 == b;
        assert(r[i].0 == a);
    }
}

/// A troll's turn never adds, removes, moves or turns the player, and keeps
/// the grid's shape: exactly one player remains after it where there was one.
pub proof fn lemma_troll_step_preserves(
    g: Seq<Seq<Piece>>,
    x: int,
    y: int,
    dir: Direction,
    action: TrollAction,
)
    requires
        well_formed(g),
    ensures
        same_shape(g, troll_step(g, x, y, dir, action).0),
        well_formed(troll_step(g, x, y, dir, action).0),
        same_player(g, troll_step(g, x, y, dir, action).0),
        troll_step(g, x, y, dir, action).1 != GameState::Won,
        troll_step(g, x, y, dir, action).1 == GameState::Dead ==> has_player(g),
{
    if in_bounds(g, x, y) && g[y][x] == Piece::Troll(dir) {
        match action {
            TrollAction::Turn(d) => {
                lemma_put_keeps_players(g, x, y, Piece::Troll(d));
                lemma_put(g, x, y, Piece::Troll(d));
            },
            TrollAction::Advance => {
                lemma_advance_preserves(g, x, y, dir);
                let x1 = x + dx(dir);
                let y1 = y + dy(dir);
                let x2 = x1 + dx(dir);
                let y2 = y1 + dy(dir);
                if troll_step(g, x, y, dir, action).1 == GameState::Moved {
                    let g1 = put(g, x, y, Piece::Empty);
                    lemma_put(g, x, y, Piece::Empty);
                    if g[y1][x1] is Empty {
                        lemma_put(g1, x1, y1, g[y][x]);
                    } else {
                        let g2 = put(g1, x2, y2, Piece::Boulder);
                        lemma_put(g1, x2, y2, Piece::Boulder);
                        lemma_put(g2, x1, y1, g[y][x]);
                    }
                } else if troll_step(g, x, y, dir, action).1 == GameState::Dead {
                    assert(player_at(g, x1, y1));
                }
            },
        }
    }
}

/// A whole tick of the trolls leaves the player alone: the grid keeps its
/// shape and its invariant, the player stays on its cell facing the same way,
/// and the outcome is `Moved` or `Dead`, `Dead` only where there is a player.
pub proof fn lemma_tick_preserves(
    g: Seq<Seq<Piece>>,
    trolls: Seq<(usize, usize, Direction)>,
    actions: Seq<TrollAction>,
)
    requires
        well_formed(g),
        trolls.len() == actions.len(),
    ensures
        same_shape(g, tick(g, trolls, actions).0),
        well_formed(tick(g, trolls, actions).0),
        same_player(g, tick(g, trolls, actions).0),
        has_player(g) <==> has_player(tick(g, trolls, actions).0),
        tick(g, trolls, actions).1 == GameState::Moved || tick(g, trolls, actions).1
            == GameState::Dead,
        tick(g, trolls, actions).1 == GameState::Dead ==> has_player(g),
    decreases trolls.len(),
{
    let h = tick(g, trolls, actions).0;
    if trolls.len() > 0 {
        let g1 = tick(g, trolls.drop_last(), actions.drop_last()).0;
        lemma_tick_preserves(g, trolls.drop_last(), actions.drop_last());
        let t = trolls.last();
        lemma_troll_step_preserves(g1, t.0 as int, t.1 as int, t.2, actions.last());
        lemma_same_player_has_player(g1, h);
    }
    lemma_same_player_has_player(g, h);
}

/// Death ends the tick: if the first `n` trolls of the list leave the
/// outcome `Dead`, the whole list leaves what they left.
pub proof fn lemma_dead_ends_tick(
    g: Seq<Seq<Piece>>,
    trolls: Seq<(usize, usize, Direction)>,
    actions: Seq<TrollAction>,
    n: int,
)
    requires
        trolls.len() == actions.len(),
        0 <= n <= trolls.len(),
        tick(g, trolls.take(n), actions.take(n)).1 == GameState::Dead,
    ensures
        tick(g, trolls, actions) == tick(g, trolls.take(n), actions.take(n)),
    decreases trolls.len() - n,
{
    if n == trolls.len() {
        assert(trolls.take(n) == trolls);
        assert(actions.take(n) == actions);
    } else {
        assert(trolls.take(n + 1).drop_last() == trolls.take(n));
        assert(actions.take(n + 1).drop_last() == actions.take(n));
        lemma_dead_ends_tick(g, trolls, actions, n + 1);
    }
}

/// Grids with the same player have a player together or not at all.
pub proof fn lemma_same_player_has_player(g: Seq<Seq<Piece>>, h: Seq<Seq<Piece>>)
    requires
        same_player(g, h),
    ensures
        has_player(g) <==> has_player(h),
        one_player(g) <==> one_player(h),
{
}

/// Only `Moved` changes the maze: a step, a request or a troll's turn that
/// ends in any other outcome leaves the grid as it was.
pub proof fn lemma_only_moved_changes(
    g: Seq<Seq<Piece>>,
    x: int,
    y: int,
    dir: Direction,
    action: TrollAction,
)
    ensures
        advance(g, x, y, dir).1 != GameState::Moved ==> advance(g, x, y, dir).0 == g,
        request(g, x, y, dir).1 != GameState::Moved ==> request(g, x, y, dir).0 == g,
        troll_step(g, x, y, dir, action).1 != GameState::Moved ==> troll_step(
            g,
            x,
            y,
            dir,
            action,
        ).0 == g,
{
}

/// Replacing a piece that is neither wall nor exit by another such piece
/// leaves the walls and the exit where they are.
pub proof fn lemma_put_keeps_fixtures(g: Seq<Seq<Piece>>, x: int, y: int, p: Piece)
    requires
        in_bounds(g, x, y),
        !fixture_at(g, x, y),
        p !is Wall,
        p !is Exit,
    ensures
        same_fixtures(g, put(g, x, y, p)),
{
    lemma_put(g, x, y, p);
}

/// Walls and the exit never move: no step changes the cells that hold them.
pub proof fn lemma_advance_keeps_fixtures(g: Seq<Seq<Piece>>, x: int, y: int, dir: Direction)
    requires
        in_bounds(g, x, y),
        g[y][x].is_occupant(),
    ensures
        same_fixtures(g, advance(g, x, y, dir).0),
{
    let mover = g[y][x];
    let x1 = x + dx(dir);
    let y1 = y + dy(dir);
    let x2 = x1 + dx(dir);
    let y2 = y1 + dy(dir);
    if advance(g, x, y, dir).1 == GameState::Moved {
        let g1 = put(g, x, y, Piece::Empty);
        lemma_put(g, x, y, Piece::Empty);
        lemma_put_keeps_fixtures(g, x, y, Piece::Empty);
        if g[y1][x1] is Empty {
            lemma_put_keeps_fixtures(g1, x1, y1, mover);
        } else {
            let g2 = put(g1, x2, y2, Piece::Boulder);
            lemma_put(g1, x2, y2, Piece::Boulder);
            lemma_put_keeps_fixtures(g1, x2, y2, Piece::Boulder);
            lemma_put_keeps_fixtures(g2, x1, y1, mover);
        }
    }
}

/// No request to the player moves a wall or the exit.
pub proof fn lemma_request_keeps_fixtures(g: Seq<Seq<Piece>>, x: int, y: int, req: Direction)
    requires
        player_at(g, x, y),
    ensures
        same_fixtures(g, request(g, x, y, req).0),
{
    if g[y][x] == Piece::Player(req) {
        lemma_advance_keeps_fixtures(g, x, y, req);
    } else {
        lemma_put_keeps_fixtures(g, x, y, Piece::Player(req));
    }
}

/// No tick of the trolls moves a wall or the exit.
pub proof fn lemma_tick_keeps_fixtures(
    g: Seq<Seq<Piece>>,
    trolls: Seq<(usize, usize, Direction)>,
    actions: Seq<TrollAction>,
)
    requires
        trolls.len() == actions.len(),
    ensures
        same_fixtures(g, tick(g, trolls, actions).0),
    decreases trolls.len(),
{
    if trolls.len() > 0 {
        let g1 = tick(g, trolls.drop_last(), actions.drop_last()).0;
        lemma_tick_keeps_fixtures(g, trolls.drop_last(), actions.drop_last());
        let t = trolls.last();
        let (tx, ty) = (t.0 as int, t.1 as int);
        if in_bounds(g1, tx, ty) && g1[ty][tx] == Piece::Troll(t.2) {
            match actions.last() {
                TrollAction::Turn(d) => {
                    lemma_put_keeps_fixtures(g1, tx, ty, Piece::Troll(d));
                },
                TrollAction::Advance => {
                    lemma_advance_keeps_fixtures(g1, tx, ty, t.2);
                },
            }
        }
    }
}

/// Nothing has changed between a grid and itself.
pub proof fn lemma_nothing_changed(g: Seq<Seq<Piece>>)
    ensures
        spawned_from(g, g),
        changed_cells(g, g) == Set::<(int, int)>::empty(),
        changed_cells(g, g).finite(),
        changed_cells(g, g).len() == 0,
{
}

/// Spawning never overwrites: if `h` came from `g` by spawning and a piece
/// other than free ground is put on a cell that is free and off the border
/// in `h`, the result still came from `g` by spawning, on one cell more.
pub proof fn lemma_spawn_one_more(
    g: Seq<Seq<Piece>>,
    h: Seq<Seq<Piece>>,
    x: int,
    y: int,
    p: Piece,
)
    requires
        rectangular(g),
        spawned_from(g, h),
        changed_cells(g, h).finite(),
        spawnable(h, x, y),
        p !is Empty,
    ensures
        spawned_from(g, put(h, x, y, p)),
        spawnable(g, x, y),
        changed_cells(g, put(h, x, y, p)) == changed_cells(g, h).insert((x, y)),
        changed_cells(g, put(h, x, y, p)).finite(),
        changed_cells(g, put(h, x, y, p)).len() == changed_cells(g, h).len() + 1,
        forall|a: int, b: int|
            changed(g, h, a, b) ==> #[trigger] put(h, x, y, p)[b][a] == h[b][a],
{
    let k = put(h, x, y, p);
    lemma_put(h, x, y, p);
    // the cell was free in `g` already: had it changed, it would not be free in `h`
    assert(g[y][x] == h[y][x]) by {
        if g[y][x] != h[y][x] {
            assert(changed(g, h, x, y));
        }
    }
    assert forall|a: int, b: int| #[trigger] changed(g, k, a, b) implies spawnable(g, a, b) by {
        if !(a == x && b == y) {
            assert(changed(g, h, a, b));
        }
    }
    assert(changed_cells(g, k) =~= changed_cells(g, h).insert((x, y)));
}

/// Spawning twice is spawning once: if `h` came from `g` and `k` from `h` by
/// spawning pieces other than free ground, then `k` came from `g` by
/// spawning, the cells spawned on in the two rounds are different cells, and
/// what has changed from `g` to `k` is what changed in either round.
pub proof fn lemma_spawn_twice(g: Seq<Seq<Piece>>, h: Seq<Seq<Piece>>, k: Seq<Seq<Piece>>)
    requires
        rectangular(g),
        spawned_from(g, h),
        spawned_from(h, k),
        forall|x: int, y: int| #[trigger] changed(g, h, x, y) ==> h[y][x] !is Empty,
        changed_cells(g, h).finite(),
        changed_cells(h, k).finite(),
    ensures
        spawned_from(g, k),
        changed_cells(g, k) == changed_cells(g, h).union(changed_cells(h, k)),
        changed_cells(g, k).finite(),
        changed_cells(g, k).len() == changed_cells(g, h).len() + changed_cells(h, k).len(),
        forall|x: int, y: int| #[trigger] changed(g, h, x, y) ==> k[y][x] == h[y][x],
{
    assert forall|x: int, y: int| #[trigger] changed(g, h, x, y) implies k[y][x] == h[y][x] by {
        if k[y][x] != h[y][x] {
            assert(changed(h, k, x, y));
        }
    }
    assert forall|x: int, y: int| #[trigger] changed(h, k, x, y) implies spawnable(g, x, y)
        && g[y][x] == h[y][x] by {
        if g[y][x] != h[y][x] {
            assert(changed(g, h, x, y));
        }
    }
    assert forall|x: int, y: int| #[trigger] changed(g, k, x, y) implies spawnable(g, x, y) by {
        if h[y][x] != k[y][x] {
            assert(changed(h, k, x, y));
        } else {
            assert(changed(g, h, x, y));
        }
    }
    let a = changed_cells(g, h);
    let b = changed_cells(h, k);
    assert(changed_cells(g, k) =~= a.union(b));
    lemma_set_disjoint_lens(a, b);
}

} // verus!
