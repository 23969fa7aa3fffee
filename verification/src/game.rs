use vstd::prelude::*;
use crate::direction::Direction;
use crate::grid::{
    changed, changed_cells, has_player, has_room, one_player, player_at, request,
    same_fixtures, same_player, spawned_at, spawned_from, ticked, well_formed,
};
use crate::laws::{
    lemma_nothing_changed, lemma_put, lemma_same_player_has_player, lemma_spawn_one_more,
    lemma_spawn_twice,
};
use crate::loader::{parse_map, LoadError};
use crate::maze::Maze;
use crate::piece::{GameState, Piece};

verus! {

/// How many trolls a new game starts with, room permitting.
pub const TROLLS: usize = 3;

/// `h` is a fresh game on the map `g`: the map with a player spawned on it if
/// it marked none, and then up to `TROLLS` trolls, fewer only where the free
/// cells off the border ran out. Only such cells were spawned on.
pub open spec fn new_game_on(g: Seq<Seq<Piece>>, h: Seq<Seq<Piece>>) -> bool {
    let players = if has_player(g) {
        0int
    } else {
        1int
    };
    &&& well_formed(h)
    &&& one_player(h)
    &&& spawned_from(g, h)
    &&& has_player(g) ==> same_player(g, h)
    &&& forall|x: int, y: int| #[trigger]
        changed(g, h, x, y) ==> h[y][x] is Troll || (h[y][x] is Player && !has_player(g))
    &&& changed_cells(g, h).finite()
    &&& players <= changed_cells(g, h).len() <= players + TROLLS
    &&& changed_cells(g, h).len() < players + TROLLS ==> !has_room(h)
}

/// Starts a game on the map that `text` describes: the maze is loaded, the
/// player is spawned unless the map marks one, and the trolls are spawned.
/// The game cannot start on a map that cannot be loaded, nor on one that
/// neither marks a player nor has a free cell off its border for one.
pub fn make_new_game(text: &[u8]) -> (r: Result<Maze, LoadError>)
    ensures
        (match parse_map(text@) {
            Err(e) => r matches Err(f) && f == e,
            Ok(g) => if !has_player(g) && !has_room(g) {
                r matches Err(f) && f == LoadError::MissingPlayer
            } else {
                r matches Ok(m) && m.wf() && new_game_on(g, m@)
            },
        }),
{
    let mut map = match Maze::from_bytes(text) {
        Ok(m) => m,
        Err(e) => {
            return Err(e);
        },
    };
    let ghost g = map@;
    proof {
        lemma_nothing_changed(g);
    }
    match map.find_player() {
        Some(_) => {},
        None => {
            if !map.add_player() {
                return Err(LoadError::MissingPlayer);
            }
            proof {
                let (x, y) = choose|x: int, y: int| #[trigger]
                    spawned_at(g, map@, x, y) && map@[y][x] is Player;
                lemma_spawn_one_more(g, g, x, y, map@[y][x]);
                lemma_put(g, x, y, map@[y][x]);
            }
        },
    }
    let ghost h = map@;
    map.add_trolls(TROLLS);
    proof {
        lemma_spawn_twice(g, h, map@);
        lemma_same_player_has_player(h, map@);
        assert forall|x: int, y: int| #[trigger] changed(g, map@, x, y) implies map@[y][x] is Troll
            || (map@[y][x] is Player && !has_player(g)) by {
            if !changed(g, h, x, y) {
                assert(changed(h, map@, x, y));
            }
        }
    }
    Ok(map)
}

/// Where a session stands: in play, or over one way or the other.
#[derive(Clone, Copy, Debug, PartialEq, Eq, Structural)]
pub enum Phase {
    /// The game goes on.
    Active,
    /// The player reached the exit.
    Won,
    /// A troll got the player.
    Dead,
}

/// The phase that a session in play enters on an outcome.
pub open spec fn phase_after(outcome: GameState) -> Phase {
    match outcome {
        GameState::Won => Phase::Won,
        GameState::Dead => Phase::Dead,
        _ => Phase::Active,
    }
}

/// The outcome that a session that is over answers every request with.
pub open spec fn closing_outcome(phase: Phase) -> GameState {
    match phase {
        Phase::Won => GameState::Won,
        Phase::Dead => GameState::Dead,
        Phase::Active => GameState::Moved,
    }
}

/// One playthrough: a maze with exactly one player in it, and the phase that
/// the game has reached. Once the game is won or lost the maze is frozen;
/// play goes on with `restart` only.
#[derive(Debug)]
pub struct Session {
    maze: Maze,
    phase: Phase,
}

impl View for Session {
    type V = Seq<Seq<Piece>>;

    /// The grid of the session's maze.
    closed spec fn view(&self) -> Seq<Seq<Piece>> {
        self.maze@
    }
}

impl Session {
    /// The phase that the session has reached.
    pub closed spec fn spec_phase(&self) -> Phase {
        self.phase
    }

    /// The invariant of every session: its maze is in order and holds
    /// exactly one player.
    pub open spec fn wf(&self) -> bool {
        well_formed(self@) && one_player(self@)
    }

    /// Starts a session on the map that `text` describes, as `make_new_game`
    /// sets it up.
    pub fn new(text: &[u8]) -> (r: Result<Session, LoadError>)
        ensures
            (match parse_map(text@) {
                Err(e) => r matches Err(f) && f == e,
                Ok(g) => if !has_player(g) && !has_room(g) {
                    r matches Err(f) && f == LoadError::MissingPlayer
                } else {
                    r matches Ok(s) && s.wf() && s.spec_phase() == Phase::Active && new_game_on(
                        g,
                        s@,
                    )
                },
            }),
    {
        match make_new_game(text) {
            Ok(maze) => Ok(Session { maze, phase: Phase::Active }),
            Err(e) => Err(e),
        }
    }

    /// Throws the session away for a fresh one on the map that `text`
    /// describes. Where no game can start on that map the session stays as it
    /// is.
    pub fn restart(&mut self, text: &[u8]) -> (r: Result<(), LoadError>)
        requires
            old(self).wf(),
        ensures
            final(self).wf(),
            (match parse_map(text@) {
                Err(e) => r matches Err(f) && f == e && *final(self) == *old(self),
                Ok(g) => if !has_player(g) && !has_room(g) {
                    r matches Err(f) && f == LoadError::MissingPlayer && *final(self) == *old(self)
                } else {
                    r is Ok && final(self).spec_phase() == Phase::Active && new_game_on(
                        g,
                        final(self)@,
                    )
                },
            }),
    {
        match make_new_game(text) {
            Ok(maze) => {
                self.maze = maze;
                self.phase = Phase::Active;
                Ok(())
            },
            Err(e) => Err(e),
        }
    }

    /// The phase that the session has reached.
    pub fn phase(&self) -> (p: Phase)
        ensures
            p == self.spec_phase(),
    {
        self.phase
    }

    /// Whether the game goes on.
    pub fn is_active(&self) -> (b: bool)
        ensures
            b == (self.spec_phase() == Phase::Active),
    {
        self.phase == Phase::Active
    }

    /// The maze, to look at.
    pub fn maze(&self) -> (m: &Maze)
        requires
            self.wf(),
        ensures
            m@ == self@,
            m.wf(),
            one_player(m@),
    {
        &self.maze
    }

    /// A directional request to the player, as `Maze::move_player` resolves
    /// it. `Won` and `Dead` end the session. A session that is over changes
    /// no more, and answers with the outcome that ended it.
    pub fn request_direction(&mut self, dir: Direction) -> (r: GameState)
        requires
            old(self).wf(),
        ensures
            final(self).wf(),
            (old(self).spec_phase() == Phase::Active ==> {
                &&& final(self).spec_phase() == phase_after(r)
                &&& forall|x: int, y: int| #[trigger]
                    player_at(old(self)@, x, y) ==> (final(self)@, r) == request(
                        old(self)@,
                        x,
                        y,
                        dir,
                    )
            }),
            (old(self).spec_phase() != Phase::Active ==> {
                &&& *final(self) == *old(self)
                &&& r == closing_outcome(old(self).spec_phase())
            }),
    {
        match self.phase {
            Phase::Won => GameState::Won,
            Phase::Dead => GameState::Dead,
            Phase::Active => {
                let r = self.maze.move_player(dir);
                match r {
                    GameState::Won => {
                        self.phase = Phase::Won;
                    },
                    GameState::Dead => {
                        self.phase = Phase::Dead;
                    },
                    _ => {},
                }
                r
            },
        }
    }

    /// One tick of the trolls, as `Maze::move_trolls` runs it. `Dead` ends
    /// the session. A session that is over changes no more, and answers with
    /// the outcome that ended it.
    pub fn tick_trolls(&mut self) -> (r: GameState)
        requires
            old(self).wf(),
        ensures
            final(self).wf(),
            (old(self).spec_phase() == Phase::Active ==> {
                &&& final(self).spec_phase() == phase_after(r)
                &&& r == GameState::Moved || r == GameState::Dead
                &&& ticked(old(self)@, final(self)@, r)
                &&& same_player(old(self)@, final(self)@)
                &&& same_fixtures(old(self)@, final(self)@)
            }),
            (old(self).spec_phase() != Phase::Active ==> {
                &&& *final(self) == *old(self)
                &&& r == closing_outcome(old(self).spec_phase())
            }),
    {
        match self.phase {
            Phase::Won => GameState::Won,
            Phase::Dead => GameState::Dead,
            Phase::Active => {
                let r = self.maze.move_trolls();
                proof {
                    lemma_same_player_has_player(old(self)@, self@);
                }
                if r == GameState::Dead {
                    self.phase = Phase::Dead;
                }
                r
            },
        }
    }
}

} // verus!
