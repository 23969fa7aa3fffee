use vstd::prelude::*;
use crate::chance::one_in;
use crate::direction::Direction;
use crate::grid::{has_player, same_fixtures, same_player, tick, ticked, troll_step};
use crate::laws::{
    lemma_dead_ends_tick, lemma_tick_keeps_fixtures, lemma_tick_preserves,
    lemma_troll_step_preserves,
};
use crate::maze::Maze;
use crate::piece::{GameState, Piece, TrollAction};

verus! {

impl Maze {
    /// The turn of the troll that was seen on `(x, y)` facing `dir`: it turns
    /// or tries to step, as `action` says. Where the cell no longer holds that
    /// troll, nothing changes and the outcome is `InvalidMove`.
    pub fn step_troll(
        &mut self,
        x: usize,
        y: usize,
        dir: Direction,
        action: TrollAction,
    ) -> (r: GameState)
        requires
            old(self).wf(),
        ensures
            final(self).wf(),
            (final(self)@, r) == troll_step(old(self)@, x as int, y as int, dir, action),
            same_player(old(self)@, final(self)@),
    {
        proof {
            lemma_troll_step_preserves(self@, x as int, y as int, dir, action);
        }
        match self.get(x, y) {
            Some(here) => {
                if here != Piece::Troll(dir) {
                    return GameState::InvalidMove;
                }
            },
            None => {
                return GameState::InvalidMove;
            },
        }
        match action {
            TrollAction::Turn(d) => {
                self.set(x, y, Piece::Troll(d));
                GameState::Moved
            },
            TrollAction::Advance => self.move_piece_forward(Piece::Troll(dir), x, y, dir),
        }
    }

    /// One tick: the trolls that stand in the maze when the tick begins take
    /// their turns, in row-major order of where they stood. With a chance of
    /// one in three a troll turns to a heading drawn at random and stays;
    /// otherwise it tries to step the way it faces. The tick is over as soon
    /// as a troll reaches the player, with the outcome `Dead`; otherwise the
    /// outcome is `Moved`.
    pub fn move_trolls(&mut self) -> (r: GameState)
        requires
            old(self).wf(),
        ensures
            final(self).wf(),
            ticked(old(self)@, final(self)@, r),
            same_player(old(self)@, final(self)@),
            same_fixtures(old(self)@, final(self)@),
            has_player(old(self)@) <==> has_player(final(self)@),
            r == GameState::Moved || r == GameState::Dead,
            r == GameState::Dead ==> has_player(old(self)@),
    {
        let mut rng = rand::thread_rng();
        let trolls = self.find_trolls();
        let mut outcome = GameState::Moved;
        let ghost mut actions: Seq<TrollAction> = Seq::empty();
        let mut i: usize = 0;
        while i < trolls.len() && outcome != GameState::Dead
            invariant
                i <= trolls.len(),
                self.wf(),
                actions.len() == i,
                (self@, outcome) == tick(old(self)@, trolls@.take(i as int), actions),
            decreases trolls.len() - i,
        {
            let (x, y, dir) = trolls[i];
            let action = if one_in(&mut rng, 3) {
                TrollAction::Turn(Direction::random(&mut rng))
            } else {
                TrollAction::Advance
            };
            let r = self.step_troll(x, y, dir, action);
            if r == GameState::Dead {
                outcome = GameState::Dead;
            }
            proof {
                let done = trolls@.take(i as int + 1);
                assert(done.drop_last() == trolls@.take(i as int));
                assert(actions.push(action).drop_last() == actions);
                actions = actions.push(action);
            }
            i += 1;
        }
        proof {
            let rest = Seq::new((trolls.len() - i) as nat, |k: int| TrollAction::Advance);
            let all = actions + rest;
            assert(all.take(i as int) == actions);
            if i < trolls.len() {
                lemma_dead_ends_tick(old(self)@, trolls@, all, i as int);
            } else {
                assert(trolls@.take(i as int) == trolls@);
            }
            lemma_tick_preserves(old(self)@, trolls@, all);
            lemma_tick_keeps_fixtures(old(self)@, trolls@, all);
        }
        outcome
    }
}

} // verus!
