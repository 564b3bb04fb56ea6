//! The driver of one game: it asks the strategy for a move, applies it to
//! the state, and stops when the state shows an outcome.

use crate::evaluate::Evaluator;
use crate::game::{GameResult, GameState, Player};
use crate::strategy::Strategy;
use vstd::prelude::*;

verus! {

/// Where a driven game stands. `InProgress` is where every game starts; the
/// other two are final.
#[derive(Debug, Clone, Copy, PartialEq, Eq, Structural)]
pub enum Phase {
    InProgress,
    WonBy(Player),
    DrawnOut,
}

impl Phase {
    /// The phase that an outcome puts the game in.
    pub open spec fn of(result: GameResult) -> Phase {
        match result {
            GameResult::Undetermined => Phase::InProgress,
            GameResult::Win(player) => Phase::WonBy(player),
            GameResult::Draw => Phase::DrawnOut,
        }
    }

    /// Returns the phase that `result` puts the game in.
    pub fn from_result(result: GameResult) -> (phase: Phase)
        ensures
            phase == Phase::of(result),
    {
        match result {
            GameResult::Undetermined => Phase::InProgress,
            GameResult::Win(player) => Phase::WonBy(player),
            GameResult::Draw => Phase::DrawnOut,
        }
    }

    /// Returns true for the two final phases.
    pub fn is_terminal(&self) -> (r: bool)
        ensures
            r == (*self != Phase::InProgress),
    {
        match *self {
            Phase::InProgress => false,
            _ => true,
        }
    }
}

/// Whether one ply of the driver leads from `from` to `to`: the game is in
/// progress in `from`, and `to` comes of a move that the strategy may choose
/// there and that can be applied.
pub open spec fn one_ply<G, E, S>(strategy: &S, evaluator: &E, from: G, to: G) -> bool where
    G: GameState,
    E: Evaluator<G, Evaluation = S::Evaluation>,
    S: Strategy<G, E>,
 {
    &&& !from.outcome().determined()
    &&& exists|mov: G::Move|
        strategy.may_choose(&from, evaluator, Some(mov)) && from.can_apply(mov) && to
            == #[trigger] from.after(mov)
}

/// Whether `states` is a run of the driver: it holds a state at least, and
/// one ply leads from each state to the next.
pub open spec fn is_run<G, E, S>(strategy: &S, evaluator: &E, states: Seq<G>) -> bool where
    G: GameState,
    E: Evaluator<G, Evaluation = S::Evaluation>,
    S: Strategy<G, E>,
 {
    &&& states.len() > 0
    &&& forall|i: int|
        0 <= i < states.len() - 1 ==> one_ply(strategy, evaluator, #[trigger] states[i], states[i + 1])
}

/// One game with the evaluator and the strategy that play it. All three
/// belong to this driver alone.
#[derive(Debug)]
pub struct GamePlayer<G, E, S> where
    G: GameState,
    E: Evaluator<G, Evaluation = S::Evaluation>,
    S: Strategy<G, E>,
 {
    state: G,
    evaluator: E,
    strategy: S,
}

impl<G, E, S> GamePlayer<G, E, S> where
    G: GameState,
    E: Evaluator<G, Evaluation = S::Evaluation>,
    S: Strategy<G, E>,
 {
    /// The state of the game.
    pub closed spec fn game(&self) -> G {
        self.state
    }

    /// The evaluator that the strategy consults.
    pub closed spec fn judge(&self) -> E {
        self.evaluator
    }

    /// The strategy that picks the moves.
    pub closed spec fn chooser(&self) -> S {
        self.strategy
    }

    /// Whether the strategy may answer `choice` in the present state.
    pub open spec fn may_choose(&self, choice: Option<G::Move>) -> bool {
        self.chooser().may_choose(&self.game(), &self.judge(), choice)
    }

    /// Returns a driver for a game from its start, with a new evaluator and a
    /// new strategy.
    pub fn new() -> (player: GamePlayer<G, E, S>)
        ensures
            player.game() == G::start(),
            player.game().valid(),
    {
        GamePlayer { state: G::new(), evaluator: E::new(), strategy: S::new() }
    }

    /// Returns a driver that goes on from `state` with the given evaluator
    /// and strategy.
    pub fn from(state: G, evaluator: E, strategy: S) -> (player: GamePlayer<G, E, S>)
        ensures
            player.game() == state,
            player.judge() == evaluator,
            player.chooser() == strategy,
    {
        GamePlayer { state, evaluator, strategy }
    }

    /// Returns the state of the game.
    pub fn state(&self) -> (state: &G)
        ensures
            *state == self.game(),
    {
        &self.state
    }

    /// Returns where the game stands.
    pub fn phase(&self) -> (phase: Phase)
        requires
            self.game().valid(),
        ensures
            phase == Phase::of(self.game().outcome()),
    {
        Phase::from_result(self.state.game_result())
    }

    /// Plays one ply. While the game is in progress the strategy is asked for
    /// a move, which is applied and returned. `None` comes back, and the state
    /// stays as it is, when the game is over or when the strategy has no move:
    /// a game in progress in which the strategy declines to move is stopped
    /// there, and is never asked again.
    pub fn step(&mut self) -> (played: Option<G::Move>)
        requires
            old(self).game().valid(),
        ensures
            final(self).game().valid(),
            final(self).judge() == old(self).judge(),
            final(self).chooser() == old(self).chooser(),
            old(self).game().outcome().determined() ==> played is None,
            !old(self).game().outcome().determined() ==> old(self).may_choose(played),
            match played {
                Some(mov) => {
                    &&& old(self).game().permitted().contains(mov)
                    &&& old(self).game().can_apply(mov)
                    &&& final(self).game() == old(self).game().after(mov)
                    &&& final(self).game().plies_left() < old(self).game().plies_left()
                },
                None => final(self).game() == old(self).game(),
            },
    {
        match self.state.game_result() {
            GameResult::Undetermined => {
                let choice = self.strategy.choose_move(&self.state, &self.evaluator);
                if let Some(move_candidate) = choice {
                    self.state.apply_move(&move_candidate);
                }
                choice
            },
            _ => None,
        }
    }

    /// Plays the game to its end and returns the outcome that the final state
    /// shows. The states passed through form a run of the driver that starts
    /// at the present state; a game that is over is left as it is.
    /// `Undetermined` comes back only when the strategy had no move in a game
    /// still in progress.
    pub fn play(&mut self) -> (result: GameResult)
        requires
            old(self).game().valid(),
        ensures
            final(self).game().valid(),
            final(self).judge() == old(self).judge(),
            final(self).chooser() == old(self).chooser(),
            result == final(self).game().outcome(),
            !result.determined() ==> final(self).may_choose(None),
            old(self).game().outcome().determined() ==> final(self).game() == old(self).game(),
            exists|run: Seq<G>|
                {
                    &&& #[trigger] is_run(&old(self).chooser(), &old(self).judge(), run)
                    &&& run[0] == old(self).game()
                    &&& run.last() == final(self).game()
                    &&& run.len() - 1 + final(self).game().plies_left() <= old(
                        self,
                    ).game().plies_left()
                },
    {
        let ghost mut run: Seq<G> = seq![self.game()];
        loop
            invariant
                self.game().valid(),
                self.judge() == old(self).judge(),
                self.chooser() == old(self).chooser(),
                old(self).game().outcome().determined() ==> self.game() == old(self).game(),
                is_run(&old(self).chooser(), &old(self).judge(), run),
                run[0] == old(self).game(),
                run.last() == self.game(),
                run.len() - 1 + self.game().plies_left() <= old(self).game().plies_left(),
            decreases self.game().plies_left(),
        {
            let ghost before = self.game();
            let played = self.step();
            match played {
                None => {
                    return self.state.game_result();
                },
                Some(mov) => {
                    proof {
                        assert(self.game() == before.after(mov));
                        assert(one_ply(
                            &old(self).chooser(),
                            &old(self).judge(),
                            before,
                            self.game(),
                        ));
                        let longer = run.push(self.game());
                        assert forall|i: int| 0 <= i < longer.len() - 1 implies one_ply(
                            &old(self).chooser(),
                            &old(self).judge(),
                            #[trigger] longer[i],
                            longer[i + 1],
                        ) by {
                            if i < run.len() - 1 {
                                assert(longer[i] == run[i]);
                                assert(longer[i + 1] == run[i + 1]);
                            }
                        }
                        run = longer;
                    }
                },
            }
        }
    }
}

} // verus!
