//! Position evaluators: what a strategy may consult before it chooses.

use crate::game::{GameResult, GameState};
use vstd::prelude::*;

verus! {

/// An evaluation that carries a single score, by which positions are ranked.
pub trait QValue {
    type Q: Sized;

    /// The score that the evaluation carries.
    spec fn score(&self) -> Self::Q;

    /// Returns the score.
    fn q(&self) -> (score: Self::Q)
        ensures
            score == self.score(),
    ;
}

impl QValue for i64 {
    type Q = i64;

    open spec fn score(&self) -> i64 {
        *self
    }

    /// A plain number is its own score.
    fn q(&self) -> (score: i64) {
        *self
    }
}

/// Judges a move in a state, from the point of view of the player to move.
/// What the judgement is, a score, an outcome, a set of probabilities or
/// nothing at all, is the evaluator's own choice.
pub trait Evaluator<G>: Sized where G: GameState {
    /// The kind of judgement that this evaluator gives.
    type Evaluation;

    /// The judgement of `mov` in `state`.
    spec fn value(&self, state: &G, mov: G::Move) -> Self::Evaluation;

    /// Returns a new evaluator.
    fn new() -> Self;

    /// Returns the judgement of `mov`, which can be applied to `state`.
    fn evaluate(&self, state: &G, mov: &G::Move) -> (e: Self::Evaluation)
        requires
            state.valid(),
            state.can_apply(*mov),
        ensures
            e == self.value(state, *mov),
    ;
}

/// The evaluator for strategies that need no guidance, such as random play.
#[derive(Debug)]
pub struct EmptyEvaluator;

impl<G> Evaluator<G> for EmptyEvaluator where G: GameState {
    type Evaluation = ();

    open spec fn value(&self, state: &G, mov: G::Move) -> () {
        ()
    }

    fn new() -> Self {
        EmptyEvaluator
    }

    fn evaluate(&self, _state: &G, _mov: &G::Move) -> (e: ()) {
        ()
    }
}

/// Judges a move by the outcome of the state that it leads to: a win, a draw,
/// or undetermined when the game goes on after it.
#[derive(Debug)]
pub struct TerminalStateEvaluator;

impl<G> Evaluator<G> for TerminalStateEvaluator where G: GameState {
    type Evaluation = GameResult;

    open spec fn value(&self, state: &G, mov: G::Move) -> GameResult {
        state.after(mov).outcome()
    }

    fn new() -> Self {
        TerminalStateEvaluator
    }

    fn evaluate(&self, state: &G, mov: &G::Move) -> (e: GameResult) {
        let next_state = state.next_state(mov);
        next_state.game_result()
    }
}

} // verus!
