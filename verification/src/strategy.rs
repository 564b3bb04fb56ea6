//! Strategies: how the player to move picks a move.

use crate::evaluate::{EmptyEvaluator, Evaluator, QValue, TerminalStateEvaluator};
use crate::game::{GameResult, GameState};
use rand::seq::SliceRandom;
use vstd::prelude::*;

verus! {

/// Picks the move to make in a state, with the help of an evaluator whose
/// judgements it understands.
pub trait Strategy<G, E>: Sized where
    G: GameState,
    E: Evaluator<G, Evaluation = Self::Evaluation>,
 {
    /// The kind of judgement that this strategy works from.
    type Evaluation;

    /// Whether `choice` is an answer that the strategy may give in `state`.
    spec fn may_choose(&self, state: &G, evaluator: &E, choice: Option<G::Move>) -> bool;

    /// Returns a new strategy.
    fn new() -> Self;

    /// Returns the chosen move, one of those that `legal_moves` lists, or
    /// `None` for "no move".
    fn choose_move(&self, state: &G, evaluator: &E) -> (choice: Option<G::Move>)
        requires
            state.valid(),
        ensures
            self.may_choose(state, evaluator, choice),
            choice matches Some(mov) ==> state.permitted().contains(mov) && state.can_apply(mov),
    ;
}

/// Plays a move drawn uniformly from the legal ones.
#[derive(Debug)]
pub struct RandomStrat;

/// Calls `rand::seq::SliceRandom::choose` on the items, with the generator of
/// the current thread (`rand::thread_rng`). Which item comes back is left to
/// chance; the contract holds only what is true of every draw: nothing comes
/// back from an empty list, and from any other an item of the list.
#[verifier::external_body]
fn choose_random<T>(items: &Vec<T>) -> (picked: Option<&T>)
    ensures
        picked is None <==> items@.len() == 0,
        picked matches Some(item) ==> items@.contains(*item),
{
    items.choose(&mut rand::thread_rng())
}

impl<G> Strategy<G, EmptyEvaluator> for RandomStrat where G: GameState {
    type Evaluation = ();

    open spec fn may_choose(
        &self,
        state: &G,
        evaluator: &EmptyEvaluator,
        choice: Option<G::Move>,
    ) -> bool {
        match choice {
            Some(mov) => state.permitted().contains(mov),
            None => state.permitted().len() == 0,
        }
    }

    fn new() -> Self {
        RandomStrat
    }

    fn choose_move(&self, state: &G, _evaluator: &EmptyEvaluator) -> (choice: Option<G::Move>) {
        let legal_moves = state.legal_moves();
        match choose_random(&legal_moves) {
            Some(random_move) => {
                proof {
                    let i = choose|i: int|
                        0 <= i < legal_moves@.len() && legal_moves@[i] == *random_move;
                    assert(state.can_apply(legal_moves@[i]));
                }
                Some(*random_move)
            },
            None => None,
        }
    }
}

/// The score that `evaluator` gives to `mov` in `state`.
pub open spec fn score_of<G, E>(evaluator: &E, state: &G, mov: G::Move) -> i64 where
    G: GameState,
    E: Evaluator<G>,
    E::Evaluation: QValue<Q = i64>,
 {
    evaluator.value(state, mov).score()
}

/// Whether no legal move in `state` scores higher than `mov`.
pub open spec fn scores_highest<G, E>(evaluator: &E, state: &G, mov: G::Move) -> bool where
    G: GameState,
    E: Evaluator<G>,
    E::Evaluation: QValue<Q = i64>,
 {
    forall|j: int|
        0 <= j < state.permitted().len() ==> score_of(evaluator, state, #[trigger] state.permitted()[j])
            <= score_of(evaluator, state, mov)
}

/// The first of the legal moves that score highest, if there is a legal
/// move.
pub open spec fn greedy_move<G, E>(evaluator: &E, state: &G) -> Option<G::Move> where
    G: GameState,
    E: Evaluator<G>,
    E::Evaluation: QValue<Q = i64>,
 {
    let moves = state.permitted();
    if moves.len() == 0 {
        None
    } else {
        Some(moves[first_index(moves, |m: G::Move| scores_highest(evaluator, state, m))])
    }
}

/// Plays the move that the evaluator scores highest, and of several such
/// moves the first. It looks no further than one ply.
#[derive(Debug)]
pub struct GreedyStrategy;

impl<G, E> Strategy<G, E> for GreedyStrategy where
    G: GameState,
    E: Evaluator<G>,
    E::Evaluation: QValue<Q = i64>,
 {
    type Evaluation = E::Evaluation;

    open spec fn may_choose(&self, state: &G, evaluator: &E, choice: Option<G::Move>) -> bool {
        choice == greedy_move(evaluator, state)
    }

    fn new() -> Self {
        GreedyStrategy
    }

    fn choose_move(&self, state: &G, evaluator: &E) -> (choice: Option<G::Move>) {
        let moves = state.legal_moves();
        if moves.len() == 0 {
            return None;
        }
        let mut best: usize = 0;
        let mut best_score: i64 = evaluator.evaluate(state, &moves[0]).q();
        let mut i: usize = 1;
        while i < moves.len()
            invariant
                state.valid(),
                moves@ == state.permitted(),
                forall|j: int| 0 <= j < moves@.len() ==> state.can_apply(#[trigger] moves@[j]),
                0 <= best < i <= moves@.len(),
                best_score == score_of(evaluator, state, moves@[best as int]),
                forall|j: int|
                    0 <= j < i ==> score_of(evaluator, state, #[trigger] moves@[j]) <= best_score,
                forall|j: int|
                    0 <= j < best ==> score_of(evaluator, state, #[trigger] moves@[j])
                        < best_score,
            decreases moves@.len() - i,
        {
            let score: i64 = evaluator.evaluate(state, &moves[i]).q();
            if score > best_score {
                best = i;
                best_score = score;
            }
            i = i + 1;
        }
        proof {
            let wanted = |m: G::Move| scores_highest(evaluator, state, m);
            assert(wanted(moves@[best as int]));
            assert forall|j: int| 0 <= j < best implies !wanted(#[trigger] moves@[j]) by {
                assert(score_of(evaluator, state, moves@[best as int]) > score_of(
                    evaluator,
                    state,
                    moves@[j],
                ));
            }
            assert(is_first(state.permitted(), wanted, best as int));
            lemma_first_is_unique(state.permitted(), wanted, best as int);
        }
        Some(moves[best])
    }
}

/// Whether `mov` wins the game at once for the player to move in `state`.
pub open spec fn wins_at_once<G: GameState>(state: &G, mov: G::Move) -> bool {
    state.after(mov).outcome() == GameResult::Win(state.mover())
}

/// Whether `mov` leaves the opponent without a move that wins at once.
pub open spec fn is_safe<G: GameState>(state: &G, mov: G::Move) -> bool {
    !can_win_at_once(&state.after(mov))
}

/// Whether `i` is the first place in `moves` whose move meets `wanted`.
pub open spec fn is_first<M>(moves: Seq<M>, wanted: spec_fn(M) -> bool, i: int) -> bool {
    &&& 0 <= i < moves.len()
    &&& wanted(moves[i])
    &&& forall|j: int| 0 <= j < i ==> !wanted(#[trigger] moves[j])
}

/// Whether some move in `moves` meets `wanted`.
pub open spec fn has_some<M>(moves: Seq<M>, wanted: spec_fn(M) -> bool) -> bool {
    exists|i: int| 0 <= i < moves.len() && wanted(#[trigger] moves[i])
}

/// The first place in `moves` whose move meets `wanted`.
pub open spec fn first_index<M>(moves: Seq<M>, wanted: spec_fn(M) -> bool) -> int {
    choose|i: int| is_first(moves, wanted, i)
}

/// Whether the player to move in `state` has a move that wins at once.
pub open spec fn can_win_at_once<G: GameState>(state: &G) -> bool {
    has_some(state.permitted(), |mov: G::Move| wins_at_once(state, mov))
}

/// Whether the player to move in `state` has a move after which the opponent
/// cannot win at once.
pub open spec fn has_safe_move<G: GameState>(state: &G) -> bool {
    has_some(state.permitted(), |mov: G::Move| is_safe(state, mov))
}

/// The move that looking two plies ahead settles on: none when the game is
/// over or no move is left; else the first move that wins at once; else the
/// first move after which the opponent cannot win at once; else the first
/// move.
pub open spec fn preferred_move<G: GameState>(state: &G) -> Option<G::Move> {
    let moves = state.permitted();
    if state.outcome().determined() || moves.len() == 0 {
        None
    } else if can_win_at_once(state) {
        Some(moves[first_index(moves, |mov: G::Move| wins_at_once(state, mov))])
    } else if has_safe_move(state) {
        Some(moves[first_index(moves, |mov: G::Move| is_safe(state, mov))])
    } else {
        Some(moves[0])
    }
}

/// There is one first place at most.
pub proof fn lemma_first_is_unique<M>(moves: Seq<M>, wanted: spec_fn(M) -> bool, i: int)
    requires
        is_first(moves, wanted, i),
    ensures
        first_index(moves, wanted) == i,
        has_some(moves, wanted),
{
    let k = first_index(moves, wanted);
    assert(is_first(moves, wanted, k));
    if k < i {
        assert(!wanted(moves[k]));
    }
    if i < k {
        assert(!wanted(moves[i]));
    }
}

/// Where some move meets `wanted`, one of them is the first.
pub proof fn lemma_first_exists<M>(moves: Seq<M>, wanted: spec_fn(M) -> bool)
    requires
        has_some(moves, wanted),
    ensures
        is_first(moves, wanted, first_index(moves, wanted)),
{
    let k = choose|k: int| 0 <= k < moves.len() && wanted(#[trigger] moves[k]);
    lemma_first_up_to(moves, wanted, k);
}

/// Where the move at place `k` meets `wanted`, there is a first place that
/// does, at `k` or before it.
proof fn lemma_first_up_to<M>(moves: Seq<M>, wanted: spec_fn(M) -> bool, k: int)
    requires
        0 <= k < moves.len(),
        wanted(moves[k]),
    ensures
        exists|i: int| is_first(moves, wanted, i),
    decreases k,
{
    if exists|j: int| 0 <= j < k && wanted(#[trigger] moves[j]) {
        let j = choose|j: int| 0 <= j < k && wanted(#[trigger] moves[j]);
        lemma_first_up_to(moves, wanted, j);
    } else {
        assert(is_first(moves, wanted, k));
    }
}

/// What looking two plies ahead settles on is a legal move whenever the game
/// is running and a move is left. It wins at once where any move does; and
/// where none does, it leaves the opponent without a move that wins at once,
/// if any move does so.
pub proof fn lemma_preferred_is_prudent<G: GameState>(state: &G)
    ensures
        match preferred_move(state) {
            Some(mov) => {
                &&& state.permitted().contains(mov)
                &&& can_win_at_once(state) ==> wins_at_once(state, mov)
                &&& !can_win_at_once(state) && has_safe_move(state) ==> is_safe(state, mov)
            },
            None => state.outcome().determined() || state.permitted().len() == 0,
        },
{
    let moves = state.permitted();
    if !(state.outcome().determined() || moves.len() == 0) {
        if can_win_at_once(state) {
            lemma_first_exists(moves, |mov: G::Move| wins_at_once(state, mov));
        } else if has_safe_move(state) {
            lemma_first_exists(moves, |mov: G::Move| is_safe(state, mov));
        } else {
            assert(moves[0] == moves[0]);
        }
    }
}

/// Some legal move scores highest, where there is a legal move at all: the
/// first `n` moves hold one that no move among them outscores.
proof fn lemma_highest_among<G, E>(evaluator: &E, state: &G, n: int) -> (best: int) where
    G: GameState,
    E: Evaluator<G>,
    E::Evaluation: QValue<Q = i64>,

    requires
        0 < n <= state.permitted().len(),
    ensures
        0 <= best < n,
        forall|j: int|
            0 <= j < n ==> score_of(evaluator, state, #[trigger] state.permitted()[j]) <= score_of(
                evaluator,
                state,
                state.permitted()[best],
            ),
    decreases n,
{
    if n == 1 {
        0
    } else {
        let earlier = lemma_highest_among(evaluator, state, n - 1);
        if score_of(evaluator, state, state.permitted()[n - 1]) > score_of(
            evaluator,
            state,
            state.permitted()[earlier],
        ) {
            n - 1
        } else {
            earlier
        }
    }
}

/// The greedy choice is a legal move that no legal move outscores, and every
/// legal move before it scores lower.
pub proof fn lemma_greedy_is_best<G, E>(evaluator: &E, state: &G) where
    G: GameState,
    E: Evaluator<G>,
    E::Evaluation: QValue<Q = i64>,

    ensures
        match greedy_move(evaluator, state) {
            Some(mov) => {
                &&& state.permitted().contains(mov)
                &&& scores_highest(evaluator, state, mov)
                &&& is_first(
                    state.permitted(),
                    |m: G::Move| scores_highest(evaluator, state, m),
                    first_index(
                        state.permitted(),
                        |m: G::Move| scores_highest(evaluator, state, m),
                    ),
                )
            },
            None => state.permitted().len() == 0,
        },
{
    let moves = state.permitted();
    if moves.len() > 0 {
        let wanted = |m: G::Move| scores_highest(evaluator, state, m);
        let best = lemma_highest_among(evaluator, state, moves.len() as int);
        assert(wanted(moves[best]));
        lemma_first_exists(moves, wanted);
    }
}

/// Returns the place of the first move in `moves`, the legal moves of
/// `state`, that wins at once, if there is one.
fn find_winning_move<G: GameState>(
    state: &G,
    moves: &Vec<G::Move>,
    evaluator: &TerminalStateEvaluator,
) -> (found: Option<usize>)
    requires
        state.valid(),
        moves@ == state.permitted(),
        forall|i: int| 0 <= i < moves@.len() ==> state.can_apply(#[trigger] moves@[i]),
    ensures
        found is Some <==> can_win_at_once(state),
        found matches Some(i) ==> is_first(
            state.permitted(),
            |mov: G::Move| wins_at_once(state, mov),
            i as int,
        ),
{
    let ghost wanted = |mov: G::Move| wins_at_once(state, mov);
    let current_player = state.current_player();
    let mut i: usize = 0;
    while i < moves.len()
        invariant
            state.valid(),
            moves@ == state.permitted(),
            forall|j: int| 0 <= j < moves@.len() ==> state.can_apply(#[trigger] moves@[j]),
            current_player == state.mover(),
            wanted == (|mov: G::Move| wins_at_once(state, mov)),
            0 <= i <= moves@.len(),
            forall|j: int| 0 <= j < i ==> !wanted(#[trigger] moves@[j]),
        decreases moves@.len() - i,
    {
        let mov = moves[i];
        if evaluator.evaluate(state, &mov) == GameResult::Win(current_player) {
            proof {
                assert(wanted(moves@[i as int]));
                assert(is_first(moves@, wanted, i as int));
                lemma_first_is_unique(moves@, wanted, i as int);
            }
            return Some(i);
        }
        i = i + 1;
    }
    proof {
        if has_some(moves@, wanted) {
            let k = choose|k: int| 0 <= k < moves@.len() && wanted(#[trigger] moves@[k]);
            assert(!wanted(moves@[k]));
        }
    }
    None
}

/// Looks two plies ahead: takes a win where one is on offer, and otherwise
/// keeps the opponent from one where it can.
#[derive(Debug)]
pub struct TerminalStateStrategy;

impl<G> Strategy<G, TerminalStateEvaluator> for TerminalStateStrategy where G: GameState {
    type Evaluation = GameResult;

    open spec fn may_choose(
        &self,
        state: &G,
        evaluator: &TerminalStateEvaluator,
        choice: Option<G::Move>,
    ) -> bool {
        choice == preferred_move(state)
    }

    fn new() -> Self {
        TerminalStateStrategy
    }

    fn choose_move(&self, state: &G, evaluator: &TerminalStateEvaluator) -> (choice: Option<
        G::Move,
    >) {
        let current_result = state.game_result();
        if current_result.is_determined() {
            return None;
        }
        let moves = state.legal_moves();
        if moves.len() == 0 {
            return None;
        }
        if let Some(i) = find_winning_move(state, &moves, evaluator) {
            proof {
                lemma_first_is_unique(
                    moves@,
                    |mov: G::Move| wins_at_once(state, mov),
                    i as int,
                );
            }
            return Some(moves[i]);
        }
        let ghost wanted = |mov: G::Move| is_safe(state, mov);
        let mut i: usize = 0;
        while i < moves.len()
            invariant
                state.valid(),
                moves@ == state.permitted(),
                forall|j: int| 0 <= j < moves@.len() ==> state.can_apply(#[trigger] moves@[j]),
                wanted == (|mov: G::Move| is_safe(state, mov)),
                !state.outcome().determined(),
                !can_win_at_once(state),
                0 < moves@.len(),
                0 <= i <= moves@.len(),
                forall|j: int| 0 <= j < i ==> !wanted(#[trigger] moves@[j]),
            decreases moves@.len() - i,
        {
            let mov = moves[i];
            let future_state = state.next_state(&mov);
            let replies = future_state.legal_moves();
            if find_winning_move(&future_state, &replies, evaluator).is_none() {
                proof {
                    assert(wanted(moves@[i as int]));
                    assert(is_first(moves@, wanted, i as int));
                    lemma_first_is_unique(moves@, wanted, i as int);
                }
                return Some(mov);
            }
            i = i + 1;
        }
        proof {
            if has_some(moves@, wanted) {
                let k = choose|k: int| 0 <= k < moves@.len() && wanted(#[trigger] moves@[k]);
                assert(!wanted(moves@[k]));
            }
        }
        Some(moves[0])
    }
}

} // verus!
