//! The shared vocabulary of every game: players, results, and the
//! capabilities a rules engine offers.

use vstd::prelude::*;

verus! {

/// One of the two sides of a game.
#[derive(Debug, Clone, Copy, PartialEq, Eq, Structural)]
pub enum Player {
    One,
    Two,
}

impl Player {
    /// The opponent of `self`.
    pub open spec fn other(self) -> Player {
        match self {
            Player::One => Player::Two,
            Player::Two => Player::One,
        }
    }

    /// The name of the side in words.
    pub open spec fn label(self) -> Seq<char> {
        match self {
            Player::One => "Player One"@,
            Player::Two => "Player Two"@,
        }
    }

    /// Returns the name of the side in words: `Player One` or `Player Two`.
    pub fn name(&self) -> (text: &'static str)
        ensures
            text@ == self.label(),
    {
        match *self {
            Player::One => "Player One",
            Player::Two => "Player Two",
        }
    }

    /// Returns the other side.
    pub fn other_player(&self) -> (r: Player)
        ensures
            r == self.other(),
    {
        match self {
            Player::One => Player::Two,
            Player::Two => Player::One,
        }
    }

    /// Swaps the side in place.
    pub fn flip_player(&mut self)
        ensures
            *final(self) == old(self).other(),
    {
        match *self {
            Player::One => *self = Player::Two,
            Player::Two => *self = Player::One,
        };
    }
}

impl Default for Player {
    /// The side that moves first.
    fn default() -> (r: Player)
        ensures
            r == Player::One,
    {
        Player::One
    }
}

/// The outcome of a game as far as it is known. `Undetermined` marks a game
/// that is still running; every other value is final.
#[derive(Debug, Clone, Copy, PartialEq, Eq, Structural)]
pub enum GameResult {
    Win(Player),
    Draw,
    Undetermined,
}

impl GameResult {
    /// Whether the game is over.
    pub open spec fn determined(self) -> bool {
        self != GameResult::Undetermined
    }

    /// The same outcome with the two sides exchanged.
    pub open spec fn swapped(self) -> GameResult {
        match self {
            GameResult::Win(player) => GameResult::Win(player.other()),
            GameResult::Draw => GameResult::Draw,
            GameResult::Undetermined => GameResult::Undetermined,
        }
    }

    /// Returns true for a win or a draw, false while the game is running.
    pub fn is_determined(&self) -> (r: bool)
        ensures
            r == self.determined(),
    {
        match *self {
            GameResult::Undetermined => false,
            _ => true,
        }
    }

    /// Returns the outcome as the opponent sees it: a win changes hands,
    /// a draw and a running game stay as they are.
    pub fn other_result(&self) -> (r: GameResult)
        ensures
            r == self.swapped(),
    {
        match *self {
            GameResult::Win(player) => GameResult::Win(player.other_player()),
            other_result => other_result,
        }
    }
}

impl Default for GameResult {
    /// A game that has not been decided.
    fn default() -> (r: GameResult)
        ensures
            r == GameResult::Undetermined,
    {
        GameResult::Undetermined
    }
}

impl From<Player> for GameResult {
    /// Turns the given player into `Win(player)`.
    fn from(value: Player) -> (r: GameResult)
        ensures
            r == GameResult::Win(value),
    {
        GameResult::Win(value)
    }
}

impl vstd::std_specs::convert::FromSpecImpl<Player> for GameResult {
    open spec fn obeys_from_spec() -> bool {
        true
    }

    open spec fn from_spec(value: Player) -> GameResult {
        GameResult::Win(value)
    }
}

/// The rules of one game, as a state that moves are applied to. A state holds
/// the position and whatever else the rules need to judge it.
///
/// Every game here is finite: each state has a number of plies left, and
/// every move lowers it.
pub trait GameState: Sized {
    /// A move of the game: a small value that is copied freely.
    type Move: Copy;

    /// The state from which every game starts.
    spec fn start() -> Self;

    /// What the rules engine keeps true of every state it hands out.
    spec fn valid(&self) -> bool;

    /// Whether `mov` may be applied to this state.
    spec fn can_apply(&self, mov: Self::Move) -> bool;

    /// The state that applying `mov` leads to.
    spec fn after(&self, mov: Self::Move) -> Self;

    /// The outcome that the state shows.
    spec fn outcome(&self) -> GameResult;

    /// The player to move.
    spec fn mover(&self) -> Player;

    /// The moves that the player to move may choose from, in the order in
    /// which `legal_moves` lists them.
    spec fn permitted(&self) -> Seq<Self::Move>;

    /// A bound on the number of moves that can still be applied.
    spec fn plies_left(&self) -> nat;

    /// Returns the state from which every game starts.
    fn new() -> (s: Self)
        ensures
            s == Self::start(),
            s.valid(),
    ;

    /// Returns all moves that the player to move may choose from, always in
    /// the same order for the same state; none when the game is over.
    fn legal_moves(&self) -> (moves: Vec<Self::Move>)
        requires
            self.valid(),
        ensures
            moves@ == self.permitted(),
            forall|i: int| 0 <= i < moves@.len() ==> self.can_apply(#[trigger] moves@[i]),
            self.outcome().determined() ==> moves@.len() == 0,
    ;

    /// Applies `mov`, which the caller has found to be applicable.
    fn apply_move(&mut self, mov: &Self::Move)
        requires
            old(self).valid(),
            old(self).can_apply(*mov),
        ensures
            *final(self) == old(self).after(*mov),
            final(self).valid(),
            final(self).plies_left() < old(self).plies_left(),
    ;

    /// Returns the state that applying `mov` leads to, and leaves this one
    /// untouched.
    fn next_state(&self, mov: &Self::Move) -> (s: Self)
        requires
            self.valid(),
            self.can_apply(*mov),
        ensures
            s == self.after(*mov),
            s.valid(),
            s.plies_left() < self.plies_left(),
    ;

    /// Returns the outcome that the state shows. Asking changes nothing.
    fn game_result(&self) -> (r: GameResult)
        requires
            self.valid(),
        ensures
            r == self.outcome(),
    ;

    /// Returns the player to move.
    fn current_player(&self) -> (p: Player)
        requires
            self.valid(),
        ensures
            p == self.mover(),
    ;

    /// Returns the states that one move leads to, in the order of
    /// `legal_moves`.
    fn reachable_states(&self) -> (states: Vec<Self>)
        requires
            self.valid(),
        ensures
            states@.len() == self.permitted().len(),
            forall|i: int|
                0 <= i < states@.len() ==> #[trigger] states@[i] == self.after(
                    self.permitted()[i],
                ) && states@[i].valid(),
    {
        let moves = self.legal_moves();
        let mut states: Vec<Self> = Vec::new();
        let mut i: usize = 0;
        while i < moves.len()
            invariant
                self.valid(),
                moves@ == self.permitted(),
                forall|j: int| 0 <= j < moves@.len() ==> self.can_apply(#[trigger] moves@[j]),
                0 <= i <= moves@.len(),
                states@.len() == i,
                forall|j: int|
                    0 <= j < i ==> #[trigger] states@[j] == self.after(self.permitted()[j])
                        && states@[j].valid(),
            decreases moves@.len() - i,
        {
            let mov = moves[i];
            states.push(self.next_state(&mov));
            i = i + 1;
        }
        states
    }

    /// Returns the states that one move leads to, each with the move that
    /// leads to it, in the order of `legal_moves`.
    fn states_and_moves(&self) -> (pairs: Vec<(Self, Self::Move)>)
        requires
            self.valid(),
        ensures
            pairs@.len() == self.permitted().len(),
            forall|i: int|
                0 <= i < pairs@.len() ==> (#[trigger] pairs@[i]).1 == self.permitted()[i]
                    && pairs@[i].0 == self.after(self.permitted()[i]) && pairs@[i].0.valid()
                    && self.can_apply(pairs@[i].1),
    {
        let moves = self.legal_moves();
        let mut pairs: Vec<(Self, Self::Move)> = Vec::new();
        let mut i: usize = 0;
        while i < moves.len()
            invariant
                self.valid(),
                moves@ == self.permitted(),
                forall|j: int| 0 <= j < moves@.len() ==> self.can_apply(#[trigger] moves@[j]),
                0 <= i <= moves@.len(),
                pairs@.len() == i,
                forall|j: int|
                    0 <= j < i ==> (#[trigger] pairs@[j]).1 == self.permitted()[j] && pairs@[j].0
                        == self.after(self.permitted()[j]) && pairs@[j].0.valid()
                        && self.can_apply(pairs@[j].1),
            decreases moves@.len() - i,
        {
            let mov = moves[i];
            pairs.push((self.next_state(&mov), mov));
            i = i + 1;
        }
        pairs
    }
}

/// Exchanging the sides twice gives back the player.
pub proof fn lemma_other_is_involution(p: Player)
    ensures
        p.other().other() == p,
        p.other() != p,
{
}

/// Exchanging the sides of an outcome twice gives back the outcome, and
/// never changes whether the game is over.
pub proof fn lemma_swapped_is_involution(r: GameResult)
    ensures
        r.swapped().swapped() == r,
        r.swapped().determined() == r.determined(),
{
}

} // verus!
