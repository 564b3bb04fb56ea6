//! The reference rules engine: the 3x3 grid game on a bitboard.
//!
//! Cells are numbered left to right, top to bottom:
//!
//! ```text
//! 0 | 1 | 2
//! 3 | 4 | 5
//! 6 | 7 | 8
//! ```
//!
//! Each player's cells are kept as a 9-bit mask; bit `k` stands for cell `k`.
//! Contracts speak of the board as a sequence of nine cells, [`Board`].

use crate::bitboard::{
    cell_bit, completes_line, covers, lemma_and_commutes, lemma_empty_mask, lemma_free_in_both,
    lemma_full_mask, lemma_line_masks, lemma_masks_disjoint, lemma_place_bit,
    lemma_place_keeps_invariant, lemma_shifted_bits, lemma_union_confined, line_mask, masks_fit,
    occupies, single_cell, DRAW,
};
use crate::board::{line_cells, Board};
use crate::game::{GameResult, GameState, Player};
use vstd::prelude::*;

verus! {

/// The symbol drawn in a cell.
#[derive(Debug, Clone, Copy, PartialEq, Eq, Structural)]
pub enum Piece {
    X,
    O,
    Empty,
}

impl Piece {
    /// The symbol of the opposing side; an empty cell has no opposite.
    pub open spec fn opposite(self) -> Piece {
        match self {
            Piece::X => Piece::O,
            Piece::O => Piece::X,
            Piece::Empty => Piece::Empty,
        }
    }

    /// The character that stands for the piece in a rendered board.
    pub open spec fn glyph(self) -> char {
        match self {
            Piece::X => 'X',
            Piece::O => 'O',
            Piece::Empty => '_',
        }
    }

    /// Returns the symbol of the opposing side.
    pub fn other(&self) -> (r: Piece)
        ensures
            r == self.opposite(),
    {
        match *self {
            Piece::X => Piece::O,
            Piece::O => Piece::X,
            Piece::Empty => Piece::Empty,
        }
    }

    /// Returns the piece as text: its one character.
    pub fn as_str(&self) -> (text: &'static str)
        ensures
            text@ == seq![self.glyph()],
    {
        match *self {
            Piece::X => {
                proof {
                    reveal_strlit("X");
                    assert("X"@ =~= seq!['X']);
                }
                "X"
            },
            Piece::O => {
                proof {
                    reveal_strlit("O");
                    assert("O"@ =~= seq!['O']);
                }
                "O"
            },
            Piece::Empty => {
                proof {
                    reveal_strlit("_");
                    assert("_"@ =~= seq!['_']);
                }
                "_"
            },
        }
    }
}

impl Default for Piece {
    /// Player one plays `X` unless told otherwise.
    fn default() -> (r: Piece)
        ensures
            r == Piece::X,
    {
        Piece::X
    }
}

/// A move: the choice of one cell, kept as that cell's bit.
#[derive(Debug, Clone, Copy, PartialEq, Eq, Structural)]
pub struct Move(u16);

impl Move {
    /// The bit pattern of the move.
    pub closed spec fn bits(self) -> u16 {
        self.0
    }

    /// The move into cell `k`.
    pub closed spec fn of_cell(k: int) -> Move {
        Move(cell_bit(k))
    }

    /// A move is well formed when exactly one of the nine cell bits is set.
    pub open spec fn wf(self) -> bool {
        single_cell(self.bits())
    }

    /// The cell that the move occupies.
    pub open spec fn cell(self) -> int {
        choose|k: int| 0 <= k < 9 && cell_bit(k) == self.bits()
    }

    /// Returns the move into cell `cell`, or `None` when there is no such cell.
    pub fn at_cell(cell: usize) -> (r: Option<Move>)
        ensures
            r is Some <==> cell < 9,
            r matches Some(m) ==> m.wf() && m.cell() == cell,
    {
        if cell < 9 {
            let bit: u16 = 1u16 << cell;
            proof {
                lemma_shifted_bits();
                lemma_cell_of_bit(cell as int);
            }
            Some(Move(bit))
        } else {
            None
        }
    }

    /// Returns the number of the cell that the move occupies.
    pub fn index(&self) -> (k: usize)
        requires
            self.wf(),
        ensures
            k == self.cell(),
            k < 9,
    {
        let mut k: usize = 0;
        let mut bit: u16 = 1;
        proof {
            lemma_move_cell(*self);
        }
        while bit != self.0
            invariant
                self.wf(),
                0 <= k < 9,
                bit == cell_bit(k as int),
                0 <= self.cell() < 9,
                cell_bit(self.cell()) == self.0,
                forall|j: int| 0 <= j < k ==> cell_bit(j) != self.0,
            decreases 9 - k,
        {
            bit = bit * 2;
            k = k + 1;
        }
        proof {
            lemma_cell_of_bit(k as int);
        }
        k
    }
}

/// A cell's bit belongs to that cell and to no other.
pub proof fn lemma_cell_of_bit(k: int)
    requires
        0 <= k < 9,
    ensures
        single_cell(cell_bit(k)),
        forall|m: Move| m.bits() == cell_bit(k) ==> #[trigger] m.cell() == k,
        Move::of_cell(k).wf(),
        Move::of_cell(k).cell() == k,
{
    assert(Move::of_cell(k).bits() == cell_bit(k));
    let j = Move::of_cell(k).cell();
    assert(0 <= k < 9 && cell_bit(k) == Move::of_cell(k).bits());
    assert(0 <= j < 9 && cell_bit(j) == Move::of_cell(k).bits());
    assert forall|m: Move| m.bits() == cell_bit(k) implies #[trigger] m.cell() == k by {
        let j = m.cell();
        assert(0 <= k < 9 && cell_bit(k) == m.bits());
        assert(0 <= j < 9 && cell_bit(j) == m.bits());
    }
}

/// A well-formed move names a cell of the board, and the cell names the move.
pub proof fn lemma_move_cell(m: Move)
    requires
        m.wf(),
    ensures
        0 <= m.cell() < 9,
        cell_bit(m.cell()) == m.bits(),
{
    let b = m.bits();
    let k: int = if b == 1 {
        0
    } else if b == 2 {
        1
    } else if b == 4 {
        2
    } else if b == 8 {
        3
    } else if b == 16 {
        4
    } else if b == 32 {
        5
    } else if b == 64 {
        6
    } else if b == 128 {
        7
    } else {
        8
    };
    assert(0 <= k < 9 && cell_bit(k) == m.bits());
}

/// Two well-formed moves into the same cell are the same move.
pub proof fn lemma_move_by_cell(a: Move, b: Move)
    requires
        a.wf(),
        b.wf(),
        a.cell() == b.cell(),
    ensures
        a == b,
        a == Move::of_cell(a.cell()),
{
    lemma_move_cell(a);
    lemma_move_cell(b);
}

/// The state of the board. `player1` and `player2` hold the cells of each
/// player as bit masks; `to_move` says whose turn it is; `player1_piece` says
/// which symbol player one draws, which changes nothing in the rules.
#[derive(Debug, Clone, Copy, PartialEq, Eq, Structural)]
pub struct BoardState {
    player1: u16,
    player2: u16,
    to_move: Player,
    player1_piece: Piece,
}

impl View for BoardState {
    type V = Board;

    closed spec fn view(&self) -> Board {
        Board::of_masks(self.player1, self.player2, self.to_move, self.player1_piece)
    }
}

impl BoardState {
    /// The engine's invariant: no cell belongs to both players, and neither
    /// mask has a bit outside the nine cells.
    pub closed spec fn wf(self) -> bool {
        masks_fit(self.player1, self.player2)
    }

    /// The mask of `player`'s cells.
    pub closed spec fn position_of(self, player: Player) -> u16 {
        match player {
            Player::One => self.player1,
            Player::Two => self.player2,
        }
    }

    /// Whether `mov` may be applied: it is well formed and its cell is empty.
    pub open spec fn legal(self, mov: Move) -> bool {
        mov.wf() && self@.vacant(mov.cell())
    }

    /// The view of a state is a board of nine cells, and a cell belongs to a
    /// player exactly when it is set in that player's mask.
    pub proof fn lemma_view(self)
        requires
            self.wf(),
        ensures
            self@.wf(),
            forall|k: int, p: Player|
                0 <= k < 9 ==> #[trigger] self@.owns(p, k) == occupies(self.position_of(p), k),
    {
        assert forall|k: int, p: Player| 0 <= k < 9 implies #[trigger] self@.owns(p, k)
            == occupies(self.position_of(p), k) by {
            lemma_cell_of_bit(k);
            lemma_masks_disjoint(self.player1, self.player2, cell_bit(k));
        }
    }

    /// The empty board on which player one draws `piece`.
    pub closed spec fn empty(piece: Piece) -> BoardState {
        BoardState { player1: 0, player2: 0, to_move: Player::One, player1_piece: piece }
    }

    /// Returns the empty board, player one to move and drawing `X`.
    pub fn new() -> (s: BoardState)
        ensures
            s.wf(),
            s == BoardState::empty(Piece::X),
            s@ == Board::initial(Piece::X),
    {
        BoardState::pick_piece_new(Piece::X)
    }

    /// Returns the empty board, player one to move and drawing
    /// `player1_piece`.
    pub fn pick_piece_new(player1_piece: Piece) -> (s: BoardState)
        ensures
            s.wf(),
            s == BoardState::empty(player1_piece),
            s@ == Board::initial(player1_piece),
    {
        let s = BoardState { player1: 0, player2: 0, to_move: Player::One, player1_piece };
        proof {
            lemma_empty_mask();
            assert(s@.cells =~= Board::initial(player1_piece).cells);
        }
        s
    }

    /// Returns the state with the given cells for each player, for positions
    /// that are set up rather than played; `None` when a cell is claimed for
    /// both players or a bit lies outside the nine cells.
    pub fn from_masks(player1: u16, player2: u16, to_move: Player, player1_piece: Piece) -> (r:
        Option<BoardState>)
        ensures
            r is Some <==> masks_fit(player1, player2),
            r matches Some(s) ==> s.wf() && s@ == Board::of_masks(
                player1,
                player2,
                to_move,
                player1_piece,
            ),
    {
        if player1 & player2 == 0 && player1 & 0xFE00 == 0 && player2 & 0xFE00 == 0 {
            Some(BoardState { player1, player2, to_move, player1_piece })
        } else {
            None
        }
    }

    /// Returns the player to move.
    pub fn current_player(&self) -> (p: Player)
        ensures
            p == self@.to_move,
    {
        self.to_move
    }

    /// Returns the player who moved last.
    pub fn last_player(&self) -> (p: Player)
        ensures
            p == self@.last_mover(),
    {
        self.to_move.other_player()
    }

    /// Returns the mask of `player`'s cells.
    fn get_position(&self, player: &Player) -> (r: &u16)
        ensures
            *r == self.position_of(*player),
    {
        match *player {
            Player::One => &self.player1,
            Player::Two => &self.player2,
        }
    }

    /// Returns the mask of the cells of the player to move.
    fn current_player_position(&self) -> (r: &u16)
        ensures
            *r == self.position_of(self@.to_move),
    {
        self.get_position(&self.current_player())
    }

    /// Returns the mask of the cells of the player who moved last.
    fn last_player_position(&self) -> (r: &u16)
        ensures
            *r == self.position_of(self@.last_mover()),
    {
        self.get_position(&self.last_player())
    }

    /// Returns true if the cell of `move_candidate` is empty.
    pub fn move_is_legal(&self, move_candidate: &Move) -> (r: bool)
        requires
            self.wf(),
            move_candidate.wf(),
        ensures
            r == self@.vacant(move_candidate.cell()),
            r == self.legal(*move_candidate),
    {
        let filled_positions: u16 = self.player1 | self.player2;
        proof {
            lemma_move_cell(*move_candidate);
            lemma_free_in_both(self.player1, self.player2, move_candidate.0);
        }
        (move_candidate.0 & filled_positions) == 0
    }
}

impl BoardState {
    /// Returns the mask of `player`'s cells, to be written.
    fn get_position_mut(&mut self, player: &Player) -> (r: &mut u16)
        ensures
            *r == old(self).position_of(*player),
            final(self).position_of(*player) == *final(r),
            final(self).position_of(player.other()) == old(self).position_of(player.other()),
            final(self).to_move == old(self).to_move,
            final(self).player1_piece == old(self).player1_piece,
    {
        match *player {
            Player::One => &mut self.player1,
            Player::Two => &mut self.player2,
        }
    }

    /// Returns the mask of the cells of the player to move, to be written.
    fn current_player_position_mut(&mut self) -> (r: &mut u16)
        ensures
            *r == old(self).position_of(old(self).to_move),
            final(self).position_of(old(self).to_move) == *final(r),
            final(self).position_of(old(self).to_move.other()) == old(self).position_of(
                old(self).to_move.other(),
            ),
            final(self).to_move == old(self).to_move,
            final(self).player1_piece == old(self).player1_piece,
    {
        let player = self.current_player();
        self.get_position_mut(&player)
    }

    /// The state after the player to move has made `mov`.
    pub closed spec fn placed(self, mov: Move) -> BoardState {
        match self.to_move {
            Player::One => BoardState {
                player1: self.player1 | mov.0,
                player2: self.player2,
                to_move: Player::Two,
                player1_piece: self.player1_piece,
            },
            Player::Two => BoardState {
                player1: self.player1,
                player2: self.player2 | mov.0,
                to_move: Player::One,
                player1_piece: self.player1_piece,
            },
        }
    }

    /// A legal move keeps the engine's invariant, and on the board it gives
    /// the move's cell to the player to move and passes the turn.
    pub proof fn lemma_placed(self, mov: Move)
        requires
            self.wf(),
            self.legal(mov),
        ensures
            self.placed(mov).wf(),
            self.placed(mov)@ == self@.place(mov.cell()),
    {
        let before = self;
        let after = self.placed(mov);
        let mover = before.to_move;
        before.lemma_view();
        lemma_move_cell(mov);
        lemma_and_commutes(before.player1, before.player2);
        assert(before@.owns(Player::One, mov.cell()) == occupies(
            before.position_of(Player::One),
            mov.cell(),
        ));
        assert(before@.owns(Player::Two, mov.cell()) == occupies(
            before.position_of(Player::Two),
            mov.cell(),
        ));
        lemma_place_keeps_invariant(
            before.position_of(mover),
            before.position_of(mover.other()),
            mov.0,
        );
        lemma_and_commutes(after.player1, after.player2);
        after.lemma_view();
        assert forall|k: int| 0 <= k < 9 implies #[trigger] after@.cells[k] == before@.place(
            mov.cell(),
        ).cells[k] by {
            lemma_cell_of_bit(k);
            lemma_place_bit(before.position_of(mover), mov.0, cell_bit(k));
            assert(after@.owns(mover, k) == occupies(after.position_of(mover), k));
            assert(after@.owns(mover.other(), k) == occupies(after.position_of(mover.other()), k));
            assert(before@.owns(mover, k) == occupies(before.position_of(mover), k));
            assert(before@.owns(mover.other(), k) == occupies(
                before.position_of(mover.other()),
                k,
            ));
        }
        assert(after@.cells =~= before@.place(mov.cell()).cells);
    }

    /// Puts the move's cell into the mask of the player to move and passes
    /// the turn. Nothing is checked here: the caller has made sure that the
    /// move is legal, by `move_is_legal` or by taking it from `legal_moves`;
    /// `try_move` does the check itself.
    pub fn apply_move(&mut self, mov: &Move)
        requires
            old(self).wf(),
            old(self).legal(*mov),
        ensures
            final(self).wf(),
            final(self)@ == old(self)@.place(mov.cell()),
            *final(self) == old(self).placed(*mov),
    {
        let position = self.current_player_position_mut();
        *position = *position | mov.0;
        self.to_move.flip_player();
        proof {
            old(self).lemma_placed(*mov);
        }
    }

    /// Returns the state that `apply_move` would lead to, and leaves this one
    /// as it is.
    pub fn next_state(&self, mov: &Move) -> (s: BoardState)
        requires
            self.wf(),
            self.legal(*mov),
        ensures
            s.wf(),
            s@ == self@.place(mov.cell()),
            s == self.placed(*mov),
    {
        let mut board_clone = *self;
        board_clone.apply_move(mov);
        board_clone
    }

    /// Applies the move if it is legal and says whether it was. An illegal
    /// move leaves the state untouched.
    pub fn try_move(&mut self, move_candidate: &Move) -> (applied: bool)
        requires
            old(self).wf(),
            move_candidate.wf(),
        ensures
            final(self).wf(),
            applied == old(self).legal(*move_candidate),
            applied ==> final(self)@ == old(self)@.place(move_candidate.cell()),
            applied ==> *final(self) == old(self).placed(*move_candidate),
            !applied ==> *final(self) == *old(self),
    {
        if self.move_is_legal(move_candidate) {
            self.apply_move(move_candidate);
            true
        } else {
            false
        }
    }
}

impl BoardState {
    /// A mask covers winning line `i` exactly when its three cells are set.
    proof fn lemma_line(mask: u16, i: int)
        requires
            0 <= i < 8,
        ensures
            covers(mask, line_mask(i)) == (occupies(mask, line_cells(i).0) && occupies(
                mask,
                line_cells(i).1,
            ) && occupies(mask, line_cells(i).2)),
    {
        lemma_line_masks(mask);
    }

    /// A player owns a line on the board exactly when the player's mask
    /// covers one of the eight line masks.
    proof fn lemma_has_line(self, p: Player)
        requires
            self.wf(),
        ensures
            self@.has_line(p) == exists|i: int|
                0 <= i < 8 && covers(self.position_of(p), #[trigger] line_mask(i)),
    {
        self.lemma_view();
        let mask = self.position_of(p);
        assert forall|i: int| 0 <= i < 8 implies #[trigger] self@.owns_line(p, i) == covers(
            mask,
            line_mask(i),
        ) by {
            Self::lemma_line(mask, i);
            let (a, b, c) = line_cells(i);
            assert(self@.owns(p, a) == occupies(mask, a));
            assert(self@.owns(p, b) == occupies(mask, b));
            assert(self@.owns(p, c) == occupies(mask, c));
        }
        if self@.has_line(p) {
            let i = choose|i: int| 0 <= i < 8 && #[trigger] self@.owns_line(p, i);
            assert(covers(mask, line_mask(i)));
        }
        if exists|i: int| 0 <= i < 8 && covers(mask, #[trigger] line_mask(i)) {
            let i = choose|i: int| 0 <= i < 8 && covers(mask, #[trigger] line_mask(i));
            assert(self@.owns_line(p, i));
        }
    }

    /// Returns true if the player who moved last owns a winning line.
    pub fn last_player_is_winner(&self) -> (r: bool)
        requires
            self.wf(),
        ensures
            r == self@.has_line(self@.last_mover()),
    {
        proof {
            self.lemma_has_line(self@.last_mover());
        }
        completes_line(*self.last_player_position())
    }

    /// Returns true if the player to move owns a winning line. No sequence
    /// of legal moves leads to such a state, but one may be asked of a state
    /// that was set up otherwise.
    pub fn current_player_is_winner(&self) -> (r: bool)
        requires
            self.wf(),
        ensures
            r == self@.has_line(self@.to_move),
    {
        proof {
            self.lemma_has_line(self@.to_move);
        }
        completes_line(*self.current_player_position())
    }

    /// Returns true if `player` owns a winning line.
    pub fn is_winner(&self, player: &Player) -> (r: bool)
        requires
            self.wf(),
        ensures
            r == self@.has_line(*player),
    {
        proof {
            self.lemma_has_line(*player);
        }
        completes_line(*self.get_position(player))
    }

    /// Returns the winner, if there is one: the player who moved last if that
    /// player owns a line, else the player to move if that player does.
    pub fn get_winner(&self) -> (r: Option<Player>)
        requires
            self.wf(),
        ensures
            r == self@.winner(),
    {
        if self.last_player_is_winner() {
            Some(self.last_player())
        } else if self.current_player_is_winner() {
            Some(self.current_player())
        } else {
            None
        }
    }

    /// Returns true if the game is a draw: every cell is taken and nobody
    /// owns a winning line.
    pub fn is_draw(&self) -> (r: bool)
        requires
            self.wf(),
        ensures
            r == (self@.full() && self@.winner() is None),
            r == (self@.result() == GameResult::Draw),
    {
        proof {
            self.lemma_view();
            lemma_full_mask(self.player1, self.player2);
            if self@.full() {
                assert forall|k: int| 0 <= k < 9 implies occupies(self.player1, k) || occupies(
                    self.player2,
                    k,
                ) by {
                    assert(self@.cells[k] is Some);
                    assert(self@.owns(Player::One, k) || self@.owns(Player::Two, k));
                    assert(self@.owns(Player::One, k) == occupies(
                        self.position_of(Player::One),
                        k,
                    ));
                    assert(self@.owns(Player::Two, k) == occupies(
                        self.position_of(Player::Two),
                        k,
                    ));
                }
                assert(occupies(self.player1, 0) || occupies(self.player2, 0));
                assert(occupies(self.player1, 1) || occupies(self.player2, 1));
                assert(occupies(self.player1, 2) || occupies(self.player2, 2));
                assert(occupies(self.player1, 3) || occupies(self.player2, 3));
                assert(occupies(self.player1, 4) || occupies(self.player2, 4));
                assert(occupies(self.player1, 5) || occupies(self.player2, 5));
                assert(occupies(self.player1, 6) || occupies(self.player2, 6));
                assert(occupies(self.player1, 7) || occupies(self.player2, 7));
                assert(occupies(self.player1, 8) || occupies(self.player2, 8));
            }
        }
        (self.player1 | self.player2) & DRAW == DRAW && self.get_winner().is_none()
    }

    /// Returns the outcome of the game as the state shows it.
    pub fn game_result(&self) -> (r: GameResult)
        requires
            self.wf(),
        ensures
            r == self@.result(),
    {
        if let Some(winner) = self.get_winner() {
            GameResult::Win(winner)
        } else if self.is_draw() {
            GameResult::Draw
        } else {
            GameResult::Undetermined
        }
    }
}

impl BoardState {
    /// Returns the moves that the player to move may make, by rising cell:
    /// one for each empty cell while the game is running, none once it is
    /// over.
    pub fn legal_moves(&self) -> (moves: Vec<Move>)
        requires
            self.wf(),
        ensures
            moves@.len() == self@.open_cells().len(),
            forall|i: int|
                0 <= i < moves@.len() ==> (#[trigger] moves@[i]).wf() && moves@[i].cell()
                    == self@.open_cells()[i],
            self@.result().determined() ==> moves@.len() == 0,
    {
        let mut moves: Vec<Move> = Vec::new();
        if self.game_result().is_determined() {
            return moves;
        }
        let mut k: usize = 0;
        proof {
            self@.lemma_vacant_step(0);
        }
        while k < 9
            invariant
                self.wf(),
                0 <= k <= 9,
                moves@.len() == self@.vacant_below(k as nat).len(),
                forall|i: int|
                    0 <= i < moves@.len() ==> (#[trigger] moves@[i]).wf() && moves@[i].cell()
                        == self@.vacant_below(k as nat)[i],
            decreases 9 - k,
        {
            proof {
                self@.lemma_vacant_step(k as nat);
            }
            match Move::at_cell(k) {
                Some(candidate) => {
                    if self.move_is_legal(&candidate) {
                        moves.push(candidate);
                    }
                },
                None => {},
            }
            k = k + 1;
        }
        moves
    }
}

impl GameState for BoardState {
    type Move = Move;

    open spec fn start() -> BoardState {
        BoardState::empty(Piece::X)
    }

    open spec fn valid(&self) -> bool {
        self.wf()
    }

    open spec fn can_apply(&self, mov: Move) -> bool {
        self.legal(mov)
    }

    open spec fn after(&self, mov: Move) -> BoardState {
        self.placed(mov)
    }

    open spec fn outcome(&self) -> GameResult {
        self@.result()
    }

    open spec fn mover(&self) -> Player {
        self@.to_move
    }

    open spec fn permitted(&self) -> Seq<Move> {
        self@.open_cells().map_values(|k: int| Move::of_cell(k))
    }

    open spec fn plies_left(&self) -> nat {
        self@.vacant_cells().len()
    }

    fn new() -> (s: BoardState)
        ensures
            s@ == Board::initial(Piece::X),
    {
        BoardState::new()
    }

    fn legal_moves(&self) -> (moves: Vec<Move>) {
        let moves = BoardState::legal_moves(self);
        proof {
            self.lemma_view();
            self@.lemma_vacant_below(9);
            assert forall|i: int| 0 <= i < moves@.len() implies #[trigger] moves@[i]
                == self.permitted()[i] && self.can_apply(moves@[i]) by {
                lemma_move_by_cell(moves@[i], moves@[i]);
            }
            assert(moves@ =~= self.permitted());
            if self.outcome().determined() {
                assert(self@.open_cells() =~= Seq::<int>::empty());
            }
        }
        moves
    }

    fn apply_move(&mut self, mov: &Move)
        ensures
            final(self)@ == old(self)@.place(mov.cell()),
    {
        proof {
            self.lemma_view();
            lemma_move_cell(*mov);
            self@.lemma_place_vacancies(mov.cell(), 9);
        }
        BoardState::apply_move(self, mov)
    }

    fn next_state(&self, mov: &Move) -> (s: BoardState)
        ensures
            s@ == self@.place(mov.cell()),
    {
        let s = BoardState::next_state(self, mov);
        proof {
            self.lemma_view();
            lemma_move_cell(*mov);
            self@.lemma_place_vacancies(mov.cell(), 9);
            assert(s.plies_left() == s@.vacant_cells().len());
        }
        s
    }

    fn game_result(&self) -> (r: GameResult) {
        BoardState::game_result(self)
    }

    fn current_player(&self) -> (p: Player) {
        BoardState::current_player(self)
    }
}

impl Default for BoardState {
    /// The empty board, as `new` returns it.
    fn default() -> (s: BoardState)
        ensures
            s.wf(),
            s == BoardState::empty(Piece::X),
            s@ == Board::initial(Piece::X),
    {
        BoardState::new()
    }
}

/// Moves into two different empty cells can be made in either order: both
/// orders are legal, fill the same cells, leave every other cell as it was
/// and leave the same player to move. The first of the two cells goes to the
/// player to move, the second to the opponent.
pub proof fn lemma_moves_commute(s: BoardState, a: Move, b: Move)
    requires
        s.wf(),
        s.legal(a),
        s.legal(b),
        a != b,
    ensures
        s.placed(a).legal(b),
        s.placed(b).legal(a),
        s.placed(a).placed(b).wf(),
        s.placed(b).placed(a).wf(),
        s.placed(a).placed(b)@.occupancy() == s.placed(b).placed(a)@.occupancy(),
        s.placed(a).placed(b)@.occupancy() == s@.occupancy().insert(a.cell()).insert(b.cell()),
        s.placed(a).placed(b)@.to_move == s@.to_move,
        s.placed(b).placed(a)@.to_move == s@.to_move,
        s.placed(a).placed(b)@.player1_piece == s.placed(b).placed(a)@.player1_piece,
        s.placed(a).placed(b)@.cells[a.cell()] == Some(s@.to_move),
        s.placed(a).placed(b)@.cells[b.cell()] == Some(s@.to_move.other()),
        forall|k: int|
            0 <= k < 9 && k != a.cell() && k != b.cell() ==> s.placed(a).placed(
                b,
            )@.cells[k] == #[trigger] s@.cells[k] && s.placed(b).placed(a)@.cells[k]
                == s@.cells[k],
{
    s.lemma_view();
    lemma_move_cell(a);
    lemma_move_cell(b);
    if a.cell() == b.cell() {
        lemma_move_by_cell(a, b);
    }
    s.lemma_placed(a);
    s.lemma_placed(b);
    s.placed(a).lemma_placed(b);
    s.placed(b).lemma_placed(a);
    assert(s.placed(a).placed(b)@.occupancy() =~= s.placed(b).placed(a)@.occupancy());
    assert(s.placed(a).placed(b)@.occupancy() =~= s@.occupancy().insert(a.cell()).insert(
        b.cell(),
    ));
}

/// A move fills one cell for good: after it, that move is illegal, every
/// other move is legal exactly when it was before, and the list of empty
/// cells is the old one without the move's cell, one shorter.
pub proof fn lemma_legality_shrinks(s: BoardState, mov: Move)
    requires
        s.wf(),
        s.legal(mov),
    ensures
        !s.placed(mov).legal(mov),
        forall|other: Move|
            #[trigger] s.placed(mov).legal(other) <==> s.legal(other) && other != mov,
        s.placed(mov)@.vacant_cells() == s@.vacant_cells().filter(|k: int| k != mov.cell()),
        s.placed(mov)@.vacant_cells().len() == s@.vacant_cells().len() - 1,
{
    s.lemma_view();
    lemma_move_cell(mov);
    s.lemma_placed(mov);
    s@.lemma_place_vacancies(mov.cell(), 9);
    assert forall|other: Move| #[trigger]
        s.placed(mov).legal(other) <==> s.legal(other) && other != mov by {
        if other.wf() {
            lemma_move_cell(other);
            if other.cell() == mov.cell() {
                lemma_move_by_cell(other, mov);
            }
        }
    }
}

/// A game that is over stays over: whatever is placed on the board after a
/// win or a draw, the state still shows an outcome.
pub proof fn lemma_outcome_is_final(s: BoardState, mov: Move)
    requires
        s.wf(),
        s.legal(mov),
        s@.result().determined(),
    ensures
        s.placed(mov)@.result().determined(),
{
    s.lemma_view();
    lemma_move_cell(mov);
    s.lemma_placed(mov);
    let before = s@;
    let after = s.placed(mov)@;
    assert(!before.full());
    let p = before.winner().unwrap();
    let i = choose|i: int| 0 <= i < 8 && #[trigger] before.owns_line(p, i);
    assert(after.owns_line(p, i));
    assert(after.has_line(p));
}

/// While the game goes on after a move, the list of moves to choose from is
/// the old one without that move.
pub proof fn lemma_choice_shrinks(s: BoardState, mov: Move)
    requires
        s.wf(),
        s.legal(mov),
        !s.placed(mov)@.result().determined(),
    ensures
        !s@.result().determined(),
        s.placed(mov)@.open_cells() == s@.open_cells().filter(|k: int| k != mov.cell()),
        s.placed(mov)@.open_cells().len() == s@.open_cells().len() - 1,
{
    if s@.result().determined() {
        lemma_outcome_is_final(s, mov);
    }
    lemma_legality_shrinks(s, mov);
}

/// A player who owns a winning line, while the opponent owns none, has won,
/// whoever is to move.
pub proof fn lemma_line_wins(s: BoardState, p: Player, i: int)
    requires
        s.wf(),
        0 <= i < 8,
        s@.owns_line(p, i),
        !s@.has_line(p.other()),
    ensures
        s@.has_line(p),
        s@.winner() == Some(p),
        s@.result() == GameResult::Win(p),
{
}

/// A full board on which neither player owns a winning line is a draw.
pub proof fn lemma_full_board_is_draw(s: BoardState)
    requires
        s.wf(),
        s@.full(),
        !s@.has_line(Player::One),
        !s@.has_line(Player::Two),
    ensures
        s@.result() == GameResult::Draw,
{
}

/// Once the game is over nothing is left to choose from.
pub proof fn lemma_terminal_has_no_moves(s: BoardState)
    requires
        s.wf(),
        s@.result().determined(),
    ensures
        s@.open_cells().len() == 0,
        s.permitted().len() == 0,
{
}

impl BoardState {
    /// Returns the symbol drawn in cell `cell`: player one's piece, its
    /// opposite for player two, `Empty` for an empty cell.
    pub fn piece_at(&self, cell: usize) -> (piece: Piece)
        requires
            self.wf(),
            cell < 9,
        ensures
            piece == self@.piece_at(cell as int),
    {
        let bit: u16 = 1u16 << cell;
        proof {
            lemma_shifted_bits();
            self.lemma_view();
            assert(self@.owns(Player::One, cell as int) == occupies(
                self.position_of(Player::One),
                cell as int,
            ));
            assert(self@.owns(Player::Two, cell as int) == occupies(
                self.position_of(Player::Two),
                cell as int,
            ));
        }
        if self.player1 & bit != 0 {
            self.player1_piece
        } else if self.player2 & bit != 0 {
            self.player1_piece.other()
        } else {
            Piece::Empty
        }
    }

    /// Returns the mask of all cells that are taken, whoever owns them.
    pub fn occupancy(&self) -> (mask: u16)
        requires
            self.wf(),
        ensures
            mask & 0xFE00 == 0,
            forall|k: int|
                0 <= k < 9 ==> #[trigger] occupies(mask, k) == self@.occupancy().contains(k),
    {
        let mask: u16 = self.player1 | self.player2;
        proof {
            self.lemma_view();
            lemma_union_confined(self.player1, self.player2);
            assert forall|k: int| 0 <= k < 9 implies #[trigger] occupies(mask, k)
                == self@.occupancy().contains(k) by {
                lemma_cell_of_bit(k);
                lemma_free_in_both(self.player1, self.player2, cell_bit(k));
                lemma_and_commutes(cell_bit(k), mask);
                assert(self@.owns(Player::One, k) == occupies(self.position_of(Player::One), k));
                assert(self@.owns(Player::Two, k) == occupies(self.position_of(Player::Two), k));
                assert(self@.owns(Player::One, k) || self@.owns(Player::Two, k)
                    || self@.cells[k] is None);
            }
        }
        mask
    }

    /// Returns row `row` of the board as text, such as `X|_|O` with a line
    /// break after it.
    pub fn display_row(&self, row: usize) -> (text: String)
        requires
            self.wf(),
            row < 3,
        ensures
            text@ == self@.row_text(row as int),
    {
        let row_offset: usize = row * 3;
        let mut text = String::from_str(self.piece_at(row_offset).as_str());
        text.append("|");
        text.append(self.piece_at(row_offset + 1).as_str());
        text.append("|");
        text.append(self.piece_at(row_offset + 2).as_str());
        text.append("\n");
        proof {
            reveal_strlit("|");
            reveal_strlit("\n");
            assert("|"@ =~= seq!['|']);
            assert("\n"@ =~= seq!['\n']);
            assert(text@ =~= self@.row_text(row as int));
        }
        text
    }

    /// Returns the board as text: three lines of three symbols each, with
    /// bars between the symbols.
    pub fn render(&self) -> (text: String)
        requires
            self.wf(),
        ensures
            text@ == self@.text(),
    {
        let mut text = self.display_row(0);
        let middle = self.display_row(1);
        let bottom = self.display_row(2);
        text.append(middle.as_str());
        text.append(bottom.as_str());
        text
    }
}

} // verus!
