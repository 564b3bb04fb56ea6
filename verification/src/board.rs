//! The board as the contracts see it: nine cells in a row, each empty or
//! owned by a player. The rules of the game are stated here once, apart from
//! the bit masks that the engine computes with.

use crate::bitboard::occupies;
use crate::game::{GameResult, Player};
use crate::tic_tac_toe::Piece;
use vstd::prelude::*;

verus! {

/// The three cells of winning line `i`: the rows, the columns, then the two
/// diagonals.
pub open spec fn line_cells(i: int) -> (int, int, int) {
    if i == 0 {
        (0, 1, 2)
    } else if i == 1 {
        (3, 4, 5)
    } else if i == 2 {
        (6, 7, 8)
    } else if i == 3 {
        (0, 3, 6)
    } else if i == 4 {
        (1, 4, 7)
    } else if i == 5 {
        (2, 5, 8)
    } else if i == 6 {
        (0, 4, 8)
    } else {
        (2, 4, 6)
    }
}

/// The board as the contracts see it: nine cells, each empty or owned by a
/// player, the side to move, and the symbol that player one draws.
pub struct Board {
    pub cells: Seq<Option<Player>>,
    pub to_move: Player,
    pub player1_piece: Piece,
}

impl Board {
    /// A board has exactly nine cells.
    pub open spec fn wf(self) -> bool {
        self.cells.len() == 9
    }

    /// The board that two masks stand for: cell `k` belongs to the player
    /// in whose mask it is set.
    pub open spec fn of_masks(player1: u16, player2: u16, to_move: Player, piece: Piece) -> Board {
        Board {
            cells: Seq::new(
                9,
                |k: int|
                    if occupies(player1, k) {
                        Some(Player::One)
                    } else if occupies(player2, k) {
                        Some(Player::Two)
                    } else {
                        None
                    },
            ),
            to_move,
            player1_piece: piece,
        }
    }

    /// The empty board with player one to move.
    pub open spec fn initial(piece: Piece) -> Board {
        Board { cells: Seq::new(9, |k: int| None), to_move: Player::One, player1_piece: piece }
    }

    /// Whether cell `k` is on the board and empty.
    pub open spec fn vacant(self, k: int) -> bool {
        0 <= k < 9 && self.cells[k] is None
    }

    /// Whether cell `k` belongs to `p`.
    pub open spec fn owns(self, p: Player, k: int) -> bool {
        self.cells[k] == Some(p)
    }

    /// Whether `p` owns all three cells of winning line `i`.
    pub open spec fn owns_line(self, p: Player, i: int) -> bool {
        let (a, b, c) = line_cells(i);
        self.owns(p, a) && self.owns(p, b) && self.owns(p, c)
    }

    /// Whether `p` owns one of the eight winning lines.
    pub open spec fn has_line(self, p: Player) -> bool {
        exists|i: int| 0 <= i < 8 && #[trigger] self.owns_line(p, i)
    }

    /// Whether no cell is empty.
    pub open spec fn full(self) -> bool {
        forall|k: int| 0 <= k < 9 ==> #[trigger] self.cells[k] is Some
    }

    /// The player who moved last.
    pub open spec fn last_mover(self) -> Player {
        self.to_move.other()
    }

    /// The winner, if there is one. The player who moved last is asked first,
    /// as only that player can have just completed a line; the player to move
    /// is asked next, so that a board that was set up by hand is answered too.
    pub open spec fn winner(self) -> Option<Player> {
        if self.has_line(self.last_mover()) {
            Some(self.last_mover())
        } else if self.has_line(self.to_move) {
            Some(self.to_move)
        } else {
            None
        }
    }

    /// The outcome: a win for the winner, else a draw on a full board, else
    /// undetermined.
    pub open spec fn result(self) -> GameResult {
        match self.winner() {
            Some(p) => GameResult::Win(p),
            None => if self.full() {
                GameResult::Draw
            } else {
                GameResult::Undetermined
            },
        }
    }

    /// The board after the player to move has taken cell `k`.
    pub open spec fn place(self, k: int) -> Board {
        Board {
            cells: self.cells.update(k, Some(self.to_move)),
            to_move: self.to_move.other(),
            player1_piece: self.player1_piece,
        }
    }

    /// The empty cells among the first `n`, in rising order.
    pub open spec fn vacant_below(self, n: nat) -> Seq<int> {
        Seq::new(n, |k: int| k).filter(|k: int| self.cells[k] is None)
    }

    /// The empty cells, in rising order.
    pub open spec fn vacant_cells(self) -> Seq<int> {
        self.vacant_below(9)
    }

    /// The empty cells among the first `n + 1` are those among the first
    /// `n`, followed by cell `n` if it is empty.
    pub proof fn lemma_vacant_step(self, n: nat)
        ensures
            self.vacant_below(0) == Seq::<int>::empty(),
            self.vacant_below(n + 1) == if self.cells[n as int] is None {
                self.vacant_below(n).push(n as int)
            } else {
                self.vacant_below(n)
            },
    {
        reveal(Seq::filter);
        let longer = Seq::new(n + 1, |k: int| k);
        assert(longer.drop_last() =~= Seq::new(n, |k: int| k));
        assert(longer.last() == n);
    }

    /// The list of empty cells holds exactly the empty cells among the first
    /// `n`, each once and in rising order.
    pub proof fn lemma_vacant_below(self, n: nat)
        ensures
            self.vacant_below(n).len() <= n,
            forall|i: int|
                0 <= i < self.vacant_below(n).len() ==> 0 <= #[trigger] self.vacant_below(n)[i] < n
                    && self.cells[self.vacant_below(n)[i]] is None,
            forall|i: int, j: int|
                0 <= i < j < self.vacant_below(n).len() ==> self.vacant_below(n)[i]
                    < self.vacant_below(n)[j],
            forall|k: int|
                0 <= k < n && self.cells[k] is None ==> #[trigger] self.vacant_below(n).contains(
                    k,
                ),
        decreases n,
    {
        if n == 0 {
            self.lemma_vacant_step(0);
        } else {
            let m = (n - 1) as nat;
            self.lemma_vacant_below(m);
            self.lemma_vacant_step(m);
            let shorter = self.vacant_below(m);
            let longer = self.vacant_below(n);
            assert forall|k: int| 0 <= k < n && self.cells[k] is None implies #[trigger] longer.contains(
                k,
            ) by {
                if k < m {
                    assert(shorter.contains(k));
                    let i = choose|i: int| 0 <= i < shorter.len() && shorter[i] == k;
                    assert(longer[i] == k);
                } else {
                    assert(longer[longer.len() - 1] == k);
                }
            }
        }
    }

    /// Taking an empty cell removes that cell from the list of empty cells
    /// and leaves the others as they were, in their order.
    pub proof fn lemma_place_vacancies(self, c: int, n: nat)
        requires
            self.wf(),
            self.vacant(c),
            n <= 9,
        ensures
            self.place(c).vacant_below(n) == self.vacant_below(n).filter(|k: int| k != c),
            self.place(c).vacant_below(n).len() == self.vacant_below(n).len() - if c < n {
                1int
            } else {
                0int
            },
        decreases n,
    {
        reveal(Seq::filter);
        let others = |k: int| k != c;
        if n == 0 {
            self.lemma_vacant_step(0);
            self.place(c).lemma_vacant_step(0);
        } else {
            let m = (n - 1) as nat;
            self.lemma_place_vacancies(c, m);
            self.lemma_vacant_step(m);
            self.place(c).lemma_vacant_step(m);
            let shorter = self.vacant_below(m);
            if self.cells[m as int] is None {
                assert(shorter.push(m as int).drop_last() =~= shorter);
                assert(shorter.push(m as int).last() == m);
            }
        }
    }

    /// The board after the cells of `ks` have been taken one after the other,
    /// the players taking turns.
    pub open spec fn place_all(self, ks: Seq<int>) -> Board
        decreases ks.len(),
    {
        if ks.len() == 0 {
            self
        } else {
            self.place(ks[0]).place_all(ks.drop_first())
        }
    }

    /// Whether the cells of `ks` can be taken one after the other: each is
    /// empty when its turn comes.
    pub open spec fn playable(self, ks: Seq<int>) -> bool
        decreases ks.len(),
    {
        ks.len() == 0 || (self.vacant(ks[0]) && self.place(ks[0]).playable(ks.drop_first()))
    }

    /// A cell that is taken stays taken, and stays with its owner, for the
    /// rest of the game: no run of legal moves takes it again, and after any
    /// such run a move into it is still illegal.
    pub proof fn lemma_taken_stays_taken(self, ks: Seq<int>, k: int)
        requires
            self.wf(),
            0 <= k < 9,
            self.cells[k] is Some,
            self.playable(ks),
        ensures
            self.place_all(ks).wf(),
            self.place_all(ks).cells[k] == self.cells[k],
            !self.place_all(ks).vacant(k),
            !ks.contains(k),
        decreases ks.len(),
    {
        if ks.len() > 0 {
            let rest = ks.drop_first();
            self.place(ks[0]).lemma_taken_stays_taken(rest, k);
            if ks.contains(k) {
                let i = choose|i: int| 0 <= i < ks.len() && ks[i] == k;
                if i > 0 {
                    assert(rest[i - 1] == k);
                }
            }
        }
    }

    /// The cells that the player to move may take: the empty cells while the
    /// game is running, none once it is over.
    pub open spec fn open_cells(self) -> Seq<int> {
        if self.result().determined() {
            Seq::empty()
        } else {
            self.vacant_cells()
        }
    }

    /// The set of all cells that are taken, whoever owns them.
    pub open spec fn occupancy(self) -> Set<int> {
        Set::new(|k: int| 0 <= k < 9 && self.cells[k] is Some)
    }

    /// The symbol drawn in cell `k`.
    pub open spec fn piece_at(self, k: int) -> Piece {
        match self.cells[k] {
            Some(Player::One) => self.player1_piece,
            Some(Player::Two) => self.player1_piece.opposite(),
            None => Piece::Empty,
        }
    }

    /// Row `row` as text: its three symbols with a bar between them, and a
    /// line break at the end.
    pub open spec fn row_text(self, row: int) -> Seq<char> {
        seq![
            self.piece_at(3 * row).glyph(),
            '|',
            self.piece_at(3 * row + 1).glyph(),
            '|',
            self.piece_at(3 * row + 2).glyph(),
            '\n',
        ]
    }

    /// The board as text: its three rows from the top.
    pub open spec fn text(self) -> Seq<char> {
        self.row_text(0) + self.row_text(1) + self.row_text(2)
    }
}

} // verus!
