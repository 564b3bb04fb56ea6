//! Nine-bit masks: one bit for each cell of the board, and the facts about
//! them that the rules engine rests on.

use vstd::prelude::*;

verus! {

/// The mask with only the bit of cell `k` set; zero outside the board.
pub open spec fn cell_bit(k: int) -> u16 {
    if k == 0 {
        1
    } else if k == 1 {
        2
    } else if k == 2 {
        4
    } else if k == 3 {
        8
    } else if k == 4 {
        16
    } else if k == 5 {
        32
    } else if k == 6 {
        64
    } else if k == 7 {
        128
    } else if k == 8 {
        256
    } else {
        0
    }
}

/// Whether `b` is the bit of one of the nine cells.
pub open spec fn single_cell(b: u16) -> bool {
    b == 1 || b == 2 || b == 4 || b == 8 || b == 16 || b == 32 || b == 64 || b == 128 || b == 256
}

/// Whether cell `k` is set in `mask`.
pub open spec fn occupies(mask: u16, k: int) -> bool {
    mask & cell_bit(k) != 0
}

/// The mask of winning line `i`.
pub open spec fn line_mask(i: int) -> u16 {
    if i == 0 {
        0x007
    } else if i == 1 {
        0x038
    } else if i == 2 {
        0x1C0
    } else if i == 3 {
        0x049
    } else if i == 4 {
        0x092
    } else if i == 5 {
        0x124
    } else if i == 6 {
        0x111
    } else {
        0x054
    }
}

/// Whether `mask` holds every cell of `line`.
pub open spec fn covers(mask: u16, line: u16) -> bool {
    mask & line == line
}

/// The eight winning lines: the rows from the top, the columns from the
/// left, the diagonal from the upper left, the diagonal from the upper right.
pub const WINNING_POSITIONS: [u16; 8] = [0x007, 0x038, 0x1C0, 0x049, 0x092, 0x124, 0x111, 0x054];

/// All nine cells: a board whose two masks cover them is full.
pub const DRAW: u16 = 0x1FF;

/// Whether two masks can be the two players' cells: no cell is set in both,
/// and no bit is set outside the nine cells.
pub open spec fn masks_fit(player1: u16, player2: u16) -> bool {
    &&& player1 & player2 == 0
    &&& player1 & 0xFE00 == 0
    &&& player2 & 0xFE00 == 0
}

/// Returns true if `position` holds all three cells of a winning line.
pub(crate) fn completes_line(position: u16) -> (r: bool)
    ensures
        r == exists|i: int| 0 <= i < 8 && covers(position, #[trigger] line_mask(i)),
{
    let mut i: usize = 0;
    while i < 8
        invariant
            0 <= i <= 8,
            forall|j: int| 0 <= j < i ==> !covers(position, #[trigger] line_mask(j)),
        decreases 8 - i,
    {
        let pos: u16 = WINNING_POSITIONS[i];
        proof {
            assert(pos == line_mask(i as int));
            lemma_and_commutes(pos, position);
        }
        if (pos & position) == pos {
            return true;
        }
        i = i + 1;
    }
    false
}

/// The bits of the nine cells, as shifts of one.
pub(crate) proof fn lemma_shifted_bits()
    by (bit_vector)
    ensures
        1u16 << 0usize == 1,
        1u16 << 1usize == 2,
        1u16 << 2usize == 4,
        1u16 << 3usize == 8,
        1u16 << 4usize == 16,
        1u16 << 5usize == 32,
        1u16 << 6usize == 64,
        1u16 << 7usize == 128,
        1u16 << 8usize == 256,
{
}

/// The union of two masks within the nine cells is within the nine cells.
pub(crate) proof fn lemma_union_confined(first: u16, second: u16)
    by (bit_vector)
    requires
        first & 0xFE00 == 0,
        second & 0xFE00 == 0,
    ensures
        (first | second) & 0xFE00 == 0,
{
}

/// Each line mask is covered exactly when its three cells are set.
pub(crate) proof fn lemma_line_masks(p: u16)
    by (bit_vector)
    ensures
        (p & 0x007 == 0x007) == (p & 1 != 0 && p & 2 != 0 && p & 4 != 0),
        (p & 0x038 == 0x038) == (p & 8 != 0 && p & 16 != 0 && p & 32 != 0),
        (p & 0x1C0 == 0x1C0) == (p & 64 != 0 && p & 128 != 0 && p & 256 != 0),
        (p & 0x049 == 0x049) == (p & 1 != 0 && p & 8 != 0 && p & 64 != 0),
        (p & 0x092 == 0x092) == (p & 2 != 0 && p & 16 != 0 && p & 128 != 0),
        (p & 0x124 == 0x124) == (p & 4 != 0 && p & 32 != 0 && p & 256 != 0),
        (p & 0x111 == 0x111) == (p & 1 != 0 && p & 16 != 0 && p & 256 != 0),
        (p & 0x054 == 0x054) == (p & 4 != 0 && p & 16 != 0 && p & 64 != 0),
{
}

/// The two masks cover all nine cells exactly when each cell is set in one
/// of them.
pub(crate) proof fn lemma_full_mask(first: u16, second: u16)
    by (bit_vector)
    ensures
        ((first | second) & 0x1FF == 0x1FF) == {
            &&& (first & 1 != 0 || second & 1 != 0)
            &&& (first & 2 != 0 || second & 2 != 0)
            &&& (first & 4 != 0 || second & 4 != 0)
            &&& (first & 8 != 0 || second & 8 != 0)
            &&& (first & 16 != 0 || second & 16 != 0)
            &&& (first & 32 != 0 || second & 32 != 0)
            &&& (first & 64 != 0 || second & 64 != 0)
            &&& (first & 128 != 0 || second & 128 != 0)
            &&& (first & 256 != 0 || second & 256 != 0)
        },
{
}

/// The order of the two masks does not matter to their intersection.
pub(crate) proof fn lemma_and_commutes(a: u16, b: u16)
    by (bit_vector)
    ensures
        a & b == b & a,
{
}

/// Setting the bit of one cell sets that cell and no other.
pub(crate) proof fn lemma_place_bit(p: u16, b: u16, c: u16)
    by (bit_vector)
    requires
        single_cell(b),
        single_cell(c),
    ensures
        ((p | b) & c != 0) == (p & c != 0 || b == c),
{
}

/// Setting an empty cell in one mask keeps the two masks disjoint and within
/// the nine cells.
pub(crate) proof fn lemma_place_keeps_invariant(mine: u16, theirs: u16, b: u16)
    by (bit_vector)
    requires
        mine & theirs == 0,
        mine & 0xFE00 == 0,
        single_cell(b),
        theirs & b == 0,
    ensures
        (mine | b) & theirs == 0,
        (mine | b) & 0xFE00 == 0,
{
}

/// No cell is set in the empty mask.
pub(crate) proof fn lemma_empty_mask()
    by (bit_vector)
    ensures
        forall|b: u16| 0u16 & b == 0,
        0u16 & 0u16 == 0,
        0u16 & 0xFE00u16 == 0,
{
}

/// Two disjoint masks never hold the same cell.
pub(crate) proof fn lemma_masks_disjoint(first: u16, second: u16, b: u16)
    by (bit_vector)
    requires
        first & second == 0,
        single_cell(b),
    ensures
        !(first & b != 0 && second & b != 0),
{
}

/// A cell is clear in the union of two masks exactly when it is clear in
/// both.
pub(crate) proof fn lemma_free_in_both(first: u16, second: u16, b: u16)
    by (bit_vector)
    ensures
        (b & (first | second) == 0) == (first & b == 0 && second & b == 0),
{
}

} // verus!
