//! A position of Connect Four.

use vstd::prelude::*;
use vstd::string::StringExecFns;

use super::constants::{
    ABOVE_TOP_ROW, ALL_LOCATIONS, BOARD_BITS, BOARD_HEIGHT, BOTTOM_ROW, CELLS, COLUMN_BITS,
    FIRST_COLUMN,
};
use super::util::count_ones;
use crate::engine::simulator::State;

verus! {

/// A position: for each player the cells that hold a piece of that player,
/// as the bits of one word.
#[derive(Clone, Copy, Debug, Hash, PartialEq, Eq)]
pub struct Connect4State {
    pub bit_board: [u64; 2],
}

/// The number of the bit that stands for the cell in column `col` and row
/// `row`, rows counted from the bottom.
pub open spec fn cell_index(col: int, row: int) -> int {
    7 * col + row
}

/// Whether column `col` and row `row` name a cell of the board.
pub open spec fn is_cell(col: int, row: int) -> bool {
    0 <= col < 7 && 0 <= row < 6
}

/// Whether `board` has a piece in the cell in column `col` and row `row`.
pub open spec fn stone(board: u64, col: int, row: int) -> bool {
    is_cell(col, row) && super::util::bit_set(board, cell_index(col, row))
}

/// Whether `board` has no bit outside the cells of the board.
pub open spec fn only_cells(board: u64) -> bool {
    board & !CELLS == 0
}

/// The bits of the cell mask are the cells: the 49 lowest bits but every
/// seventh, which is a guard.
pub proof fn lemma_cells(index: int)
    ensures
        super::util::bit_set(CELLS, index) <==> 0 <= index < 49 && index % 7 != 6,
        super::util::bit_set(ABOVE_TOP_ROW, index) <==> 0 <= index < 49 && index % 7 == 6,
        super::util::bit_set(BOTTOM_ROW, index) <==> 0 <= index < 49 && index % 7 == 0,
        super::util::bit_set(ALL_LOCATIONS, index) <==> 0 <= index < 49,
        super::util::bit_set(FIRST_COLUMN, index) <==> 0 <= index < 7,
{
    if 0 <= index < 64 {
        let i = index as u64;
        assert(((0xfdfb_f7ef_dfbfu64 >> i) & 1 == 1) == (i < 49 && i % 7 != 6)) by (bit_vector)
            requires
                i < 64,
        ;
        assert(((0x1_0204_0810_2040u64 >> i) & 1 == 1) == (i < 49 && i % 7 == 6)) by (bit_vector)
            requires
                i < 64,
        ;
        assert(((0x408_1020_4081u64 >> i) & 1 == 1) == (i < 49 && i % 7 == 0)) by (bit_vector)
            requires
                i < 64,
        ;
        assert(((0x1_ffff_ffff_ffffu64 >> i) & 1 == 1) == (i < 49)) by (bit_vector)
            requires
                i < 64,
        ;
        assert(((0x7fu64 >> i) & 1 == 1) == (i < 7)) by (bit_vector)
            requires
                i < 64,
        ;
    }
}

/// A bit of a board that keeps to the cells is the bit of a cell.
pub proof fn lemma_bit_is_cell(board: u64, index: int)
    requires
        only_cells(board),
        super::util::bit_set(board, index),
    ensures
        0 <= index < 49,
        index % 7 != 6,
        is_cell(index / 7, index % 7),
        cell_index(index / 7, index % 7) == index,
        stone(board, index / 7, index % 7),
{
    super::util::lemma_bit_inside_mask(board, CELLS, index);
    lemma_cells(index);
}

impl Connect4State {
    /// The cells that hold a piece of either player.
    pub open spec fn occupied(&self) -> u64 {
        self.bit_board[0] | self.bit_board[1]
    }

    /// Whether every piece stands in a cell of the board. The rules are
    /// defined on such positions.
    pub open spec fn within_board(&self) -> bool {
        only_cells(self.occupied())
    }

    /// Whether no cell holds a piece of both players.
    pub open spec fn disjoint(&self) -> bool {
        self.bit_board[0] & self.bit_board[1] == 0
    }

    /// Whether every piece rests on the bottom row or on another piece.
    pub open spec fn settled(&self) -> bool {
        forall|col: int, row: int|
            #![trigger stone(self.occupied(), col, row)]
            stone(self.occupied(), col, row) && row > 0 ==> stone(self.occupied(), col, row - 1)
    }

    /// Whether the players have moved in turn, the first player first: the
    /// first player has as many pieces as the second, or one more.
    pub open spec fn in_turn(&self) -> bool {
        let first = super::util::ones(self.bit_board[0]);
        let second = super::util::ones(self.bit_board[1]);
        first == second || first == second + 1
    }

    /// What holds of every position that play can reach from the empty
    /// board.
    pub open spec fn is_position(&self) -> bool {
        &&& self.within_board()
        &&& self.disjoint()
        &&& self.settled()
        &&& self.in_turn()
    }

    /// Whether it is the first player's turn: the first player has at most
    /// as many pieces on the board as the second.
    pub open spec fn spec_player_1_turn(&self) -> bool {
        super::util::ones(self.bit_board[0]) <= super::util::ones(self.bit_board[1])
    }

    /// The player to move: 0 for the first player, 1 for the second.
    pub open spec fn turn(&self) -> int {
        if self.spec_player_1_turn() {
            0
        } else {
            1
        }
    }

    /// Whether `self` and `other` are the same position.
    pub fn same_position(&self, other: &Connect4State) -> (same: bool)
        ensures
            same == (*self == *other),
    {
        let same: bool = self.bit_board[0] == other.bit_board[0] && self.bit_board[1]
            == other.bit_board[1];
        proof {
            if same {
                assert(self.bit_board =~= other.bit_board);
            }
        }
        same
    }

    /// Whether it is the first player's turn.
    #[verifier::when_used_as_spec(spec_player_1_turn)]
    pub fn player_1_turn(&self) -> (first: bool)
        ensures
            first == self.spec_player_1_turn(),
    {
        return count_ones(self.bit_board[0]) <= count_ones(self.bit_board[1]);
    }

    /// The character that shows the cell in column `col` and row `row`: `X`
    /// for a piece of the first player, `O` for one of the second, `-` for
    /// an empty cell.
    pub open spec fn cell_char(&self, col: int, row: int) -> char {
        if super::util::bit_set(self.bit_board[0], cell_index(col, row)) {
            'X'
        } else if super::util::bit_set(self.bit_board[1], cell_index(col, row)) {
            'O'
        } else {
            '-'
        }
    }

    /// The text of row `row`: its seven cells from the left.
    pub open spec fn row_text(&self, row: int) -> Seq<char> {
        Seq::new(7, |col: int| self.cell_char(col, row))
    }

    /// The text of the rows from the bottom row up to row `highest`, one row
    /// to a line.
    pub open spec fn rows_text(&self, highest: int) -> Seq<char>
        decreases highest,
    {
        if highest <= 0 {
            self.row_text(0)
        } else {
            self.rows_text(highest - 1) + seq!['\n'] + self.row_text(highest)
        }
    }

    /// The text of the board: six lines of seven characters, the bottom row
    /// first, with no line end after the last.
    pub open spec fn board_text(&self) -> Seq<char> {
        self.rows_text(5)
    }
}

impl State for Connect4State {
    open spec fn text(&self) -> Seq<char> {
        self.board_text()
    }

    fn to_string(&self) -> (rendered: String) {
        let mut rendered: String = String::new();
        let mut i: usize = 0;
        while i < BOARD_HEIGHT
            invariant
                i <= 6,
                i == 0 ==> rendered@ == Seq::<char>::empty(),
                0 < i < 6 ==> rendered@ == self.rows_text(i - 1) + seq!['\n'],
                i == 6 ==> rendered@ == self.rows_text(5),
            decreases 6 - i,
        {
            let ghost before = rendered@;
            let mut j: usize = i;
            let mut col: usize = 0;
            while j < BOARD_BITS
                invariant
                    i < 6,
                    col <= 7,
                    j == i + 7 * col,
                    rendered@ == before + self.row_text(i as int).take(col as int),
                decreases 7 - col,
            {
                proof {
                    reveal_strlit("X");
                    reveal_strlit("O");
                    reveal_strlit("-");
                    super::util::lemma_bit_of_mask(self.bit_board[0], j as u64);
                    super::util::lemma_bit_of_mask(self.bit_board[1], j as u64);
                }
                let mask: u64 = 1u64 << (j as u64);
                if (self.bit_board[0] & mask) != 0 {
                    rendered.append("X");
                } else if (self.bit_board[1] & mask) != 0 {
                    rendered.append("O");
                } else {
                    rendered.append("-");
                }
                j += COLUMN_BITS;
                col += 1;
                assert(rendered@ =~= before + self.row_text(i as int).take(col as int));
            }
            assert(self.row_text(i as int).take(7) =~= self.row_text(i as int));
            assert(before + self.row_text(i as int) =~= self.rows_text(i as int));
            if i != BOARD_HEIGHT - 1 {
                proof {
                    reveal_strlit("\n");
                }
                rendered.append("\n");
            }
            i += 1;
        }
        rendered
    }
}

} // verus!
