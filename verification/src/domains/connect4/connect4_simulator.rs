//! The rules of Connect Four: column heights, lines of four, legal moves,
//! rewards, and the move itself.

use vstd::prelude::*;

use super::connect4_action::Connect4Action;
use super::connect4_state::Connect4State;
use super::constants::{ABOVE_TOP_ROW, BOARD_WIDTH, COLUMN_BITS, N_PLAYERS};
use crate::engine::initial_state_generator::InitialStateGenerator;
use crate::engine::reward::{
    adversarial_draw, adversarial_p1_loss, adversarial_p1_win, copy_rewards, Reward,
};
use crate::engine::simulator::{duplicate_all, LegalActions, Simulator};

verus! {

/// Whether `height` is the number of the lowest free bit of column `col`:
/// no bit of the column below it is free.
pub open spec fn is_lowest_free(occupied: u64, col: int, height: int) -> bool {
    &&& 7 * col <= height
    &&& !super::util::bit_set(occupied, height)
    &&& forall|index: int|
        7 * col <= index < height ==> #[trigger] super::util::bit_set(occupied, index)
}

/// The height of column `col`: the number of the lowest bit of the column
/// that neither player has taken.
pub open spec fn column_height(state: &Connect4State, col: int) -> int {
    choose|height: int| is_lowest_free(state.occupied(), col, height)
}

/// A column has one lowest free bit.
pub proof fn lemma_lowest_free_unique(occupied: u64, col: int, first: int, second: int)
    requires
        is_lowest_free(occupied, col, first),
        is_lowest_free(occupied, col, second),
    ensures
        first == second,
{
    if first < second {
        assert(super::util::bit_set(occupied, first));
    } else if second < first {
        assert(super::util::bit_set(occupied, second));
    }
}

/// Every column has a lowest free bit, at or above `from` where the column
/// is taken from its base up to `from`.
pub proof fn lemma_lowest_free_exists(occupied: u64, col: int, from: int) -> (height: int)
    requires
        0 <= col,
        7 * col <= from,
        forall|index: int|
            7 * col <= index < from ==> #[trigger] super::util::bit_set(occupied, index),
    ensures
        is_lowest_free(occupied, col, height),
        from <= height,
    decreases 64 - from,
{
    if super::util::bit_set(occupied, from) {
        lemma_lowest_free_exists(occupied, col, from + 1)
    } else {
        from
    }
}

/// The height of a column is its lowest free bit, and on a board whose
/// pieces stand in cells it lies in the column: at its base where the
/// column is empty, at its guard where it is full.
pub proof fn lemma_column_height(state: &Connect4State, col: int)
    requires
        0 <= col < 7,
    ensures
        is_lowest_free(state.occupied(), col, column_height(state, col)),
        state.within_board() ==> 7 * col <= column_height(state, col) <= 7 * col + 6,
{
    let found = lemma_lowest_free_exists(state.occupied(), col, 7 * col);
    let height = column_height(state, col);
    if state.within_board() && height > 7 * col + 6 {
        assert(super::util::bit_set(state.occupied(), 7 * col + 6));
        super::connect4_state::lemma_bit_is_cell(state.occupied(), 7 * col + 6);
    }
}

/// Whether a piece can still be dropped into column `col`: the column's
/// lowest free bit is a cell, not the guard above the top row.
pub open spec fn column_open(state: &Connect4State, col: int) -> bool {
    0 <= col < 7 && column_height(state, col) < 7 * col + 6
}

/// Whether `board` has four pieces in a line that starts in column `col`
/// and row `row` and goes on by `dc` columns and `dr` rows from piece to
/// piece.
pub open spec fn four_in_line(board: u64, col: int, row: int, dc: int, dr: int) -> bool {
    &&& super::connect4_state::stone(board, col, row)
    &&& super::connect4_state::stone(board, col + dc, row + dr)
    &&& super::connect4_state::stone(board, col + 2 * dc, row + 2 * dr)
    &&& super::connect4_state::stone(board, col + 3 * dc, row + 3 * dr)
}

/// Whether `board` has four pieces in a line that starts in column `col`
/// and row `row` and goes up, right, up and right, or down and right.
pub open spec fn four_from(board: u64, col: int, row: int) -> bool {
    ||| four_in_line(board, col, row, 0, 1)
    ||| four_in_line(board, col, row, 1, 0)
    ||| four_in_line(board, col, row, 1, 1)
    ||| four_in_line(board, col, row, 1, -1)
}

/// Whether `board` holds four pieces in a row, in a column or on a
/// diagonal.
pub open spec fn has_four(board: u64) -> bool {
    exists|col: int, row: int| #[trigger] four_from(board, col, row)
}

/// The bits from which a run of four bits of `board` starts, each `step`
/// above the one before.
pub open spec fn runs(board: u64, step: u64) -> u64 {
    let pairs = board & (board >> step);
    pairs & (pairs >> ((2 * step) as u64))
}

/// Bit `index` starts a run exactly when it and the three bits that follow
/// it at the distance `step` are set.
pub proof fn lemma_run_bit(board: u64, step: u64, index: int)
    requires
        1 <= step <= 8,
    ensures
        super::util::bit_set(runs(board, step), index) <==> {
            &&& super::util::bit_set(board, index)
            &&& super::util::bit_set(board, index + step)
            &&& super::util::bit_set(board, index + 2 * step)
            &&& super::util::bit_set(board, index + 3 * step)
        },
{
    if 0 <= index {
        let pairs = board & (board >> step);
        let twice = (2 * step) as u64;
        super::util::lemma_and_bit(pairs, pairs >> twice, index);
        super::util::lemma_shift_bit(pairs, twice, index);
        super::util::lemma_and_bit(board, board >> step, index);
        super::util::lemma_and_bit(board, board >> step, index + twice);
        super::util::lemma_shift_bit(board, step, index);
        super::util::lemma_shift_bit(board, step, index + twice);
    }
}

/// A run of four bits at the distance `step` on a board whose pieces stand
/// in cells is a line of four pieces in the direction that belongs to the
/// distance.
pub proof fn lemma_run_is_line(board: u64, step: u64, index: int)
    requires
        super::connect4_state::only_cells(board),
        step == 1 || step == 6 || step == 7 || step == 8,
        super::util::bit_set(runs(board, step), index),
    ensures
        four_from(board, index / 7, index % 7),
        has_four(board),
{
    lemma_run_bit(board, step, index);
    super::connect4_state::lemma_bit_is_cell(board, index);
    super::connect4_state::lemma_bit_is_cell(board, index + step);
    super::connect4_state::lemma_bit_is_cell(board, index + 2 * step);
    super::connect4_state::lemma_bit_is_cell(board, index + 3 * step);
    let col = index / 7;
    let row = index % 7;
    if step == 1 {
        assert(four_in_line(board, col, row, 0, 1));
    } else if step == 7 {
        assert(four_in_line(board, col, row, 1, 0));
    } else if step == 8 {
        assert(four_in_line(board, col, row, 1, 1));
    } else {
        assert(four_in_line(board, col, row, 1, -1));
    }
    assert(four_from(board, col, row));
}

/// A line of four pieces is a run of four bits at the distance that belongs
/// to its direction.
pub proof fn lemma_line_is_run(board: u64, col: int, row: int)
    requires
        four_from(board, col, row),
    ensures
        runs(board, 1) != 0 || runs(board, 6) != 0 || runs(board, 7) != 0 || runs(board, 8) != 0,
{
    let index = super::connect4_state::cell_index(col, row);
    if four_in_line(board, col, row, 0, 1) {
        lemma_run_bit(board, 1, index);
        super::util::lemma_bit_implies_nonzero(runs(board, 1), index);
    } else if four_in_line(board, col, row, 1, 0) {
        lemma_run_bit(board, 7, index);
        super::util::lemma_bit_implies_nonzero(runs(board, 7), index);
    } else if four_in_line(board, col, row, 1, 1) {
        lemma_run_bit(board, 8, index);
        super::util::lemma_bit_implies_nonzero(runs(board, 8), index);
    } else {
        lemma_run_bit(board, 6, index);
        super::util::lemma_bit_implies_nonzero(runs(board, 6), index);
    }
}

/// Whether `board` holds four pieces in a line.
pub fn four_in_a_row(board: u64) -> (found: bool)
    requires
        super::connect4_state::only_cells(board),
    ensures
        found == has_four(board),
{
    let diagonal1: u64 = board & (board >> 6);
    let horizontal: u64 = board & (board >> 7);
    let diagonal2: u64 = board & (board >> 8);
    let vertical: u64 = board & (board >> 1);
    let down: u64 = diagonal1 & (diagonal1 >> 12);
    let across: u64 = horizontal & (horizontal >> 14);
    let up: u64 = diagonal2 & (diagonal2 >> 16);
    let above: u64 = vertical & (vertical >> 2);
    let found: bool = (down | across | up | above) != 0;
    proof {
        assert(down == runs(board, 6));
        assert(across == runs(board, 7));
        assert(up == runs(board, 8));
        assert(above == runs(board, 1));
        assert(((down | across | up | above) != 0) == (down != 0 || across != 0 || up != 0 || above
            != 0)) by (bit_vector);
        if found {
            if down != 0 {
                let index = super::util::lemma_nonzero_has_bit(down);
                lemma_run_is_line(board, 6, index);
            } else if across != 0 {
                let index = super::util::lemma_nonzero_has_bit(across);
                lemma_run_is_line(board, 7, index);
            } else if up != 0 {
                let index = super::util::lemma_nonzero_has_bit(up);
                lemma_run_is_line(board, 8, index);
            } else {
                let index = super::util::lemma_nonzero_has_bit(above);
                lemma_run_is_line(board, 1, index);
            }
        }
        if has_four(board) {
            let (col, row) = choose|col: int, row: int| #[trigger] four_from(board, col, row);
            lemma_line_is_run(board, col, row);
        }
    }
    found
}

/// Whether one of the players has four pieces in a line.
pub open spec fn decided(state: &Connect4State) -> bool {
    has_four(state.bit_board[0]) || has_four(state.bit_board[1])
}

/// The rewards in `state`: a win and a loss where a player has four pieces
/// in a line, the win for that player, and a draw for both where neither
/// has.
pub open spec fn rewards_of(state: &Connect4State) -> Seq<Reward> {
    if has_four(state.bit_board[0]) {
        crate::engine::reward::adversarial_p1_win_spec()
    } else if has_four(state.bit_board[1]) {
        crate::engine::reward::adversarial_p1_loss_spec()
    } else {
        crate::engine::reward::adversarial_draw_spec()
    }
}

/// The moves into the columns that are not full.
pub open spec fn open_columns(state: &Connect4State) -> Set<Connect4Action> {
    Set::new(|action: Connect4Action| column_open(state, action.location as int))
}

/// The legal actions of both players in `state`. Once a player has four in
/// a line nobody can move. Until then the player to move may drop a piece
/// into any column that is not full, and the other player cannot move.
pub open spec fn legal_of(state: &Connect4State) -> Seq<Set<Connect4Action>> {
    if decided(state) {
        seq![Set::<Connect4Action>::empty(), Set::<Connect4Action>::empty()]
    } else if state.spec_player_1_turn() {
        seq![open_columns(state), Set::<Connect4Action>::empty()]
    } else {
        seq![Set::<Connect4Action>::empty(), open_columns(state)]
    }
}

/// Whether `next` is `state` after the player to move has dropped a piece
/// into column `col`: the lowest free bit of the column is flipped in that
/// player's board, and nothing else is changed.
pub open spec fn is_move(state: &Connect4State, col: int, next: &Connect4State) -> bool {
    let turn = state.turn();
    let height = column_height(state, col) as u64;
    &&& next.bit_board[turn] == state.bit_board[turn] ^ (1u64 << height)
    &&& next.bit_board[1 - turn] == state.bit_board[1 - turn]
}

/// Whether `next` follows from `state` by the joint action `actions`: by
/// the move of the player to move where there is one, and unchanged where
/// nobody moves.
pub open spec fn follows(
    state: &Connect4State,
    actions: Seq<Option<Connect4Action>>,
    next: &Connect4State,
) -> bool {
    match actions[state.turn()] {
        Some(action) => is_move(state, action.location as int, next),
        None => *next == *state,
    }
}

/// The moves into the columns whose height, as `heights` gives it, is not a
/// guard bit.
pub open spec fn columns_below_guard(heights: Seq<u8>) -> Set<Connect4Action> {
    Set::new(
        |action: Connect4Action|
            action.location < 7 && !super::util::bit_set(
                ABOVE_TOP_ROW,
                heights[action.location as int] as int,
            ),
    )
}

/// Finds the lowest free bit of every column.
pub fn calculate_column_heights(state: &Connect4State) -> (column_heights: [u8; 7])
    requires
        state.within_board(),
    ensures
        forall|col: int|
            0 <= col < 7 ==> #[trigger] column_heights[col] == column_height(state, col),
        forall|col: int|
            0 <= col < 7 ==> is_lowest_free(
                state.occupied(),
                col,
                #[trigger] column_heights[col] as int,
            ),
        forall|col: int|
            0 <= col < 7 ==> 7 * col <= #[trigger] column_heights[col] <= 7 * col + 6,
{
    let mut column_heights: [u8; 7] = [0u8; 7];
    let bit_board: u64 = state.bit_board[0] | state.bit_board[1];
    let mut i: usize = 0;
    while i < BOARD_WIDTH
        invariant
            i <= 7,
            bit_board == state.occupied(),
            state.within_board(),
            forall|col: int|
                0 <= col < i ==> is_lowest_free(
                    bit_board,
                    col,
                    #[trigger] column_heights[col] as int,
                ),
            forall|col: int| 0 <= col < i ==> 7 * col <= #[trigger] column_heights[col] <= 7 * col + 6,
        decreases 7 - i,
    {
        let mut height: u8 = (COLUMN_BITS * i) as u8;
        proof {
            super::util::lemma_bit_of_mask(bit_board, height as u64);
        }
        while bit_board & (1u64 << (height as u64)) != 0
            invariant
                i < 7,
                7 * i <= height <= 7 * i + 6,
                super::connect4_state::only_cells(bit_board),
                (bit_board & (1u64 << (height as u64)) != 0) == super::util::bit_set(
                    bit_board,
                    height as int,
                ),
                forall|index: int|
                    7 * i <= index < height ==> #[trigger] super::util::bit_set(bit_board, index),
            decreases 7 * i + 6 - height,
        {
            proof {
                super::connect4_state::lemma_bit_is_cell(bit_board, height as int);
            }
            height += 1;
            proof {
                super::util::lemma_bit_of_mask(bit_board, height as u64);
            }
        }
        column_heights[i] = height;
        i += 1;
    }
    proof {
        assert forall|col: int| 0 <= col < 7 implies #[trigger] column_heights[col]
            == column_height(state, col) by {
            lemma_column_height(state, col);
            lemma_lowest_free_unique(
                state.occupied(),
                col,
                column_heights[col] as int,
                column_height(state, col),
            );
        }
    }
    column_heights
}

/// Gives the rewards in `state`.
pub fn calculate_rewards(state: &Connect4State) -> (rewards: Vec<Reward>)
    requires
        state.within_board(),
    ensures
        rewards@ == rewards_of(state),
{
    proof {
        lemma_boards_within(state);
    }
    let mut i: usize = 0;
    while i < N_PLAYERS
        invariant
            i <= 2,
            super::connect4_state::only_cells(state.bit_board[0]),
            super::connect4_state::only_cells(state.bit_board[1]),
            forall|p: int| 0 <= p < i ==> !has_four(#[trigger] state.bit_board[p]),
        decreases 2 - i,
    {
        if four_in_a_row(state.bit_board[i]) {
            return if i == 0 {
                adversarial_p1_win()
            } else {
                adversarial_p1_loss()
            };
        }
        i += 1;
    }
    assert(!has_four(state.bit_board[0]) && !has_four(state.bit_board[1]));
    adversarial_draw()
}

/// Where the pieces of both players together stand in cells, so do those of
/// each player.
pub proof fn lemma_boards_within(state: &Connect4State)
    requires
        state.within_board(),
    ensures
        super::connect4_state::only_cells(state.bit_board[0]),
        super::connect4_state::only_cells(state.bit_board[1]),
{
    let first = state.bit_board[0];
    let second = state.bit_board[1];
    let cells = super::constants::CELLS;
    assert(((first | second) & !cells == 0) ==> (first & !cells == 0 && second & !cells == 0))
        by (bit_vector);
}

/// Gives the legal actions of both players from the rewards and the column
/// heights of a state: nobody can move unless the first reward is a draw;
/// where it is, the player to move may play each column whose height is not
/// a guard bit.
pub fn calculate_legal_actions(
    state: &Connect4State,
    rewards: &Vec<Reward>,
    column_heights: [u8; 7],
) -> (legal_actions: Vec<LegalActions<Connect4Action>>)
    requires
        rewards.len() > 0,
        forall|col: int| 0 <= col < 7 ==> #[trigger] column_heights[col] < 64,
    ensures
        legal_actions.len() == 2,
        legal_actions[0].is_set(),
        legal_actions[1].is_set(),
        legal_actions[1 - state.turn()]@ == Set::<Connect4Action>::empty(),
        legal_actions[state.turn()]@ == if rewards[0] == Reward::spec_draw() {
            columns_below_guard(column_heights@)
        } else {
            Set::<Connect4Action>::empty()
        },
{
    let mut columns: LegalActions<Connect4Action> = LegalActions::new();
    let first_turn: bool = state.player_1_turn();
    if rewards[0] == Reward::draw() {
        let mut x: usize = 0;
        while x < BOARD_WIDTH
            invariant
                x <= 7,
                columns.is_set(),
                forall|col: int| 0 <= col < 7 ==> #[trigger] column_heights[col] < 64,
                forall|action: Connect4Action|
                    columns@.contains(action) <==> action.location < x
                        && columns_below_guard(column_heights@).contains(action),
            decreases 7 - x,
        {
            proof {
                super::util::lemma_bit_of_mask(ABOVE_TOP_ROW, column_heights[x as int] as u64);
            }
            if (1u64 << (column_heights[x] as u64)) & ABOVE_TOP_ROW == 0 {
                columns.insert(Connect4Action { location: x as u8 });
            }
            x += 1;
        }
        assert(columns@ =~= columns_below_guard(column_heights@));
    }
    let mut legal_actions: Vec<LegalActions<Connect4Action>> = Vec::new();
    if first_turn {
        legal_actions.push(columns);
        legal_actions.push(LegalActions::new());
    } else {
        legal_actions.push(LegalActions::new());
        legal_actions.push(columns);
    }
    legal_actions
}

/// With the rewards and the column heights of a state, the columns below
/// the guard are the open columns, and a first reward that is a draw says
/// that the game is not decided.
pub proof fn lemma_legal_from_parts(state: &Connect4State, column_heights: Seq<u8>)
    requires
        state.within_board(),
        column_heights.len() == 7,
        forall|col: int|
            0 <= col < 7 ==> #[trigger] column_heights[col] == column_height(state, col),
    ensures
        columns_below_guard(column_heights) == open_columns(state),
        (rewards_of(state)[0] == Reward::spec_draw()) == !decided(state),
{
    assert forall|action: Connect4Action|
        columns_below_guard(column_heights).contains(action) == open_columns(state).contains(
            action,
        ) by {
        let col = action.location as int;
        if col < 7 {
            lemma_column_height(state, col);
            super::connect4_state::lemma_cells(column_height(state, col));
        }
    }
    assert(columns_below_guard(column_heights) =~= open_columns(state));
}

/// The board on which no piece stands.
pub open spec fn is_empty_board(state: &Connect4State) -> bool {
    state.bit_board[0] == 0 && state.bit_board[1] == 0
}

/// A word without a set bit has no set bit among its lowest.
pub proof fn lemma_zero_has_no_ones(n: nat)
    ensures
        super::util::ones_below(0, n) == 0,
        forall|index: int| !super::util::bit_set(0, index),
    decreases n,
{
    assert forall|index: int| !super::util::bit_set(0, index) by {
        if super::util::bit_set(0, index) {
            super::util::lemma_bit_implies_nonzero(0, index);
        }
    }
    if n > 0 {
        lemma_zero_has_no_ones((n - 1) as nat);
    }
}

/// The empty board is a position in which the game is not decided, every
/// column is open and it is the first player's turn: the first player may
/// play each of the seven columns, the second player none.
pub proof fn lemma_empty_board(state: &Connect4State)
    requires
        is_empty_board(state),
    ensures
        state.is_position(),
        !decided(state),
        state.spec_player_1_turn(),
        forall|col: int| 0 <= col < 7 ==> #[trigger] column_height(state, col) == 7 * col,
        forall|action: Connect4Action|
            legal_of(state)[0].contains(action) <==> action.location < 7,
        legal_of(state)[1] == Set::<Connect4Action>::empty(),
{
    lemma_zero_has_no_ones(64);
    assert(state.occupied() == 0) by {
        assert(0u64 | 0u64 == 0u64) by (bit_vector);
    }
    assert(state.within_board() && state.disjoint()) by {
        assert(0u64 & !0xfdfb_f7ef_dfbfu64 == 0u64 && 0u64 & 0u64 == 0u64) by (bit_vector);
    }
    assert forall|col: int| 0 <= col < 7 implies #[trigger] column_height(state, col) == 7
        * col by {
        lemma_column_height(state, col);
        assert(is_lowest_free(state.occupied(), col, 7 * col));
        lemma_lowest_free_unique(state.occupied(), col, 7 * col, column_height(state, col));
    }
    assert forall|action: Connect4Action|
        legal_of(state)[0].contains(action) <==> action.location < 7 by {
        if action.location < 7 {
            assert(column_height(state, action.location as int) == 7 * action.location);
        }
    }
}

/// What a move does to the boards, bit by bit: the lowest free bit of the
/// column is set in the board of the player who moved, and no other bit of
/// either board changes. The bit is the cell above the pieces that stood in
/// the column.
pub proof fn lemma_move_bits(state: &Connect4State, col: int, next: &Connect4State)
    requires
        state.within_board(),
        column_open(state, col),
        is_move(state, col, next),
    ensures
        forall|index: int|
            super::util::bit_set(#[trigger] next.bit_board[state.turn()], index) <==> (
            super::util::bit_set(state.bit_board[state.turn()], index) || index == column_height(
                state,
                col,
            )),
        next.bit_board[1 - state.turn()] == state.bit_board[1 - state.turn()],
        forall|index: int|
            super::util::bit_set(next.occupied(), index) <==> (super::util::bit_set(
                state.occupied(),
                index,
            ) || index == column_height(state, col)),
        !super::util::bit_set(state.occupied(), column_height(state, col)),
        7 * col <= column_height(state, col) < 7 * col + 6,
{
    lemma_column_height(state, col);
    let turn = state.turn();
    let height = column_height(state, col);
    let mover = state.bit_board[turn];
    let other = state.bit_board[1 - turn];
    super::util::lemma_or_bit(state.bit_board[0], state.bit_board[1], height);
    assert forall|index: int|
        super::util::bit_set(next.bit_board[turn], index) <==> (super::util::bit_set(mover, index)
            || index == height) by {
        super::util::lemma_flip_bit(mover, height as u64, index);
    }
    assert forall|index: int|
        super::util::bit_set(next.occupied(), index) <==> (super::util::bit_set(
            state.occupied(),
            index,
        ) || index == height) by {
        super::util::lemma_or_bit(next.bit_board[0], next.bit_board[1], index);
        super::util::lemma_or_bit(state.bit_board[0], state.bit_board[1], index);
        super::util::lemma_flip_bit(mover, height as u64, index);
    }
}

/// A move into an open column leads from a board whose pieces stand in
/// cells to another such board, and from a position to a position: the
/// boards stay disjoint, the new piece rests on the column, and the player
/// who moved has one piece more.
pub proof fn lemma_move_keeps_position(state: &Connect4State, col: int, next: &Connect4State)
    requires
        state.within_board(),
        column_open(state, col),
        is_move(state, col, next),
    ensures
        next.within_board(),
        super::util::ones(next.bit_board[state.turn()]) == super::util::ones(
            state.bit_board[state.turn()],
        ) + 1,
        state.disjoint() ==> next.disjoint(),
        state.settled() ==> next.settled(),
        state.is_position() ==> next.is_position(),
        state.is_position() ==> next.turn() == 1 - state.turn(),
{
    lemma_move_bits(state, col, next);
    lemma_column_height(state, col);
    let turn = state.turn();
    let height = column_height(state, col);
    let position = height as u64;
    let mover = state.bit_board[turn];
    let other = state.bit_board[1 - turn];
    let cells = super::constants::CELLS;
    super::connect4_state::lemma_cells(height);
    assert((mover | other) == (other | mover)) by (bit_vector);
    assert((mover | other) == state.occupied());
    super::util::lemma_or_bit(state.bit_board[0], state.bit_board[1], height);
    assert(((mover | other) >> position) & 1 != 1);
    assert(((mover | other) & !cells == 0 && ((mover | other) >> position) & 1 != 1 && (cells
        >> position) & 1 == 1) ==> (((mover ^ (1u64 << position)) | other) & !cells == 0 && (other
        | (mover ^ (1u64 << position))) & !cells == 0)) by (bit_vector)
        requires
            position < 64,
    ;
    assert(next.within_board());
    super::util::lemma_ones_after_flip(mover, position);
    if state.disjoint() {
        assert((mover & other == 0 && ((mover | other) >> position) & 1 != 1) ==> ((mover ^ (1u64
            << position)) & other == 0 && other & (mover ^ (1u64 << position)) == 0))
            by (bit_vector)
            requires
                position < 64,
        ;
        assert(mover & other == other & mover) by (bit_vector);
    }
    if state.settled() {
        assert forall|c: int, r: int|
            #![trigger super::connect4_state::stone(next.occupied(), c, r)]
            super::connect4_state::stone(next.occupied(), c, r) && r
                > 0 implies super::connect4_state::stone(next.occupied(), c, r - 1) by {
            let index = super::connect4_state::cell_index(c, r);
            if index == height {
                assert(c == col);
                assert(super::util::bit_set(state.occupied(), index - 1));
            } else {
                assert(super::connect4_state::stone(state.occupied(), c, r));
                assert(super::connect4_state::stone(state.occupied(), c, r - 1));
            }
        }
    }
}

/// An engine for Connect Four. It remembers its last answer to each kind of
/// question, and gives it again when asked about the same state.
pub struct Connect4Simulator {
    column_heights_cache: Option<(Connect4State, [u8; 7])>,
    rewards_cache: Option<(Connect4State, Vec<Reward>)>,
    legal_actions_cache: Option<(Connect4State, Vec<LegalActions<Connect4Action>>)>,
}

impl Connect4Simulator {
    /// Whether each remembered answer is the answer for the state it is
    /// remembered for.
    pub closed spec fn remembers_rightly(&self) -> bool {
        &&& match self.column_heights_cache {
            Some((key, heights)) => key.within_board() && forall|col: int|
                0 <= col < 7 ==> #[trigger] heights[col] == column_height(&key, col),
            None => true,
        }
        &&& match self.rewards_cache {
            Some((key, rewards)) => key.within_board() && rewards@ == rewards_of(&key),
            None => true,
        }
        &&& match self.legal_actions_cache {
            Some((key, sets)) => key.within_board() && crate::engine::simulator::holds_sets(
                sets@,
                legal_of(&key),
            ),
            None => true,
        }
    }

    /// The state whose column heights the engine remembers, if it
    /// remembers any.
    pub closed spec fn heights_remembered_for(&self) -> Option<Connect4State> {
        match self.column_heights_cache {
            Some((key, _)) => Some(key),
            None => None,
        }
    }

    /// The state whose rewards the engine remembers, if it remembers any.
    pub closed spec fn rewards_remembered_for(&self) -> Option<Connect4State> {
        match self.rewards_cache {
            Some((key, _)) => Some(key),
            None => None,
        }
    }

    /// The state whose legal actions the engine remembers, if it remembers
    /// any.
    pub closed spec fn legal_actions_remembered_for(&self) -> Option<Connect4State> {
        match self.legal_actions_cache {
            Some((key, _)) => Some(key),
            None => None,
        }
    }

    /// An engine that remembers nothing yet.
    pub fn new() -> (simulator: Self)
        ensures
            simulator.remembers_rightly(),
            simulator.heights_remembered_for() is None,
            simulator.rewards_remembered_for() is None,
            simulator.legal_actions_remembered_for() is None,
    {
        Connect4Simulator {
            column_heights_cache: None,
            rewards_cache: None,
            legal_actions_cache: None,
        }
    }

    /// Gives the lowest free bit of every column of `state`, and remembers
    /// them for `state` in place of what it remembered before.
    pub fn calculate_column_heights(&mut self, state: &Connect4State) -> (column_heights: [u8; 7])
        requires
            old(self).remembers_rightly(),
            state.within_board(),
        ensures
            final(self).remembers_rightly(),
            final(self).heights_remembered_for() == Some(*state),
            final(self).rewards_remembered_for() == old(self).rewards_remembered_for(),
            final(self).legal_actions_remembered_for() == old(self).legal_actions_remembered_for(),
            forall|col: int|
                0 <= col < 7 ==> #[trigger] column_heights[col] == column_height(state, col),
            forall|col: int|
                0 <= col < 7 ==> 7 * col <= #[trigger] column_heights[col] <= 7 * col + 6,
    {
        proof {
            assert forall|col: int| 0 <= col < 7 implies 7 * col <= #[trigger] column_height(state, col) <= 7
                * col + 6 by {
                lemma_column_height(state, col);
            }
        }
        let remembered: Option<[u8; 7]> = match &self.column_heights_cache {
            Some(entry) => if entry.0.same_position(state) {
                Some(entry.1)
            } else {
                None
            },
            None => None,
        };
        let column_heights: [u8; 7] = match remembered {
            Some(column_heights) => column_heights,
            None => calculate_column_heights(state),
        };
        self.column_heights_cache = Some((*state, column_heights));
        column_heights
    }
}

impl InitialStateGenerator for Connect4Simulator {
    type S = Connect4State;

    open spec fn may_start(state: &Connect4State) -> bool {
        is_empty_board(state)
    }

    fn generate_initial_state(&self) -> (state: Connect4State) {
        Connect4State { bit_board: [0, 0] }
    }
}

impl Simulator<Connect4State, Connect4Action> for Connect4Simulator {
    open spec fn inv(&self) -> bool {
        self.remembers_rightly()
    }

    open spec fn valid_state(state: &Connect4State) -> bool {
        state.within_board()
    }

    open spec fn may_start(state: &Connect4State) -> bool {
        is_empty_board(state)
    }

    open spec fn legal_actions(state: &Connect4State) -> Seq<Set<Connect4Action>> {
        legal_of(state)
    }

    open spec fn rewards(state: &Connect4State) -> Seq<Reward> {
        rewards_of(state)
    }

    open spec fn may_follow(
        state: &Connect4State,
        actions: Seq<Option<Connect4Action>>,
        next: &Connect4State,
    ) -> bool {
        follows(state, actions, next)
    }

    fn generate_initial_state(&mut self) -> (state: Connect4State)
        ensures
            state.is_position(),
            reachable(&state),
            !crate::engine::simulator::nobody_can_move(legal_of(&state)),
            *final(self) == *old(self),
    {
        let state = InitialStateGenerator::generate_initial_state(&*self);
        proof {
            lemma_empty_board(&state);
            lemma_reachable_grows(&state, 0, &state);
            assert(legal_of(&state)[0].contains(Connect4Action { location: 0 }));
        }
        state
    }

    fn calculate_rewards(&mut self, state: &Connect4State) -> (rewards: Vec<Reward>)
        ensures
            final(self).rewards_remembered_for() == Some(*state),
            final(self).heights_remembered_for() == old(self).heights_remembered_for(),
            final(self).legal_actions_remembered_for() == old(self).legal_actions_remembered_for(),
    {
        let remembered: Option<Vec<Reward>> = match &self.rewards_cache {
            Some(entry) => if entry.0.same_position(state) {
                Some(copy_rewards(&entry.1))
            } else {
                None
            },
            None => None,
        };
        let rewards: Vec<Reward> = match remembered {
            Some(rewards) => rewards,
            None => calculate_rewards(state),
        };
        self.rewards_cache = Some((*state, copy_rewards(&rewards)));
        rewards
    }

    fn calculate_legal_actions(&mut self, state: &Connect4State) -> (all: Vec<
        LegalActions<Connect4Action>,
    >)
        ensures
            final(self).legal_actions_remembered_for() == Some(*state),
            final(self).rewards_remembered_for() == old(self).rewards_remembered_for(),
            final(self).heights_remembered_for() == if old(self).legal_actions_remembered_for()
                == Some(*state) {
                old(self).heights_remembered_for()
            } else {
                Some(*state)
            },
    {
        let remembered: Option<Vec<LegalActions<Connect4Action>>> = match &self.legal_actions_cache {
            Some(entry) => if entry.0.same_position(state) {
                Some(duplicate_all(&entry.1))
            } else {
                None
            },
            None => None,
        };
        let legal_actions: Vec<LegalActions<Connect4Action>> = match remembered {
            Some(legal_actions) => legal_actions,
            None => {
                let rewards = calculate_rewards(state);
                let column_heights = self.calculate_column_heights(state);
                proof {
                    lemma_legal_from_parts(state, column_heights@);
                }
                calculate_legal_actions(state, &rewards, column_heights)
            },
        };
        self.legal_actions_cache = Some((*state, duplicate_all(&legal_actions)));
        legal_actions
    }

    fn state_transition(&mut self, state: &Connect4State, actions: &Vec<
        Option<Connect4Action>,
    >) -> (next: Connect4State)
        ensures
            state.is_position() ==> next.is_position(),
            reachable(state) ==> reachable(&next),
            final(self).rewards_remembered_for() == old(self).rewards_remembered_for(),
            final(self).legal_actions_remembered_for() == old(self).legal_actions_remembered_for(),
            final(self).heights_remembered_for() == if actions[state.turn()] is Some {
                Some(*state)
            } else {
                old(self).heights_remembered_for()
            },
    {
        let agent_turn: usize = if state.player_1_turn() {
            0
        } else {
            1
        };
        assert(!crate::engine::simulator::misplaced(legal_of(state), actions@, agent_turn as int));
        match actions[agent_turn] {
            Some(action) => {
                let column_heights = self.calculate_column_heights(state);
                assert(legal_of(state)[agent_turn as int].contains(action));
                let height: u8 = column_heights[action.location as usize];
                let board: u64 = state.bit_board[agent_turn] ^ (1u64 << (height as u64));
                let next = if agent_turn == 0 {
                    Connect4State { bit_board: [board, state.bit_board[1]] }
                } else {
                    Connect4State { bit_board: [state.bit_board[0], board] }
                };
                proof {
                    lemma_move_keeps_position(state, action.location as int, &next);
                    lemma_reachable_grows(state, action.location, &next);
                }
                next
            },
            None => *state,
        }
    }

    fn number_of_players(&mut self, state: &Connect4State) -> (players: usize)
        ensures
            players == 2,
            *final(self) == *old(self),
    {
        N_PLAYERS
    }
}

/// While the game is not decided, the player to move may play a column
/// exactly when it is open. The full columns and the columns off the board
/// are barred, and so is every column once the game is decided.
pub proof fn lemma_legal_columns(state: &Connect4State)
    requires
        state.within_board(),
    ensures
        forall|action: Connect4Action|
            legal_of(state)[state.turn()].contains(action) <==> !decided(state) && column_open(
                state,
                action.location as int,
            ),
        legal_of(state)[1 - state.turn()] == Set::<Connect4Action>::empty(),
{
}

/// A joint action is allowed exactly when it gives the player to move a
/// legal column, or nothing where nobody can move, and gives the other
/// player nothing. So a move can only go into a column that the legal
/// actions of the state hold for the player to move, and a joint action
/// with any other column is not allowed.
pub proof fn lemma_only_legal_columns_are_played(
    state: &Connect4State,
    actions: Seq<Option<Connect4Action>>,
)
    requires
        state.within_board(),
    ensures
        crate::engine::simulator::allowed(legal_of(state), actions) <==> {
            &&& actions.len() == 2
            &&& actions[1 - state.turn()] is None
            &&& match actions[state.turn()] {
                Some(action) => legal_of(state)[state.turn()].contains(action),
                None => legal_of(state)[state.turn()] == Set::<Connect4Action>::empty(),
            }
        },
{
    let legal = legal_of(state);
    let turn = state.turn();
    assert(legal[1 - turn] == Set::<Connect4Action>::empty());
    if crate::engine::simulator::allowed(legal, actions) {
        assert(!crate::engine::simulator::misplaced(legal, actions, 1 - turn));
        assert(!crate::engine::simulator::misplaced(legal, actions, turn));
        if actions[turn] is Some {
            assert(legal[turn].contains(actions[turn]->0));
        }
    }
    if actions.len() == 2 && actions[1 - turn] is None && (match actions[turn] {
        Some(action) => legal[turn].contains(action),
        None => legal[turn] == Set::<Connect4Action>::empty(),
    }) {
        assert forall|p: int| 0 <= p < legal.len() implies !#[trigger] crate::engine::simulator::misplaced(
            legal,
            actions,
            p,
        ) by {
            if p == turn && actions[turn] is Some {
                assert(legal[turn].contains(actions[turn]->0));
                assert(legal[turn] != Set::<Connect4Action>::empty());
            }
        }
        assert(crate::engine::simulator::allowed(legal, actions));
    }
}

/// The game is over exactly when a player has four in a line or every
/// column is full.
pub proof fn lemma_terminal_states(state: &Connect4State)
    requires
        state.within_board(),
    ensures
        crate::engine::simulator::nobody_can_move(legal_of(state)) <==> decided(state) || forall|
            col: int,
        |
            0 <= col < 7 ==> !#[trigger] column_open(state, col),
{
    let legal = legal_of(state);
    let turn = state.turn();
    if !decided(state) {
        if forall|col: int| 0 <= col < 7 ==> !#[trigger] column_open(state, col) {
            assert(open_columns(state) =~= Set::<Connect4Action>::empty());
        }
        if crate::engine::simulator::nobody_can_move(legal) {
            assert(legal[turn] == Set::<Connect4Action>::empty());
            assert forall|col: int| 0 <= col < 7 implies !#[trigger] column_open(state, col) by {
                let action = Connect4Action { location: col as u8 };
                assert(!open_columns(state).contains(action));
            }
        }
    }
}

/// Once a player has four in a line nobody can move, whether or not a
/// column is still open.
pub proof fn lemma_win_ends_game(state: &Connect4State)
    requires
        state.within_board(),
        decided(state),
    ensures
        legal_of(state)[0] == Set::<Connect4Action>::empty(),
        legal_of(state)[1] == Set::<Connect4Action>::empty(),
        crate::engine::simulator::nobody_can_move(legal_of(state)),
{
}

/// While the game goes on, exactly one player can move: the first player
/// where the first player has at most as many pieces on the board as the
/// second, else the second player.
pub proof fn lemma_one_player_moves(state: &Connect4State)
    requires
        state.within_board(),
        !crate::engine::simulator::nobody_can_move(legal_of(state)),
    ensures
        super::util::ones(state.bit_board[0]) <= super::util::ones(state.bit_board[1]) ==> {
            &&& legal_of(state)[0] != Set::<Connect4Action>::empty()
            &&& legal_of(state)[1] == Set::<Connect4Action>::empty()
        },
        super::util::ones(state.bit_board[0]) > super::util::ones(state.bit_board[1]) ==> {
            &&& legal_of(state)[1] != Set::<Connect4Action>::empty()
            &&& legal_of(state)[0] == Set::<Connect4Action>::empty()
        },
{
}

/// Whether `states` are the states of a game played by the rules, and
/// `columns` the columns played in it: the game begins on the empty board,
/// and each state but the first comes from the one before by a legal move
/// of the player whose turn it is.
pub open spec fn is_game(states: Seq<Connect4State>, columns: Seq<u8>) -> bool {
    &&& states.len() == columns.len() + 1
    &&& is_empty_board(&states[0])
    &&& forall|i: int|
        #![trigger columns[i]]
        0 <= i < columns.len() ==> {
            &&& legal_of(&states[i])[states[i].turn()].contains(
                Connect4Action { location: columns[i] },
            )
            &&& is_move(&states[i], columns[i] as int, &states[i + 1])
        }
}

/// Whether play by the rules can reach `state` from the empty board.
pub open spec fn reachable(state: &Connect4State) -> bool {
    exists|states: Seq<Connect4State>, columns: Seq<u8>| #[trigger]
        is_game(states, columns) && states.last() == *state
}

/// Every state of a game played by the rules is a position: its pieces
/// stand in cells, no cell holds two pieces, every piece rests on the
/// bottom row or on another piece, and the players have moved in turn.
pub proof fn lemma_games_stay_in_position(states: Seq<Connect4State>, columns: Seq<u8>)
    requires
        is_game(states, columns),
    ensures
        forall|i: int| 0 <= i < states.len() ==> (#[trigger] states[i]).is_position(),
    decreases columns.len(),
{
    if columns.len() == 0 {
        lemma_empty_board(&states[0]);
    } else {
        let shorter = states.drop_last();
        let fewer = columns.drop_last();
        assert(is_game(shorter, fewer)) by {
            assert forall|i: int| #![trigger fewer[i]] 0 <= i < fewer.len() implies {
                &&& legal_of(&shorter[i])[shorter[i].turn()].contains(
                    Connect4Action { location: fewer[i] },
                )
                &&& is_move(&shorter[i], fewer[i] as int, &shorter[i + 1])
            } by {
                assert(fewer[i] == columns[i]);
            }
        }
        lemma_games_stay_in_position(shorter, fewer);
        let last = columns.len() - 1;
        let before = states[last];
        assert(shorter[last] == before);
        assert(before.is_position());
        lemma_legal_columns(&before);
        let played = Connect4Action { location: columns[last] };
        assert(legal_of(&before)[before.turn()].contains(played));
        lemma_move_keeps_position(&before, columns[last] as int, &states[last + 1]);
        assert forall|i: int| 0 <= i < states.len() implies (#[trigger] states[i]).is_position() by {
            if i < states.len() - 1 {
                assert(shorter[i] == states[i]);
            }
        }
    }
}

/// Every state that play can reach is a position, so what holds of the
/// positions holds of the states of every game.
pub proof fn lemma_reachable_is_position(state: &Connect4State)
    requires
        reachable(state),
    ensures
        state.is_position(),
        state.within_board(),
{
    let (states, columns) = choose|states: Seq<Connect4State>, columns: Seq<u8>| #[trigger]
        is_game(states, columns) && states.last() == *state;
    lemma_games_stay_in_position(states, columns);
}

/// Play reaches the empty board, and with a state every state that a legal
/// move of the player to move leads to.
pub proof fn lemma_reachable_grows(state: &Connect4State, column: u8, next: &Connect4State)
    ensures
        is_empty_board(state) ==> reachable(state),
        reachable(state) && legal_of(state)[state.turn()].contains(
            Connect4Action { location: column },
        ) && is_move(state, column as int, next) ==> reachable(next),
{
    if is_empty_board(state) {
        assert(is_game(seq![*state], Seq::<u8>::empty()));
        assert(seq![*state].last() == *state);
    }
    if reachable(state) && legal_of(state)[state.turn()].contains(
        Connect4Action { location: column },
    ) && is_move(state, column as int, next) {
        let (states, columns) = choose|states: Seq<Connect4State>, columns: Seq<u8>| #[trigger]
            is_game(states, columns) && states.last() == *state;
        let longer = states.push(*next);
        let more = columns.push(column);
        assert forall|i: int| #![trigger more[i]] 0 <= i < more.len() implies {
            &&& legal_of(&longer[i])[longer[i].turn()].contains(Connect4Action { location: more[i] })
            &&& is_move(&longer[i], more[i] as int, &longer[i + 1])
        } by {
            if i < columns.len() {
                assert(more[i] == columns[i]);
                assert(longer[i] == states[i]);
                assert(longer[i + 1] == states[i + 1]);
            } else {
                assert(longer[i] == *state);
                assert(longer[i + 1] == *next);
            }
        }
        assert(is_game(longer, more));
        assert(longer.last() == *next);
    }
}

/// A move that is not legal is refused: where the player to move is given
/// a column off the board, a column that is full, or any column once the
/// game is decided, the joint action is not one that the rules allow,
/// whatever else it holds. So `state_transition` cannot be called with it,
/// and `try_state_transition` gives a complaint and no state.
pub proof fn lemma_illegal_move_is_refused(
    state: &Connect4State,
    actions: Seq<Option<Connect4Action>>,
)
    requires
        state.within_board(),
        actions[state.turn()] is Some,
        ({
            let column = actions[state.turn()]->0.location as int;
            ||| decided(state)
            ||| column >= 7
            ||| super::util::bit_set(ABOVE_TOP_ROW, column_height(state, column))
        }),
    ensures
        !legal_of(state)[state.turn()].contains(actions[state.turn()]->0),
        !crate::engine::simulator::allowed(legal_of(state), actions),
{
    let column = actions[state.turn()]->0.location as int;
    if column < 7 {
        lemma_column_height(state, column);
        super::connect4_state::lemma_cells(column_height(state, column));
    }
    lemma_only_legal_columns_are_played(state, actions);
}

/// A move that the rules allow puts one piece on the board: into the
/// column chosen, on the lowest free cell of that column, which was empty
/// and is not the guard above the top row. No other cell changes.
pub proof fn lemma_move_lands_in_its_column(
    state: &Connect4State,
    actions: Seq<Option<Connect4Action>>,
    next: &Connect4State,
)
    requires
        state.within_board(),
        crate::engine::simulator::allowed(legal_of(state), actions),
        actions[state.turn()] is Some,
        follows(state, actions, next),
    ensures
        ({
            let column = actions[state.turn()]->0.location as int;
            let height = column_height(state, column);
            &&& 0 <= column < 7
            &&& 7 * column <= height < 7 * column + 6
            &&& !super::util::bit_set(ABOVE_TOP_ROW, height)
            &&& !super::util::bit_set(state.occupied(), height)
            &&& forall|index: int|
                super::util::bit_set(next.occupied(), index) <==> (super::util::bit_set(
                    state.occupied(),
                    index,
                ) || index == height)
            &&& next.within_board()
        }),
{
    let column = actions[state.turn()]->0.location as int;
    lemma_only_legal_columns_are_played(state, actions);
    lemma_legal_columns(state);
    lemma_move_bits(state, column, next);
    lemma_move_keeps_position(state, column, next);
    super::connect4_state::lemma_cells(column_height(state, column));
}

} // verus!
