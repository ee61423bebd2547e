//! The size of the board and the masks of its rows.
//!
//! Column `c` takes the bits `7 * c` to `7 * c + 6` of a board word. Its six
//! lowest bits are the cells of the column from the bottom up. The seventh
//! is a guard above the top cell, which no piece ever takes.
//!
//! ```text
//! .  .  .  .  .  .  .   guard row
//! 5 12 19 26 33 40 47
//! 4 11 18 25 32 39 46
//! 3 10 17 24 31 38 45
//! 2  9 16 23 30 37 44
//! 1  8 15 22 29 36 43
//! 0  7 14 21 28 35 42
//! ```

use vstd::prelude::*;

verus! {

/// The number of columns.
pub const BOARD_WIDTH: usize = 7;

/// The number of rows.
pub const BOARD_HEIGHT: usize = 6;

/// The number of players.
pub const N_PLAYERS: usize = 2;

/// The number of bits that a column takes: its cells and its guard.
pub const COLUMN_BITS: usize = 7;

/// The number of bits that the board takes.
pub const BOARD_BITS: usize = 49;

/// Every bit of the board, guards included.
pub const ALL_LOCATIONS: u64 = 0x1_ffff_ffff_ffff;

/// Every bit of the first column, guard included.
pub const FIRST_COLUMN: u64 = 0x7f;

/// The lowest cell of every column.
pub const BOTTOM_ROW: u64 = 0x408_1020_4081;

/// The guard of every column.
pub const ABOVE_TOP_ROW: u64 = 0x1_0204_0810_2040;

/// Every cell of the board, guards left out.
pub const CELLS: u64 = 0xfdfb_f7ef_dfbf;

} // verus!
