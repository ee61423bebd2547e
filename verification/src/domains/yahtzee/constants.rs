//! The sizes of the dice game.

use vstd::prelude::*;

verus! {

/// The number of faces of a die.
pub const N_VALUES: usize = 6;

/// The number of dice.
pub const N_DICE: usize = 5;

/// The number of categories.
pub const N_CATEGORIES: usize = 13;

} // verus!
