//! Where a game begins.

use vstd::prelude::*;

use super::simulator::State;

verus! {

/// Something that can give a state to begin a game from.
pub trait InitialStateGenerator {
    type S: State;

    /// The states in which a game may begin. A generator states its own by
    /// overriding this.
    open spec fn may_start(state: &Self::S) -> bool {
        true
    }

    /// Generates an initial state for the domain. The initial state
    /// returned is not necessarily always the same state.
    fn generate_initial_state(&self) -> (state: Self::S)
        ensures
            Self::may_start(&state),
    ;
}

} // verus!
