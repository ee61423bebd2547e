//! A move of Connect Four.

use vstd::prelude::*;
use vstd::string::StringExecFns;

use crate::engine::simulator::Action;
use crate::text::decimal_text;

verus! {

/// The column into which a player drops a piece, columns counted from 0 at
/// the left.
#[derive(Clone, Copy, Debug, Hash, PartialEq, Eq, Structural)]
pub struct Connect4Action {
    pub location: u8,
}

impl Action for Connect4Action {
    /// The column as players count it, from 1, in round brackets.
    open spec fn text(&self) -> Seq<char> {
        seq!['('] + crate::text::decimal((self.location + 1) as nat) + seq![')']
    }

    fn same(&self, other: &Self) -> (same: bool) {
        self.location == other.location
    }

    fn to_string(&self) -> (rendered: String) {
        proof {
            reveal_strlit("(");
            reveal_strlit(")");
        }
        let mut rendered: String = String::from_str("(");
        rendered.append(decimal_text(self.location as u64 + 1).as_str());
        rendered.append(")");
        assert(rendered@ =~= self.text());
        rendered
    }
}

} // verus!
