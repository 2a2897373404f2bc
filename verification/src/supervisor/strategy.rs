//! What a failing child means for its siblings.

use vstd::prelude::*;

verus! {

/// Restart strategy that determines how sibling children are affected when one
/// child exits unexpectedly.
#[derive(Clone, Copy, Debug, PartialEq, Eq, Structural)]
pub enum Strategy {
    /// Only the exited child is restarted. Other children are unaffected.
    OneForOne,
    /// All children are stopped and restarted when any single child exits
    /// unexpectedly.
    OneForAll,
}

impl Default for Strategy {
    fn default() -> (r: Self)
        ensures
            r is OneForOne,
    {
        Strategy::OneForOne
    }
}

} // verus!
