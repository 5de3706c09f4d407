use vstd::prelude::*;

verus! {

/// The two timers a node may hold; at most one pending instance of each.
#[derive(Clone, Copy, Debug, PartialEq, Eq, Hash, Structural)]
pub enum RaftTimer {
    Election,
    Heartbeat,
}

} // verus!
