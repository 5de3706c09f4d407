use vstd::prelude::*;

verus! {

/// What a leader holds: how often its heartbeat timer fired in a row.
#[derive(Clone, Copy, Debug, PartialEq, Eq, Hash, Structural)]
pub struct State {
    pub n_consecutive_timeouts: usize,
}

impl Default for State {
    fn default() -> (r: State)
        ensures
            r.n_consecutive_timeouts == 0,
    {
        State { n_consecutive_timeouts: 0 }
    }
}

} // verus!
