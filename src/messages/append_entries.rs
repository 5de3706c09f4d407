use vstd::prelude::*;

use crate::types::Term;

verus! {

/// A leader's heartbeat; this variant carries no log entries.
#[derive(Clone, Copy, Debug, PartialEq, Eq, Hash, Structural)]
pub struct Request {
    pub term: Term,
}

/// The answer to a heartbeat, given at the responder's current term.
#[derive(Clone, Copy, Debug, PartialEq, Eq, Hash, Structural)]
pub struct Response {
    pub term: Term,
    pub success: bool,
}

} // verus!
