use vstd::prelude::*;

use crate::types::Term;

verus! {

/// A candidate asks for a vote in `term`.
#[derive(Clone, Copy, Debug, PartialEq, Eq, Hash, Structural)]
pub struct Request {
    pub term: Term,
}

/// The answer to a vote request, given at the responder's current term.
#[derive(Clone, Copy, Debug, PartialEq, Eq, Hash, Structural)]
pub struct Response {
    pub term: Term,
    pub granted: bool,
}

} // verus!
