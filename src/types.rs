use vstd::prelude::*;

verus! {

/// A node's logical clock: the election epoch it believes is current.
pub type Term = u64;

/// The identity of a participant, unique in its cluster.
pub type NodeId = usize;

} // verus!
