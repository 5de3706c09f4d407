use vstd::prelude::*;

pub mod append_entries;
pub mod request_vote;

verus! {

/// The closed set of messages exchanged between nodes.
#[derive(Clone, Copy, Debug, PartialEq, Eq, Hash, Structural)]
pub enum RaftMsg {
    RequestVoteReq(request_vote::Request),
    RequestVoteRes(request_vote::Response),
    AppendEntriesReq(append_entries::Request),
    AppendEntriesRes(append_entries::Response),
}

} // verus!
