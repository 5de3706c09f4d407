use vstd::prelude::*;

use crate::messages::RaftMsg;
use crate::timers::RaftTimer;
use crate::types::NodeId;

verus! {

/// One effect that handling an event asks of the runtime around the node.
#[derive(Clone, Copy, Debug, PartialEq, Eq, Hash, Structural)]
pub enum Command {
    /// Deliver a message to a node.
    Send(NodeId, RaftMsg),
    /// Arm a timer (re-arming cancels a pending one of the same kind) with a
    /// duration drawn from `lo_ms..hi_ms`; `lo_ms == hi_ms` asks for exactly that duration.
    SetTimer(RaftTimer, u64, u64),
    /// Cancel a pending timer, if any.
    CancelTimer(RaftTimer),
}

/// The effects produced while handling events, in the order they were asked for.
#[derive(Clone, Debug, PartialEq, Eq)]
pub struct Out {
    pub commands: Vec<Command>,
}

impl View for Out {
    type V = Seq<Command>;

    open spec fn view(&self) -> Seq<Command> {
        self.commands@
    }
}

/// One `Send` of `msg` to each of `peers`, in order.
pub open spec fn broadcast_spec(peers: Seq<NodeId>, msg: RaftMsg) -> Seq<Command> {
    peers.map_values(|p: NodeId| Command::Send(p, msg))
}

impl Out {
    pub fn new() -> (r: Out)
        ensures
            r@ == Seq::<Command>::empty(),
    {
        Out { commands: Vec::new() }
    }

    pub fn send(&mut self, dst: NodeId, msg: RaftMsg)
        ensures
            final(self)@ == old(self)@.push(Command::Send(dst, msg)),
    {
        self.commands.push(Command::Send(dst, msg));
    }

    pub fn broadcast(&mut self, peers: &Vec<NodeId>, msg: &RaftMsg)
        ensures
            final(self)@ == old(self)@ + broadcast_spec(peers@, *msg),
    {
        let ghost start = self@;
        let mut i: usize = 0;
        while i < peers.len()
            invariant
                i <= peers@.len(),
                self@ == start + broadcast_spec(peers@.subrange(0, i as int), *msg),
            decreases peers@.len() - i,
        {
            self.commands.push(Command::Send(peers[i], *msg));
            proof {
                assert(peers@.subrange(0, i + 1) == peers@.subrange(0, i as int).push(peers@[i as int]));
                assert(broadcast_spec(peers@.subrange(0, i + 1), *msg) == broadcast_spec(
                    peers@.subrange(0, i as int),
                    *msg,
                ).push(Command::Send(peers@[i as int], *msg)));
            }
            i = i + 1;
        }
        proof {
            assert(peers@.subrange(0, i as int) == peers@);
        }
    }

    pub fn set_timer(&mut self, timer: RaftTimer, lo_ms: u64, hi_ms: u64)
        ensures
            final(self)@ == old(self)@.push(Command::SetTimer(timer, lo_ms, hi_ms)),
    {
        self.commands.push(Command::SetTimer(timer, lo_ms, hi_ms));
    }

    pub fn cancel_timer(&mut self, timer: RaftTimer)
        ensures
            final(self)@ == old(self)@.push(Command::CancelTimer(timer)),
    {
        self.commands.push(Command::CancelTimer(timer));
    }
}

} // verus!
