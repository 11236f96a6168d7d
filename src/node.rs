use crate::message::Message;
use vstd::prelude::*;

verus! {

/// Why a node could not process a message.
#[derive(Debug, Clone, Copy, PartialEq, Eq)]
pub enum NodeError {
    /// The payload is not one this node accepts.
    Unexpected,
    /// The message ids that the answer needs would run past `usize::MAX`.
    OutOfIds,
    /// A count would run past `usize::MAX`.
    Overflow,
}

/// The shape shared by every algorithm: built from its own id and the ids of
/// the cluster, it turns each inbound message, and each moment at which
/// time-driven work may be due, into the messages to send.
pub trait Node<P>: Sized {
    /// The node's well-formedness, kept by every step.
    spec fn inv(&self) -> bool;

    fn initialize(node_id: String, other: Vec<String>) -> (r: Self)
        ensures
            r.inv(),
    ;

    /// Processes one inbound message at time `now` (in milliseconds).
    fn handle(&mut self, msg: Message<P>, now: u64) -> (r: Result<Vec<Message<P>>, NodeError>)
        requires
            old(self).inv(),
        ensures
            final(self).inv(),
    ;

    /// Performs the time-driven work that is due at `now`.
    fn tick(&mut self, now: u64) -> (r: Result<Vec<Message<P>>, NodeError>)
        requires
            old(self).inv(),
        ensures
            final(self).inv(),
    ;

    /// The next moment at which `tick` has work to do, if any.
    fn deadline(&self) -> (r: Option<u64>)
        requires
            self.inv(),
    ;
}

} // verus!
