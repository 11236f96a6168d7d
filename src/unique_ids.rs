use crate::message::{is_reply_to, Body, Message};
use crate::node::{Node, NodeError};
use vstd::prelude::*;

verus! {

/// The messages of the id service.
#[derive(Debug, Clone, PartialEq, Eq)]
pub enum GeneratePayload {
    Generate,
    GenerateOk { id: String },
}

/// A node that hands out cluster-wide unique ids: its own id, a dash, and its
/// message counter.
#[derive(Debug)]
pub struct UniqueIdNode {
    pub node_id: String,
    pub msg_id: usize,
}

/// The decimal digits of `n`, most significant first.
pub open spec fn decimal(n: nat) -> Seq<char>
    decreases n,
{
    let digit = seq!['0', '1', '2', '3', '4', '5', '6', '7', '8', '9'][(n % 10) as int];
    if n < 10 {
        seq![digit]
    } else {
        decimal(n / 10).push(digit)
    }
}

/// The id text that node `node_id` hands out with counter value `n`.
pub open spec fn id_text(node_id: Seq<char>, n: nat) -> Seq<char> {
    node_id + seq!['-'] + decimal(n)
}

/// Relies on std's `format!` with `Display` for `String` and `usize`: the
/// text, a dash, and the number in decimal digits.
#[verifier::external_body]
fn format_id(node_id: &String, n: usize) -> (r: String)
    ensures
        r@ == id_text(node_id@, n as nat),
{
    format!("{}-{}", node_id, n)
}

/// `out` is the one answer to `msg`: a `GenerateOk` whose id is this node's id
/// and its counter after the step.
pub open spec fn generated(pre: UniqueIdNode, msg: Message<GeneratePayload>, post: UniqueIdNode, out: Seq<
    Message<GeneratePayload>,
>) -> bool {
    &&& out.len() == 1
    &&& is_reply_to(out[0], pre.node_id, msg, pre.msg_id)
    &&& out[0].body.payload matches GeneratePayload::GenerateOk { id } && id@ == id_text(
        pre.node_id@,
        (pre.msg_id + 1) as nat,
    )
    &&& post.msg_id == pre.msg_id + 1
    &&& post.node_id == pre.node_id
}

impl UniqueIdNode {
    /// A new id node, with its counter at 0.
    pub fn new(node_id: String) -> (r: Self)
        ensures
            r.node_id == node_id,
            r.msg_id == 0,
    {
        UniqueIdNode { node_id, msg_id: 0 }
    }

    /// Answers `msg` with a fresh id.
    pub fn handle_message(&mut self, msg: Message<GeneratePayload>) -> (r: Result<
        Vec<Message<GeneratePayload>>,
        NodeError,
    >)
        ensures
            old(self).msg_id == usize::MAX ==> r == Err::<Vec<Message<GeneratePayload>>, NodeError>(
                NodeError::OutOfIds,
            ) && *final(self) == *old(self),
            old(self).msg_id < usize::MAX ==> (r matches Ok(out) && generated(*old(self), msg, *final(self), out@)),
    {
        if self.msg_id == usize::MAX {
            return Err(NodeError::OutOfIds);
        }
        let old = self.msg_id;
        self.msg_id = self.msg_id + 1;
        let id = format_id(&self.node_id, self.msg_id);
        let reply = Message {
            src: self.node_id.clone(),
            dest: msg.src,
            body: Body { msg_id: Some(old), in_reply_to: msg.body.msg_id, payload: GeneratePayload::GenerateOk { id } },
        };
        let mut out: Vec<Message<GeneratePayload>> = Vec::new();
        out.push(reply);
        Ok(out)
    }
}

impl Node<GeneratePayload> for UniqueIdNode {
    open spec fn inv(&self) -> bool {
        true
    }

    fn initialize(node_id: String, other: Vec<String>) -> (r: Self)
        ensures
            r.node_id == node_id,
            r.msg_id == 0,
    {
        UniqueIdNode::new(node_id)
    }

    /// See `handle_message`.
    fn handle(&mut self, msg: Message<GeneratePayload>, now: u64) -> (r: Result<Vec<Message<GeneratePayload>>, NodeError>)
        ensures
            old(self).msg_id == usize::MAX ==> r == Err::<Vec<Message<GeneratePayload>>, NodeError>(
                NodeError::OutOfIds,
            ) && *final(self) == *old(self),
            old(self).msg_id < usize::MAX ==> (r matches Ok(out) && generated(*old(self), msg, *final(self), out@)),
    {
        self.handle_message(msg)
    }

    fn tick(&mut self, now: u64) -> (r: Result<Vec<Message<GeneratePayload>>, NodeError>)
        ensures
            r matches Ok(out) && out@.len() == 0,
            *final(self) == *old(self),
    {
        Ok(Vec::new())
    }

    fn deadline(&self) -> (r: Option<u64>)
        ensures
            r is None,
    {
        None
    }
}

} // verus!
