use crate::message::{is_reply_to, Body, Message};
use crate::node::{Node, NodeError};
use vstd::prelude::*;

verus! {

/// The messages of the echo service.
#[derive(Debug, Clone, PartialEq, Eq)]
pub enum EchoPayload {
    Echo { echo: String },
    EchoOk { echo: String },
}

/// A node that sends every `echo` text straight back.
#[derive(Debug)]
pub struct EchoNode {
    pub node_id: String,
    pub msg_id: usize,
}

/// `out` is the one answer to the `Echo` in `msg`: an `EchoOk` with the same
/// text, under the next id.
pub open spec fn echoed(pre: EchoNode, msg: Message<EchoPayload>, post: EchoNode, out: Seq<Message<EchoPayload>>) -> bool {
    &&& out.len() == 1
    &&& is_reply_to(out[0], pre.node_id, msg, pre.msg_id)
    &&& out[0].body.payload == (EchoPayload::EchoOk { echo: msg.body.payload->Echo_echo })
    &&& post.msg_id == pre.msg_id + 1
}

impl EchoNode {
    /// A new echo node, numbering its messages from 0.
    pub fn new(node_id: String) -> (r: Self)
        ensures
            r.node_id == node_id,
            r.msg_id == 0,
    {
        EchoNode { node_id, msg_id: 0 }
    }

    /// Hands out the next message id.
    pub fn get_and_increment_id(&mut self) -> (id: usize)
        requires
            old(self).msg_id < usize::MAX,
        ensures
            id == old(self).msg_id,
            final(self).msg_id == old(self).msg_id + 1,
            final(self).node_id == old(self).node_id,
    {
        let old = self.msg_id;
        self.msg_id = self.msg_id + 1;
        old
    }

    /// A message from this node to `dest` under the next id.
    pub fn generate_message(&mut self, payload: EchoPayload, dest: String, in_reply_to: Option<usize>) -> (r:
        Message<EchoPayload>)
        requires
            old(self).msg_id < usize::MAX,
        ensures
            r == (Message {
                src: old(self).node_id,
                dest,
                body: Body { msg_id: Some(old(self).msg_id), in_reply_to, payload },
            }),
            final(self).msg_id == old(self).msg_id + 1,
            final(self).node_id == old(self).node_id,
    {
        let src = self.node_id.clone();
        let id = self.get_and_increment_id();
        Message { src, dest, body: Body { msg_id: Some(id), in_reply_to, payload } }
    }

    /// Appends to `out` the answer to `msg` that carries `payload`.
    pub fn send_response(&mut self, msg: &Message<EchoPayload>, payload: EchoPayload, out: &mut Vec<Message<EchoPayload>>)
        requires
            old(self).msg_id < usize::MAX,
        ensures
            final(out)@ == old(out)@.push(
                Message {
                    src: old(self).node_id,
                    dest: msg.src,
                    body: Body { msg_id: Some(old(self).msg_id), in_reply_to: msg.body.msg_id, payload },
                },
            ),
            final(self).msg_id == old(self).msg_id + 1,
            final(self).node_id == old(self).node_id,
    {
        let dest = msg.src.clone();
        let m = self.generate_message(payload, dest, msg.body.msg_id);
        out.push(m);
    }

    /// Answers an `Echo` with an `EchoOk` that carries the same text; an
    /// `EchoOk` is not accepted.
    pub fn handle_message(&mut self, msg: Message<EchoPayload>) -> (r: Result<Vec<Message<EchoPayload>>, NodeError>)
        ensures
            final(self).node_id == old(self).node_id,
            msg.body.payload is EchoOk ==> r == Err::<Vec<Message<EchoPayload>>, NodeError>(NodeError::Unexpected)
                && *final(self) == *old(self),
            msg.body.payload is Echo && old(self).msg_id == usize::MAX ==> r == Err::<
                Vec<Message<EchoPayload>>,
                NodeError,
            >(NodeError::OutOfIds) && *final(self) == *old(self),
            msg.body.payload is Echo && old(self).msg_id < usize::MAX ==> (r matches Ok(out) && echoed(
                *old(self),
                msg,
                *final(self),
                out@,
            )),
    {
        match msg.body.payload {
            EchoPayload::Echo { ref echo } => {
                if self.msg_id == usize::MAX {
                    return Err(NodeError::OutOfIds);
                }
                let text = echo.clone();
                let mut out: Vec<Message<EchoPayload>> = Vec::new();
                self.send_response(&msg, EchoPayload::EchoOk { echo: text }, &mut out);
                Ok(out)
            },
            EchoPayload::EchoOk { .. } => Err(NodeError::Unexpected),
        }
    }
}

impl Node<EchoPayload> for EchoNode {
    open spec fn inv(&self) -> bool {
        true
    }

    fn initialize(node_id: String, other: Vec<String>) -> (r: Self)
        ensures
            r.node_id == node_id,
            r.msg_id == 0,
    {
        EchoNode::new(node_id)
    }

    /// See `handle_message`.
    fn handle(&mut self, msg: Message<EchoPayload>, now: u64) -> (r: Result<Vec<Message<EchoPayload>>, NodeError>)
        ensures
            final(self).node_id == old(self).node_id,
            msg.body.payload is EchoOk ==> r == Err::<Vec<Message<EchoPayload>>, NodeError>(NodeError::Unexpected)
                && *final(self) == *old(self),
            msg.body.payload is Echo && old(self).msg_id == usize::MAX ==> r == Err::<
                Vec<Message<EchoPayload>>,
                NodeError,
            >(NodeError::OutOfIds) && *final(self) == *old(self),
            msg.body.payload is Echo && old(self).msg_id < usize::MAX ==> (r matches Ok(out) && echoed(
                *old(self),
                msg,
                *final(self),
                out@,
            )),
    {
        self.handle_message(msg)
    }

    fn tick(&mut self, now: u64) -> (r: Result<Vec<Message<EchoPayload>>, NodeError>)
        ensures
            r matches Ok(out) && out@.len() == 0,
            *final(self) == *old(self),
    {
        Ok(Vec::new())
    }

    fn deadline(&self) -> (r: Option<u64>)
        ensures
            r is None,
    {
        None
    }
}

} // verus!
