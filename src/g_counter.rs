use crate::keyed::{keys_unique, store, stores};
use crate::message::{all_but, all_but_exec, is_reply_to, Body, Message};
use crate::node::{Node, NodeError};
use vstd::prelude::*;

verus! {

/// How long, in milliseconds, a counter node stays without input before it
/// tells its peers its own count.
pub const REPLICATE_AFTER_MS: u64 = 500;

/// The messages of the grow-only counter.
#[derive(Debug, Clone, PartialEq, Eq)]
pub enum CounterPayload {
    Add { delta: usize },
    AddOk,
    Read,
    ReadOk { value: usize },
    Replicate { value: usize },
}

/// A member of a grow-only counter: its own count, the last count heard from
/// each peer, and the count it last told its peers.
#[derive(Debug)]
pub struct GCounterNode {
    pub node_id: String,
    pub msg_id: usize,
    pub nodes: Vec<String>,
    pub value: usize,
    pub others: Vec<(String, usize)>,
    pub last_replicated: usize,
    pub last_heard: u64,
}

/// The sum of the counts in `s`.
pub open spec fn total(s: Seq<(String, usize)>) -> int
    decreases s.len(),
{
    if s.len() == 0 {
        0
    } else {
        total(s.drop_last()) + s.last().1
    }
}

/// The count that `node` reports: its own plus the last heard from each peer.
pub open spec fn counter_value(node: GCounterNode) -> int {
    node.value + total(node.others@)
}

/// `Replicate { value }` from `src` to each of `peers`, numbered from `id0` on.
pub open spec fn replicas(src: String, peers: Seq<String>, id0: int, value: usize) -> Seq<Message<CounterPayload>> {
    Seq::new(
        peers.len(),
        |j: int|
            Message {
                src,
                dest: peers[j],
                body: Body {
                    msg_id: Some((id0 + j) as usize),
                    in_reply_to: None,
                    payload: CounterPayload::Replicate { value },
                },
            },
    )
}

/// The counter's state apart from its id counter, its own count and the
/// moment it last heard something is that of `pre`.
pub open spec fn counter_same(pre: GCounterNode, post: GCounterNode) -> bool {
    &&& post.node_id == pre.node_id
    &&& post.nodes@ == pre.nodes@
    &&& post.last_replicated == pre.last_replicated
}

/// The outcome of an accepted message that did not fail: `Add` adds to the
/// node's own count and is acknowledged; `Read` is answered with the total;
/// `Replicate` records the sender's count and is not answered.
pub open spec fn counted(
    pre: GCounterNode,
    msg: Message<CounterPayload>,
    now: u64,
    post: GCounterNode,
    out: Seq<Message<CounterPayload>>,
) -> bool {
    &&& counter_same(pre, post)
    &&& post.last_heard == now
    &&& match msg.body.payload {
        CounterPayload::Add { delta } => {
            &&& post.value == pre.value + delta
            &&& post.others@ == pre.others@
            &&& post.msg_id == pre.msg_id + 1
            &&& out.len() == 1
            &&& is_reply_to(out[0], pre.node_id, msg, pre.msg_id)
            &&& out[0].body.payload is AddOk
        },
        CounterPayload::Read => {
            &&& post.value == pre.value
            &&& post.others@ == pre.others@
            &&& post.msg_id == pre.msg_id + 1
            &&& out.len() == 1
            &&& is_reply_to(out[0], pre.node_id, msg, pre.msg_id)
            &&& out[0].body.payload == (CounterPayload::ReadOk { value: counter_value(pre) as usize })
        },
        CounterPayload::Replicate { value } => {
            &&& post.value == pre.value
            &&& stores(pre.others@, msg.src@, value, post.others@)
            &&& post.msg_id == pre.msg_id
            &&& out.len() == 0
        },
        _ => false,
    }
}

/// The error, if any, that processing `msg` gives `node`.
pub open spec fn counter_error(node: GCounterNode, msg: Message<CounterPayload>) -> Option<NodeError> {
    match msg.body.payload {
        CounterPayload::Add { delta } => if node.msg_id == usize::MAX {
            Some(NodeError::OutOfIds)
        } else if node.value + delta > usize::MAX {
            Some(NodeError::Overflow)
        } else {
            None
        },
        CounterPayload::Read => if node.msg_id == usize::MAX {
            Some(NodeError::OutOfIds)
        } else if counter_value(node) > usize::MAX {
            Some(NodeError::Overflow)
        } else {
            None
        },
        CounterPayload::Replicate { .. } => None,
        _ => Some(NodeError::Unexpected),
    }
}

/// A prefix of the counts never sums to more than all of them.
pub proof fn lemma_total_prefix(s: Seq<(String, usize)>, i: int)
    requires
        0 <= i <= s.len(),
    ensures
        total(s.subrange(0, i)) <= total(s),
    decreases s.len() - i,
{
    if i < s.len() {
        let t = s.subrange(0, i + 1);
        assert(t.drop_last() =~= s.subrange(0, i));
        lemma_total_prefix(s, i + 1);
    } else {
        assert(s.subrange(0, i) =~= s);
    }
}

impl GCounterNode {
    /// Peers' counts are kept under distinct ids.
    pub open spec fn wf(&self) -> bool {
        keys_unique(self.others@)
    }

    /// A new counter at 0 in a cluster of `nodes`.
    pub fn new(node_id: String, nodes: Vec<String>) -> (r: Self)
        ensures
            r.wf(),
            r.node_id == node_id,
            r.nodes == nodes,
            r.msg_id == 0,
            r.value == 0,
            r.others@.len() == 0,
            r.last_replicated == 0,
            r.last_heard == 0,
    {
        GCounterNode {
            node_id,
            msg_id: 0,
            nodes,
            value: 0,
            others: Vec::new(),
            last_replicated: 0,
            last_heard: 0,
        }
    }

    /// Hands out the next message id.
    pub fn get_and_increment_id(&mut self) -> (id: usize)
        requires
            old(self).msg_id < usize::MAX,
        ensures
            id == old(self).msg_id,
            final(self).msg_id == old(self).msg_id + 1,
            *final(self) == (GCounterNode { msg_id: final(self).msg_id, ..*old(self) }),
    {
        let old = self.msg_id;
        self.msg_id = self.msg_id + 1;
        old
    }

    /// A message from this node to `dest` under the next id.
    pub fn generate_message(&mut self, payload: CounterPayload, dest: String, in_reply_to: Option<usize>) -> (r:
        Message<CounterPayload>)
        requires
            old(self).msg_id < usize::MAX,
        ensures
            r == (Message {
                src: old(self).node_id,
                dest,
                body: Body { msg_id: Some(old(self).msg_id), in_reply_to, payload },
            }),
            final(self).msg_id == old(self).msg_id + 1,
            *final(self) == (GCounterNode { msg_id: final(self).msg_id, ..*old(self) }),
    {
        let src = self.node_id.clone();
        let id = self.get_and_increment_id();
        Message { src, dest, body: Body { msg_id: Some(id), in_reply_to, payload } }
    }

    /// The node's own count plus every peer's, or `None` past `usize::MAX`.
    pub fn read_total(&self) -> (r: Option<usize>)
        ensures
            r matches Some(t) ==> t == counter_value(*self),
            r is None <==> counter_value(*self) > usize::MAX,
    {
        let mut acc: usize = self.value;
        let mut i: usize = 0;
        while i < self.others.len()
            invariant
                i <= self.others@.len(),
                acc == self.value + total(self.others@.subrange(0, i as int)),
            decreases self.others@.len() - i,
        {
            proof {
                let t = self.others@.subrange(0, i + 1);
                assert(t.drop_last() =~= self.others@.subrange(0, i as int));
            }
            if acc > usize::MAX - self.others[i].1 {
                proof {
                    lemma_total_prefix(self.others@, i + 1);
                }
                return None;
            }
            acc = acc + self.others[i].1;
            i = i + 1;
        }
        proof {
            assert(self.others@.subrange(0, i as int) =~= self.others@);
        }
        Some(acc)
    }

    /// Processes one inbound message at time `now`; see `counted` for what an
    /// accepted one does and `counter_error` for which fail, leaving the node
    /// as it was.
    pub fn handle_message(&mut self, msg: Message<CounterPayload>, now: u64) -> (r: Result<
        Vec<Message<CounterPayload>>,
        NodeError,
    >)
        requires
            old(self).wf(),
        ensures
            final(self).wf(),
            counter_error(*old(self), msg) matches Some(e) ==> r == Err::<Vec<Message<CounterPayload>>, NodeError>(
                e,
            ) && *final(self) == *old(self),
            counter_error(*old(self), msg) is None ==> (r matches Ok(out) && counted(
                *old(self),
                msg,
                now,
                *final(self),
                out@,
            )),
    {
        let mut out: Vec<Message<CounterPayload>> = Vec::new();
        match msg.body.payload {
            CounterPayload::Add { delta } => {
                if self.msg_id == usize::MAX {
                    return Err(NodeError::OutOfIds);
                }
                if self.value > usize::MAX - delta {
                    return Err(NodeError::Overflow);
                }
                self.value = self.value + delta;
                let m = self.generate_message(CounterPayload::AddOk, msg.src.clone(), msg.body.msg_id);
                out.push(m);
            },
            CounterPayload::Read => {
                if self.msg_id == usize::MAX {
                    return Err(NodeError::OutOfIds);
                }
                match self.read_total() {
                    None => {
                        return Err(NodeError::Overflow);
                    },
                    Some(t) => {
                        let m = self.generate_message(CounterPayload::ReadOk { value: t }, msg.src.clone(), msg.body.msg_id);
                        out.push(m);
                    },
                }
            },
            CounterPayload::Replicate { value } => {
                store(&mut self.others, msg.src.clone(), value);
            },
            _ => {
                return Err(NodeError::Unexpected);
            },
        }
        self.last_heard = now;
        Ok(out)
    }

    /// Whether the node has been without input for `REPLICATE_AFTER_MS` at `now`.
    pub open spec fn idle_at(&self, now: u64) -> bool {
        now >= self.last_heard && now - self.last_heard >= REPLICATE_AFTER_MS
    }

    /// After `REPLICATE_AFTER_MS` without input, tells every other node of the
    /// cluster its own count, if that changed since it last did; the wait then
    /// starts again from `now`.
    pub fn replicate(&mut self, now: u64) -> (r: Result<Vec<Message<CounterPayload>>, NodeError>)
        requires
            old(self).wf(),
        ensures
            final(self).wf(),
            !old(self).idle_at(now) ==> (r matches Ok(out) && out@.len() == 0) && *final(self) == *old(self),
            old(self).idle_at(now) && old(self).last_replicated == old(self).value ==> (r matches Ok(out)
                && out@.len() == 0) && *final(self) == (GCounterNode { last_heard: now, ..*old(self) }),
            old(self).idle_at(now) && old(self).last_replicated != old(self).value && old(self).msg_id + all_but(
                old(self).nodes@,
                old(self).node_id@,
            ).len() > usize::MAX ==> r == Err::<Vec<Message<CounterPayload>>, NodeError>(NodeError::OutOfIds)
                && *final(self) == *old(self),
            old(self).idle_at(now) && old(self).last_replicated != old(self).value && old(self).msg_id + all_but(
                old(self).nodes@,
                old(self).node_id@,
            ).len() <= usize::MAX ==> (r matches Ok(out) && out@ == replicas(
                old(self).node_id,
                all_but(old(self).nodes@, old(self).node_id@),
                old(self).msg_id as int,
                old(self).value,
            )) && final(self).msg_id == old(self).msg_id + all_but(old(self).nodes@, old(self).node_id@).len()
                && *final(self) == (GCounterNode {
                msg_id: final(self).msg_id,
                last_replicated: old(self).value,
                last_heard: now,
                ..*old(self)
            }),
    {
        if !(now >= self.last_heard && now - self.last_heard >= REPLICATE_AFTER_MS) {
            return Ok(Vec::new());
        }
        if self.last_replicated == self.value {
            self.last_heard = now;
            return Ok(Vec::new());
        }
        let peers = all_but_exec(&self.nodes, &self.node_id);
        if self.msg_id > usize::MAX - peers.len() {
            return Err(NodeError::OutOfIds);
        }
        let ghost pre = *self;
        let mut out: Vec<Message<CounterPayload>> = Vec::new();
        let mut i: usize = 0;
        while i < peers.len()
            invariant
                i <= peers@.len(),
                pre.msg_id + peers@.len() <= usize::MAX,
                self.msg_id == pre.msg_id + i,
                *self == (GCounterNode { msg_id: self.msg_id, ..pre }),
                out@ == replicas(pre.node_id, peers@.subrange(0, i as int), pre.msg_id as int, pre.value),
            decreases peers@.len() - i,
        {
            let m = self.generate_message(CounterPayload::Replicate { value: self.value }, peers[i].clone(), None);
            out.push(m);
            i = i + 1;
            proof {
                assert(out@ =~= replicas(pre.node_id, peers@.subrange(0, i as int), pre.msg_id as int, pre.value));
            }
        }
        proof {
            assert(peers@.subrange(0, i as int) =~= peers@);
        }
        self.last_replicated = self.value;
        self.last_heard = now;
        Ok(out)
    }

    /// When the node next has a chance to replicate, if no input comes first.
    pub fn next_replication(&self) -> (r: u64)
        ensures
            r == if self.last_heard <= u64::MAX - REPLICATE_AFTER_MS {
                (self.last_heard + REPLICATE_AFTER_MS) as u64
            } else {
                u64::MAX
            },
    {
        if self.last_heard <= u64::MAX - REPLICATE_AFTER_MS {
            self.last_heard + REPLICATE_AFTER_MS
        } else {
            u64::MAX
        }
    }
}

impl Node<CounterPayload> for GCounterNode {
    open spec fn inv(&self) -> bool {
        self.wf()
    }

    fn initialize(node_id: String, other: Vec<String>) -> (r: Self)
        ensures
            r.wf(),
            r.node_id == node_id,
            r.nodes == other,
            r.msg_id == 0,
            r.value == 0,
            r.others@.len() == 0,
            r.last_replicated == 0,
            r.last_heard == 0,
    {
        GCounterNode::new(node_id, other)
    }

    /// See `handle_message`.
    fn handle(&mut self, msg: Message<CounterPayload>, now: u64) -> (r: Result<Vec<Message<CounterPayload>>, NodeError>)
        ensures
            final(self).wf(),
            counter_error(*old(self), msg) matches Some(e) ==> r == Err::<Vec<Message<CounterPayload>>, NodeError>(
                e,
            ) && *final(self) == *old(self),
            counter_error(*old(self), msg) is None ==> (r matches Ok(out) && counted(
                *old(self),
                msg,
                now,
                *final(self),
                out@,
            )),
    {
        self.handle_message(msg, now)
    }

    fn tick(&mut self, now: u64) -> (r: Result<Vec<Message<CounterPayload>>, NodeError>)
        ensures
            final(self).wf(),
            !old(self).idle_at(now) ==> (r matches Ok(out) && out@.len() == 0) && *final(self) == *old(self),
            old(self).idle_at(now) && old(self).last_replicated == old(self).value ==> (r matches Ok(out)
                && out@.len() == 0) && *final(self) == (GCounterNode { last_heard: now, ..*old(self) }),
            old(self).idle_at(now) && old(self).last_replicated != old(self).value && old(self).msg_id + all_but(
                old(self).nodes@,
                old(self).node_id@,
            ).len() > usize::MAX ==> r == Err::<Vec<Message<CounterPayload>>, NodeError>(NodeError::OutOfIds)
                && *final(self) == *old(self),
            old(self).idle_at(now) && old(self).last_replicated != old(self).value && old(self).msg_id + all_but(
                old(self).nodes@,
                old(self).node_id@,
            ).len() <= usize::MAX ==> (r matches Ok(out) && out@ == replicas(
                old(self).node_id,
                all_but(old(self).nodes@, old(self).node_id@),
                old(self).msg_id as int,
                old(self).value,
            )) && final(self).msg_id == old(self).msg_id + all_but(old(self).nodes@, old(self).node_id@).len()
                && *final(self) == (GCounterNode {
                msg_id: final(self).msg_id,
                last_replicated: old(self).value,
                last_heard: now,
                ..*old(self)
            }),
    {
        self.replicate(now)
    }

    fn deadline(&self) -> (r: Option<u64>)
        ensures
            r == Some(
                if self.last_heard <= u64::MAX - REPLICATE_AFTER_MS {
                    (self.last_heard + REPLICATE_AFTER_MS) as u64
                } else {
                    u64::MAX
                },
            ),
    {
        Some(self.next_replication())
    }
}

} // verus!
