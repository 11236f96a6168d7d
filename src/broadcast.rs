use crate::message::{
    all_but, all_but_exec, distinct_exec, distinct_ids, is_reply_to, lemma_all_but_excludes, lemma_distinct_ids, Body,
    Message,
};
use crate::node::{Node, NodeError};
use vstd::prelude::*;

verus! {

/// How long, in milliseconds, a gossip message may go unacknowledged before it
/// is sent again.
pub const RETRY_AFTER_MS: u64 = 300;

/// The messages of the broadcast protocol.
#[derive(Debug, Clone, PartialEq, Eq)]
pub enum BroadcastPayload {
    Broadcast { message: usize },
    BroadcastOk,
    Read,
    ReadOk { messages: Vec<usize> },
    Topology { topology: Vec<(String, Vec<String>)> },
    TopologyOk,
}

/// A gossip message that has not been acknowledged yet, with the time at
/// which it was last sent.
#[derive(Debug, Clone, PartialEq, Eq)]
pub struct Pending {
    pub sent_at: u64,
    pub message: Message<BroadcastPayload>,
}

/// A member of the gossip network: the values it knows, the neighbours it
/// passes new values on to, and the gossip still awaiting acknowledgment.
#[derive(Debug)]
pub struct BroadcastNode {
    pub node_id: String,
    pub msg_id: usize,
    pub values: Vec<usize>,
    pub neighbors: Vec<String>,
    pub pending: Vec<Pending>,
}

/// The gossip message that carries `v` from `src` to `dest` under id `id`.
pub open spec fn gossip(src: String, dest: String, id: usize, v: usize) -> Message<BroadcastPayload> {
    Message {
        src,
        dest,
        body: Body { msg_id: Some(id), in_reply_to: None, payload: BroadcastPayload::Broadcast { message: v } },
    }
}

/// The id of a pending gossip message as an integer (`-1` for none).
pub open spec fn pid(p: Pending) -> int {
    match p.message.body.msg_id {
        Some(id) => id as int,
        None => -1,
    }
}

/// The gossip of `v` from `src` to each of `targets`, numbered from `id0` on.
pub open spec fn fanout(src: String, targets: Seq<String>, id0: int, v: usize) -> Seq<Message<BroadcastPayload>> {
    Seq::new(targets.len(), |j: int| gossip(src, targets[j], (id0 + j) as usize, v))
}

/// Each message of `ms`, recorded as sent at `now`.
pub open spec fn sent_at(ms: Seq<Message<BroadcastPayload>>, now: u64) -> Seq<Pending> {
    Seq::new(ms.len(), |j: int| Pending { sent_at: now, message: ms[j] })
}

/// The neighbour list that `adjacency` assigns to `id`: that of its first
/// entry for `id`, or none.
pub open spec fn assigned(adjacency: Seq<(String, Vec<String>)>, id: Seq<char>) -> Seq<String>
    decreases adjacency.len(),
{
    if adjacency.len() == 0 {
        Seq::empty()
    } else if adjacency[0].0@ == id {
        adjacency[0].1@
    } else {
        assigned(adjacency.drop_first(), id)
    }
}

/// The neighbours that an assigned list gives node `id`: its entries other
/// than `id`, each text once.
pub open spec fn neighbor_set(assigned: Seq<String>, id: Seq<char>) -> Seq<String> {
    distinct_ids(all_but(assigned, id))
}

/// A pending entry is due for another send at `now`.
pub open spec fn is_stale(p: Pending, now: u64) -> bool {
    now >= p.sent_at && now - p.sent_at >= RETRY_AFTER_MS
}

/// The messages of the entries of `ps` that are due at `now`, in order.
pub open spec fn stale_messages(ps: Seq<Pending>, now: u64) -> Seq<Message<BroadcastPayload>>
    decreases ps.len(),
{
    if ps.len() == 0 {
        Seq::empty()
    } else {
        let r = stale_messages(ps.drop_last(), now);
        if is_stale(ps.last(), now) {
            r.push(ps.last().message)
        } else {
            r
        }
    }
}

/// `ps` after the sweep at `now`: each due entry is stamped with `now`.
pub open spec fn restamped(ps: Seq<Pending>, now: u64) -> Seq<Pending> {
    Seq::new(
        ps.len(),
        |i: int|
            if is_stale(ps[i], now) {
                Pending { sent_at: now, message: ps[i].message }
            } else {
                ps[i]
            },
    )
}

/// `RETRY_AFTER_MS` after `t`, or the largest time if that overflows.
pub open spec fn retry_time(t: u64) -> u64 {
    if t <= u64::MAX - RETRY_AFTER_MS {
        (t + RETRY_AFTER_MS) as u64
    } else {
        u64::MAX
    }
}

/// `post` and `out` are what delivering `Broadcast { message: v }` in `msg` to
/// `pre` at `now` gives: an acknowledgment first; then, for a value not known
/// yet, the value is learned and gossiped to every neighbour but the sender,
/// each gossip message recorded as pending.
pub open spec fn delivered(
    pre: BroadcastNode,
    msg: Message<BroadcastPayload>,
    v: usize,
    now: u64,
    post: BroadcastNode,
    out: Seq<Message<BroadcastPayload>>,
) -> bool {
    let targets = all_but(pre.neighbors@, msg.src@);
    &&& out.len() >= 1
    &&& is_reply_to(out[0], pre.node_id, msg, pre.msg_id)
    &&& out[0].body.payload is BroadcastOk
    &&& post.node_id == pre.node_id
    &&& post.neighbors@ == pre.neighbors@
    &&& if pre.values@.contains(v) {
        &&& out.len() == 1
        &&& post.msg_id == pre.msg_id + 1
        &&& post.values@ == pre.values@
        &&& post.pending@ == pre.pending@
    } else {
        &&& out.drop_first() == fanout(pre.node_id, targets, pre.msg_id + 1, v)
        &&& post.msg_id == pre.msg_id + 1 + targets.len()
        &&& post.values@ == pre.values@.push(v)
        &&& post.pending@ == pre.pending@ + sent_at(out.drop_first(), now)
    }
}

/// `out` is the single answer to the `Read` in `msg`: every known value.
pub open spec fn read_answered(
    pre: BroadcastNode,
    msg: Message<BroadcastPayload>,
    post: BroadcastNode,
    out: Seq<Message<BroadcastPayload>>,
) -> bool {
    &&& out.len() == 1
    &&& is_reply_to(out[0], pre.node_id, msg, pre.msg_id)
    &&& out[0].body.payload matches BroadcastPayload::ReadOk { messages } && messages@ == pre.values@
    &&& post.msg_id == pre.msg_id + 1
    &&& post.same_but_id(&pre)
}

/// The neighbours become those that `adjacency` assigns to this node (each
/// once, and without the node itself), and the
/// `Topology` in `msg` is acknowledged.
pub open spec fn topology_set(
    pre: BroadcastNode,
    msg: Message<BroadcastPayload>,
    adjacency: Seq<(String, Vec<String>)>,
    post: BroadcastNode,
    out: Seq<Message<BroadcastPayload>>,
) -> bool {
    &&& out.len() == 1
    &&& is_reply_to(out[0], pre.node_id, msg, pre.msg_id)
    &&& out[0].body.payload is TopologyOk
    &&& post.msg_id == pre.msg_id + 1
    &&& post.neighbors@ == neighbor_set(assigned(adjacency, pre.node_id@), pre.node_id@)
    &&& post.node_id == pre.node_id
    &&& post.values@ == pre.values@
    &&& post.pending@ == pre.pending@
}

/// The pending entry whose id is `x`, if there is one, is dropped; nothing
/// else changes.
pub open spec fn acked(pre: BroadcastNode, x: Option<usize>, post: BroadcastNode) -> bool {
    &&& post.node_id == pre.node_id
    &&& post.msg_id == pre.msg_id
    &&& post.values@ == pre.values@
    &&& post.neighbors@ == pre.neighbors@
    &&& if exists|k: int| 0 <= k < pre.pending@.len() && pre.pending@[k].message.body.msg_id == x {
        exists|k: int|
            0 <= k < pre.pending@.len() && pre.pending@[k].message.body.msg_id == x && post.pending@
                == pre.pending@.remove(k)
    } else {
        post.pending@ == pre.pending@
    }
}

/// The kinds of message a node takes in: all but the answers `ReadOk` and
/// `TopologyOk`.
pub open spec fn accepts(payload: BroadcastPayload) -> bool {
    !(payload is ReadOk) && !(payload is TopologyOk)
}

/// `post` and `out` are what processing the accepted message `msg` at `now`
/// gives `pre`.
pub open spec fn handled(
    pre: BroadcastNode,
    msg: Message<BroadcastPayload>,
    now: u64,
    post: BroadcastNode,
    out: Seq<Message<BroadcastPayload>>,
) -> bool {
    match msg.body.payload {
        BroadcastPayload::Broadcast { message } => delivered(pre, msg, message, now, post, out),
        BroadcastPayload::Read => read_answered(pre, msg, post, out),
        BroadcastPayload::Topology { topology } => topology_set(pre, msg, topology@, post, out),
        BroadcastPayload::BroadcastOk => out.len() == 0 && acked(pre, msg.body.in_reply_to, post),
        _ => false,
    }
}

/// Whether two optional ids are equal.
pub fn same_id(a: Option<usize>, b: Option<usize>) -> (r: bool)
    ensures
        r == (a == b),
{
    match (a, b) {
        (Some(x), Some(y)) => x == y,
        (None, None) => true,
        _ => false,
    }
}

/// Builds the gossip message that carries `v` from `src` to `dest`.
pub fn make_gossip(src: &String, dest: &String, id: usize, v: usize) -> (r: Message<BroadcastPayload>)
    ensures
        r == gossip(*src, *dest, id, v),
{
    Message {
        src: src.clone(),
        dest: dest.clone(),
        body: Body { msg_id: Some(id), in_reply_to: None, payload: BroadcastPayload::Broadcast { message: v } },
    }
}

impl BroadcastNode {
    /// Known values are distinct; neighbours are distinct and never this
    /// node itself; each pending entry is a gossip message of
    /// this node, with an id it already handed out; the ids of the pending
    /// entries increase along the list.
    pub open spec fn wf(&self) -> bool {
        &&& self.values@.no_duplicates()
        &&& forall|i: int, j: int|
            0 <= i < j < self.neighbors@.len() ==> (#[trigger] self.neighbors@[i])@ != (
            #[trigger] self.neighbors@[j])@
        &&& forall|i: int| 0 <= i < self.neighbors@.len() ==> (#[trigger] self.neighbors@[i])@ != self.node_id@
        &&& forall|i: int|
            0 <= i < self.pending@.len() ==> {
                let p = #[trigger] self.pending@[i];
                &&& p.message.src == self.node_id
                &&& p.message.body.in_reply_to is None
                &&& p.message.body.payload is Broadcast
                &&& 0 <= pid(p) < self.msg_id
            }
        &&& forall|i: int, j: int|
            0 <= i < j < self.pending@.len() ==> pid(#[trigger] self.pending@[i]) < pid(
                #[trigger] self.pending@[j],
            )
    }

    /// `self` and `other` agree on everything but possibly the id counter.
    pub open spec fn same_but_id(&self, other: &Self) -> bool {
        &&& self.node_id == other.node_id
        &&& self.values@ == other.values@
        &&& self.neighbors@ == other.neighbors@
        &&& self.pending@ == other.pending@
    }

    /// How many ids the answer to `payload` from `sender` takes.
    pub open spec fn ids_needed(&self, payload: BroadcastPayload, sender: String) -> int {
        match payload {
            BroadcastPayload::Broadcast { message } => if self.values@.contains(message) {
                1
            } else {
                1 + all_but(self.neighbors@, sender@).len() as int
            },
            BroadcastPayload::Read => 1,
            BroadcastPayload::Topology { .. } => 1,
            _ => 0,
        }
    }

    /// A new node: nothing known, no neighbours, nothing pending, ids from 0.
    pub fn new(node_id: String) -> (r: Self)
        ensures
            r.wf(),
            r.node_id == node_id,
            r.msg_id == 0,
            r.values@.len() == 0,
            r.neighbors@.len() == 0,
            r.pending@.len() == 0,
    {
        BroadcastNode { node_id, msg_id: 0, values: Vec::new(), neighbors: Vec::new(), pending: Vec::new() }
    }

    /// Hands out the next message id.
    pub fn get_and_increment_id(&mut self) -> (id: usize)
        requires
            old(self).msg_id < usize::MAX,
        ensures
            id == old(self).msg_id,
            final(self).msg_id == old(self).msg_id + 1,
            final(self).same_but_id(old(self)),
    {
        let old = self.msg_id;
        self.msg_id = self.msg_id + 1;
        old
    }

    /// A message from this node to `dest` under the next id.
    pub fn generate_message(&mut self, payload: BroadcastPayload, dest: String, in_reply_to: Option<usize>) -> (r:
        Message<BroadcastPayload>)
        requires
            old(self).msg_id < usize::MAX,
        ensures
            r == (Message {
                src: old(self).node_id,
                dest,
                body: Body { msg_id: Some(old(self).msg_id), in_reply_to, payload },
            }),
            final(self).msg_id == old(self).msg_id + 1,
            final(self).same_but_id(old(self)),
    {
        let src = self.node_id.clone();
        let id = self.get_and_increment_id();
        Message { src, dest, body: Body { msg_id: Some(id), in_reply_to, payload } }
    }

    /// Appends to `out` the answer to `msg` that carries `payload`.
    pub fn send_response(
        &mut self,
        msg: &Message<BroadcastPayload>,
        payload: BroadcastPayload,
        out: &mut Vec<Message<BroadcastPayload>>,
    )
        requires
            old(self).msg_id < usize::MAX,
        ensures
            final(out)@.len() == old(out)@.len() + 1,
            final(out)@.drop_last() == old(out)@,
            is_reply_to(final(out)@.last(), old(self).node_id, *msg, old(self).msg_id),
            final(out)@.last().body.payload == payload,
            final(self).msg_id == old(self).msg_id + 1,
            final(self).same_but_id(old(self)),
    {
        let dest = msg.src.clone();
        let m = self.generate_message(payload, dest, msg.body.msg_id);
        out.push(m);
        proof {
            assert(out@.drop_last() =~= old(out)@);
        }
    }

    /// Whether `v` is already known.
    pub fn knows(&self, v: usize) -> (r: bool)
        ensures
            r == self.values@.contains(v),
    {
        let mut i: usize = 0;
        while i < self.values.len()
            invariant
                i <= self.values@.len(),
                forall|j: int| 0 <= j < i ==> self.values@[j] != v,
            decreases self.values@.len() - i,
        {
            if self.values[i] == v {
                return true;
            }
            i = i + 1;
        }
        false
    }

    /// The neighbours other than `sender`, in order.
    pub fn targets(&self, sender: &String) -> (r: Vec<String>)
        ensures
            r@ == all_but(self.neighbors@, sender@),
    {
        all_but_exec(&self.neighbors, sender)
    }
}

impl BroadcastNode {
    /// Delivers `Broadcast { message: v }`, carried by `msg`, at time `now`.
    pub fn deliver(&mut self, msg: &Message<BroadcastPayload>, v: usize, now: u64) -> (r: Result<
        Vec<Message<BroadcastPayload>>,
        NodeError,
    >)
        requires
            old(self).wf(),
        ensures
            final(self).wf(),
            old(self).msg_id + old(self).ids_needed((BroadcastPayload::Broadcast { message: v }), msg.src)
                > usize::MAX ==> r == Err::<Vec<Message<BroadcastPayload>>, NodeError>(NodeError::OutOfIds)
                && *final(self) == *old(self),
            old(self).msg_id + old(self).ids_needed((BroadcastPayload::Broadcast { message: v }), msg.src)
                <= usize::MAX ==> (r matches Ok(out) && delivered(*old(self), *msg, v, now, *final(self), out@)),
    {
        let known = self.knows(v);
        let targets = if known {
            Vec::new()
        } else {
            self.targets(&msg.src)
        };
        if self.msg_id >= usize::MAX - targets.len() {
            return Err(NodeError::OutOfIds);
        }
        let mut out: Vec<Message<BroadcastPayload>> = Vec::new();
        self.send_response(msg, BroadcastPayload::BroadcastOk, &mut out);
        if known {
            return Ok(out);
        }
        let ghost pre = *old(self);
        let ghost ack = out@[0];
        let ghost pending0 = self.pending@;
        self.values.push(v);
        proof {
            assert forall|i: int, j: int|
                0 <= i < self.values@.len() && 0 <= j < self.values@.len() && i != j implies self.values@[i]
                != self.values@[j] by {
                if i == self.values@.len() - 1 {
                    assert(pre.values@.contains(self.values@[j]));
                } else if j == self.values@.len() - 1 {
                    assert(pre.values@.contains(self.values@[i]));
                }
            }
        }
        let id0 = self.msg_id;
        let mut i: usize = 0;
        while i < targets.len()
            invariant
                i <= targets@.len(),
                id0 == pre.msg_id + 1,
                id0 + targets@.len() <= usize::MAX,
                self.msg_id == id0 + i,
                self.node_id == pre.node_id,
                self.neighbors@ == pre.neighbors@,
                self.values@ == pre.values@.push(v),
                self.values@.no_duplicates(),
                out@.len() == 1 + i,
                out@[0] == ack,
                out@.drop_first() == fanout(pre.node_id, targets@.subrange(0, i as int), id0 as int, v),
                self.pending@ == pending0 + sent_at(out@.drop_first(), now),
                pending0 == pre.pending@,
                pre.wf(),
                forall|k: int| 0 <= k < self.pending@.len() ==> pid(#[trigger] self.pending@[k]) < self.msg_id,
            decreases targets@.len() - i,
        {
            let ghost out_before = out@;
            let ghost pending_before = self.pending@;
            let id = self.get_and_increment_id();
            out.push(make_gossip(&self.node_id, &targets[i], id, v));
            self.pending.push(Pending { sent_at: now, message: make_gossip(&self.node_id, &targets[i], id, v) });
            i = i + 1;
            proof {
                assert(out@.drop_first() =~= out_before.drop_first().push(gossip(pre.node_id, targets@[i - 1], id, v)));
                assert(out@.drop_first() =~= fanout(pre.node_id, targets@.subrange(0, i as int), id0 as int, v));
                assert(self.pending@ =~= pending0 + sent_at(out@.drop_first(), now));
            }
        }
        proof {
            assert(targets@.subrange(0, i as int) =~= targets@);
            assert forall|a: int|
                0 <= a < self.pending@.len() implies {
                let p = #[trigger] self.pending@[a];
                &&& p.message.src == self.node_id
                &&& p.message.body.in_reply_to is None
                &&& p.message.body.payload is Broadcast
                &&& 0 <= pid(p) < self.msg_id
            } by {
                if a >= pending0.len() {
                    let j = a - pending0.len();
                    assert(self.pending@[a] == sent_at(out@.drop_first(), now)[j]);
                    assert(pid(self.pending@[a]) == id0 + j);
                } else {
                    assert(self.pending@[a] == pre.pending@[a]);
                }
            }
            assert forall|a: int, b: int|
                0 <= a < b < self.pending@.len() implies pid(#[trigger] self.pending@[a]) < pid(
                #[trigger] self.pending@[b],
            ) by {
                if b >= pending0.len() {
                    let jb = b - pending0.len();
                    assert(pid(self.pending@[b]) == id0 + jb);
                    if a >= pending0.len() {
                        let ja = a - pending0.len();
                        assert(pid(self.pending@[a]) == id0 + ja);
                    } else {
                        assert(self.pending@[a] == pre.pending@[a]);
                    }
                } else {
                    assert(self.pending@[a] == pre.pending@[a]);
                    assert(self.pending@[b] == pre.pending@[b]);
                }
            }
        }
        Ok(out)
    }
}

impl BroadcastNode {
    /// Answers the `Read` in `msg` with every known value.
    pub fn answer_read(&mut self, msg: &Message<BroadcastPayload>) -> (r: Result<
        Vec<Message<BroadcastPayload>>,
        NodeError,
    >)
        requires
            old(self).wf(),
        ensures
            final(self).wf(),
            old(self).msg_id == usize::MAX ==> r == Err::<Vec<Message<BroadcastPayload>>, NodeError>(
                NodeError::OutOfIds,
            ) && *final(self) == *old(self),
            old(self).msg_id < usize::MAX ==> (r matches Ok(out) && read_answered(
                *old(self),
                *msg,
                *final(self),
                out@,
            )),
    {
        if self.msg_id == usize::MAX {
            return Err(NodeError::OutOfIds);
        }
        let mut messages: Vec<usize> = Vec::new();
        let mut i: usize = 0;
        while i < self.values.len()
            invariant
                i <= self.values@.len(),
                messages@ == self.values@.subrange(0, i as int),
            decreases self.values@.len() - i,
        {
            messages.push(self.values[i]);
            i = i + 1;
            proof {
                assert(messages@ =~= self.values@.subrange(0, i as int));
            }
        }
        proof {
            assert(messages@ =~= self.values@);
        }
        let mut out: Vec<Message<BroadcastPayload>> = Vec::new();
        self.send_response(msg, BroadcastPayload::ReadOk { messages }, &mut out);
        Ok(out)
    }

    /// Takes the neighbours that the `Topology` in `msg` assigns to this node
    /// (none if it names no such node), and acknowledges it.
    pub fn set_topology(&mut self, msg: &Message<BroadcastPayload>, topology: Vec<(String, Vec<String>)>) -> (r:
        Result<Vec<Message<BroadcastPayload>>, NodeError>)
        requires
            old(self).wf(),
        ensures
            final(self).wf(),
            old(self).msg_id == usize::MAX ==> r == Err::<Vec<Message<BroadcastPayload>>, NodeError>(
                NodeError::OutOfIds,
            ) && *final(self) == *old(self),
            old(self).msg_id < usize::MAX ==> (r matches Ok(out) && topology_set(
                *old(self),
                *msg,
                topology@,
                *final(self),
                out@,
            )),
    {
        if self.msg_id == usize::MAX {
            return Err(NodeError::OutOfIds);
        }
        let ghost adjacency = topology@;
        let mut topology = topology;
        let mut i: usize = 0;
        let mut found = false;
        proof {
            assert(adjacency.subrange(0, adjacency.len() as int) =~= adjacency);
        }
        while !found && i < topology.len()
            invariant
                topology@ == adjacency,
                i <= adjacency.len(),
                assigned(adjacency, self.node_id@) == assigned(adjacency.subrange(i as int, adjacency.len() as int), self.node_id@),
                found ==> i < adjacency.len() && adjacency[i as int].0@ == self.node_id@,
            decreases adjacency.len() - i + (if found { 0int } else { 1int }),
        {
            proof {
                assert(adjacency.subrange(i as int, adjacency.len() as int).drop_first() =~= adjacency.subrange(
                    i + 1,
                    adjacency.len() as int,
                ));
            }
            if topology[i].0 == self.node_id {
                found = true;
            } else {
                i = i + 1;
            }
        }
        if found {
            proof {
                assert(adjacency.subrange(i as int, adjacency.len() as int)[0] == adjacency[i as int]);
            }
            let (_, ns) = topology.remove(i);
            let others = all_but_exec(&ns, &self.node_id);
            self.neighbors = distinct_exec(&others);
            proof {
                lemma_all_but_excludes(ns@, self.node_id@);
                lemma_distinct_ids(others@);
                assert forall|a: int| 0 <= a < self.neighbors@.len() implies (#[trigger] self.neighbors@[a])@
                    != self.node_id@ by {
                    let k = choose|k: int| 0 <= k < others@.len() && others@[k] == self.neighbors@[a];
                }
            }
        } else {
            proof {
                assert(adjacency.subrange(i as int, adjacency.len() as int).len() == 0);
            }
            self.neighbors = Vec::new();
        }
        let mut out: Vec<Message<BroadcastPayload>> = Vec::new();
        self.send_response(msg, BroadcastPayload::TopologyOk, &mut out);
        Ok(out)
    }

    /// Drops the pending entry that a `BroadcastOk` with `in_reply_to` answers.
    pub fn acknowledge(&mut self, in_reply_to: Option<usize>)
        requires
            old(self).wf(),
        ensures
            final(self).wf(),
            acked(*old(self), in_reply_to, *final(self)),
    {
        let mut i: usize = 0;
        while i < self.pending.len()
            invariant
                i <= self.pending@.len(),
                *self == *old(self),
                self.wf(),
                forall|j: int| 0 <= j < i ==> self.pending@[j].message.body.msg_id != in_reply_to,
            decreases self.pending@.len() - i,
        {
            if same_id(self.pending[i].message.body.msg_id, in_reply_to) {
                let ghost pre = self.pending@;
                self.pending.remove(i);
                proof {
                    assert(self.pending@ == pre.remove(i as int));
                    assert(pre[i as int].message.body.msg_id == in_reply_to);
                    assert forall|a: int, b: int|
                        0 <= a < b < self.pending@.len() implies pid(#[trigger] self.pending@[a]) < pid(
                        #[trigger] self.pending@[b],
                    ) by {
                        let a0 = if a < i { a } else { a + 1 };
                        let b0 = if b < i { b } else { b + 1 };
                        assert(self.pending@[a] == pre[a0]);
                        assert(self.pending@[b] == pre[b0]);
                    }
                    assert forall|a: int| 0 <= a < self.pending@.len() implies {
                        let p = #[trigger] self.pending@[a];
                        &&& p.message.src == self.node_id
                        &&& p.message.body.in_reply_to is None
                        &&& p.message.body.payload is Broadcast
                        &&& 0 <= pid(p) < self.msg_id
                    } by {
                        let a0 = if a < i { a } else { a + 1 };
                        assert(self.pending@[a] == pre[a0]);
                    }
                }
                return;
            }
            i = i + 1;
        }
    }

    /// Sends again every pending entry that is due at `now`, and stamps each of
    /// them with `now`.
    pub fn retry_sweep(&mut self, now: u64) -> (out: Vec<Message<BroadcastPayload>>)
        requires
            old(self).wf(),
        ensures
            final(self).wf(),
            out@ == stale_messages(old(self).pending@, now),
            final(self).pending@ == restamped(old(self).pending@, now),
            final(self).node_id == old(self).node_id,
            final(self).msg_id == old(self).msg_id,
            final(self).values@ == old(self).values@,
            final(self).neighbors@ == old(self).neighbors@,
    {
        let ghost pre = self.pending@;
        let mut out: Vec<Message<BroadcastPayload>> = Vec::new();
        let mut i: usize = 0;
        while i < self.pending.len()
            invariant
                self.wf(),
                self.pending@.len() == pre.len(),
                i <= pre.len(),
                forall|j: int| 0 <= j < i ==> #[trigger] self.pending@[j] == restamped(pre, now)[j],
                forall|j: int| i <= j < pre.len() ==> #[trigger] self.pending@[j] == pre[j],
                out@ == stale_messages(pre.subrange(0, i as int), now),
                self.node_id == old(self).node_id,
                self.msg_id == old(self).msg_id,
                self.values@ == old(self).values@,
                self.neighbors@ == old(self).neighbors@,
            decreases pre.len() - i,
        {
            proof {
                let s = pre.subrange(0, i + 1);
                assert(s.drop_last() =~= pre.subrange(0, i as int));
                assert(s.last() == pre[i as int]);
            }
            let sent = self.pending[i].sent_at;
            if now >= sent && now - sent >= RETRY_AFTER_MS {
                let v = match self.pending[i].message.body.payload {
                    BroadcastPayload::Broadcast { message } => message,
                    // Only gossip messages are pending.
                    _ => 0,
                };
                let id = self.pending[i].message.body.msg_id;
                let m = &self.pending[i].message;
                let again = Message {
                    src: m.src.clone(),
                    dest: m.dest.clone(),
                    body: Body { msg_id: id, in_reply_to: None, payload: BroadcastPayload::Broadcast { message: v } },
                };
                let kept = Message {
                    src: m.src.clone(),
                    dest: m.dest.clone(),
                    body: Body { msg_id: id, in_reply_to: None, payload: BroadcastPayload::Broadcast { message: v } },
                };
                proof {
                    assert(again == pre[i as int].message);
                }
                out.push(again);
                self.pending.set(i, Pending { sent_at: now, message: kept });
            }
            i = i + 1;
        }
        proof {
            assert(pre.subrange(0, i as int) =~= pre);
            assert(self.pending@ =~= restamped(pre, now));
        }
        out
    }

    /// When the earliest pending entry falls due; none if nothing is pending.
    pub fn next_retry(&self) -> (r: Option<u64>)
        ensures
            r is None <==> self.pending@.len() == 0,
            r matches Some(d) ==> (exists|k: int|
                0 <= k < self.pending@.len() && d == retry_time(self.pending@[k].sent_at)) && (forall|k: int|
                0 <= k < self.pending@.len() ==> d <= retry_time(#[trigger] self.pending@[k].sent_at)),
    {
        if self.pending.len() == 0 {
            return None;
        }
        let mut best: u64 = self.pending[0].sent_at;
        let mut i: usize = 1;
        while i < self.pending.len()
            invariant
                1 <= i <= self.pending@.len(),
                exists|k: int| 0 <= k < i && best == self.pending@[k].sent_at,
                forall|k: int| 0 <= k < i ==> best <= #[trigger] self.pending@[k].sent_at,
            decreases self.pending@.len() - i,
        {
            if self.pending[i].sent_at < best {
                best = self.pending[i].sent_at;
            }
            i = i + 1;
        }
        let d = if best <= u64::MAX - RETRY_AFTER_MS {
            best + RETRY_AFTER_MS
        } else {
            u64::MAX
        };
        Some(d)
    }
}

impl BroadcastNode {
    /// Processes one inbound message at time `now`: see `delivered`,
    /// `read_answered`, `topology_set` and `acked` for each kind. Answers
    /// (`ReadOk`, `TopologyOk`) are not accepted, and an answer that would need
    /// ids beyond `usize::MAX` is refused; neither changes the node.
    pub fn handle_message(&mut self, msg: Message<BroadcastPayload>, now: u64) -> (r: Result<
        Vec<Message<BroadcastPayload>>,
        NodeError,
    >)
        requires
            old(self).wf(),
        ensures
            final(self).wf(),
            old(self).msg_id + old(self).ids_needed(msg.body.payload, msg.src) > usize::MAX ==> r == Err::<
                Vec<Message<BroadcastPayload>>,
                NodeError,
            >(NodeError::OutOfIds) && *final(self) == *old(self),
            old(self).msg_id + old(self).ids_needed(msg.body.payload, msg.src) <= usize::MAX && accepts(
                msg.body.payload,
            ) ==> (r matches Ok(out) && handled(*old(self), msg, now, *final(self), out@)),
            !accepts(msg.body.payload) ==> r == Err::<Vec<Message<BroadcastPayload>>, NodeError>(
                NodeError::Unexpected,
            ) && *final(self) == *old(self),
    {
        let Message { src, dest, body } = msg;
        let Body { msg_id, in_reply_to, payload } = body;
        match payload {
            BroadcastPayload::Broadcast { message } => {
                let head = Message {
                    src,
                    dest,
                    body: Body { msg_id, in_reply_to, payload: BroadcastPayload::Broadcast { message } },
                };
                self.deliver(&head, message, now)
            },
            BroadcastPayload::Read => {
                let head = Message { src, dest, body: Body { msg_id, in_reply_to, payload: BroadcastPayload::Read } };
                self.answer_read(&head)
            },
            BroadcastPayload::Topology { topology } => {
                let head = Message {
                    src,
                    dest,
                    body: Body { msg_id, in_reply_to, payload: BroadcastPayload::TopologyOk },
                };
                self.set_topology(&head, topology)
            },
            BroadcastPayload::BroadcastOk => {
                self.acknowledge(in_reply_to);
                Ok(Vec::new())
            },
            _ => Err(NodeError::Unexpected),
        }
    }
}

impl Node<BroadcastPayload> for BroadcastNode {
    open spec fn inv(&self) -> bool {
        self.wf()
    }

    /// A new node; the cluster list plays no part, neighbours come from
    /// `Topology`.
    fn initialize(node_id: String, other: Vec<String>) -> (r: Self)
        ensures
            r.node_id == node_id,
            r.msg_id == 0,
            r.values@.len() == 0,
            r.neighbors@.len() == 0,
            r.pending@.len() == 0,
    {
        BroadcastNode::new(node_id)
    }

    /// See `handle_message`.
    fn handle(&mut self, msg: Message<BroadcastPayload>, now: u64) -> (r: Result<
        Vec<Message<BroadcastPayload>>,
        NodeError,
    >)
        ensures
            old(self).msg_id + old(self).ids_needed(msg.body.payload, msg.src) > usize::MAX ==> r == Err::<
                Vec<Message<BroadcastPayload>>,
                NodeError,
            >(NodeError::OutOfIds) && *final(self) == *old(self),
            old(self).msg_id + old(self).ids_needed(msg.body.payload, msg.src) <= usize::MAX && accepts(
                msg.body.payload,
            ) ==> (r matches Ok(out) && handled(*old(self), msg, now, *final(self), out@)),
            !accepts(msg.body.payload) ==> r == Err::<Vec<Message<BroadcastPayload>>, NodeError>(
                NodeError::Unexpected,
            ) && *final(self) == *old(self),
    {
        self.handle_message(msg, now)
    }

    /// The retry sweep: see `retry_sweep`.
    fn tick(&mut self, now: u64) -> (r: Result<Vec<Message<BroadcastPayload>>, NodeError>)
        ensures
            r matches Ok(out) && out@ == stale_messages(old(self).pending@, now),
            final(self).pending@ == restamped(old(self).pending@, now),
            final(self).node_id == old(self).node_id,
            final(self).msg_id == old(self).msg_id,
            final(self).values@ == old(self).values@,
            final(self).neighbors@ == old(self).neighbors@,
    {
        Ok(self.retry_sweep(now))
    }

    /// When the next retry falls due: see `next_retry`.
    fn deadline(&self) -> (r: Option<u64>)
        ensures
            r is None <==> self.pending@.len() == 0,
            r matches Some(d) ==> (exists|k: int|
                0 <= k < self.pending@.len() && d == retry_time(self.pending@[k].sent_at)) && (forall|k: int|
                0 <= k < self.pending@.len() ==> d <= retry_time(#[trigger] self.pending@[k].sent_at)),
    {
        self.next_retry()
    }
}

} // verus!
