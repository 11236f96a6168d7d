use crate::keyed::{
    find_key, keys_unique, lemma_stores_update, lookup, store, stores,
};
use crate::message::{is_reply_to, Body, Message};
use crate::node::{Node, NodeError};
use vstd::prelude::*;

verus! {

/// The most entries that one `Poll` returns for a key.
pub const POLL_LIMIT: usize = 3;

/// The messages of the replicated log.
#[derive(Debug, Clone, PartialEq, Eq)]
pub enum LogPayload {
    Send { key: String, msg: usize },
    SendOk { offset: usize },
    Poll { offsets: Vec<(String, usize)> },
    PollOk { msgs: Vec<(String, Vec<(usize, usize)>)> },
    CommitOffsets { offsets: Vec<(String, usize)> },
    CommitOffsetsOk,
    ListCommittedOffsets { keys: Vec<String> },
    ListCommittedOffsetsOk { offsets: Vec<(String, usize)> },
}

/// A node that keeps an append-only log per key, and per key the offset up to
/// which its consumers have committed.
#[derive(Debug)]
pub struct KafkaNode {
    pub node_id: String,
    pub msg_id: usize,
    pub messages: Vec<(String, Vec<usize>)>,
    pub committed_offsets: Vec<(String, usize)>,
}

/// The log under key `k` (empty for a key never written).
pub open spec fn log_of(messages: Seq<(String, Vec<usize>)>, k: Seq<char>) -> Seq<usize> {
    match lookup(messages, k) {
        Some(l) => l@,
        None => Seq::empty(),
    }
}

/// The entries of `log` from offset `off` on, at most `POLL_LIMIT` of them,
/// each with its offset.
pub open spec fn poll_window(log: Seq<usize>, off: int) -> Seq<(usize, usize)> {
    let end = if off + POLL_LIMIT < log.len() {
        off + POLL_LIMIT
    } else {
        log.len() as int
    };
    if off >= log.len() {
        Seq::empty()
    } else {
        Seq::new((end - off) as nat, |j: int| ((off + j) as usize, log[off + j]))
    }
}

/// The offset that the last entry of `offsets` for key `k` gives, if any.
pub open spec fn latest(offsets: Seq<(String, usize)>, k: Seq<char>) -> Option<usize>
    decreases offsets.len(),
{
    if offsets.len() == 0 {
        None
    } else if offsets.last().0@ == k {
        Some(offsets.last().1)
    } else {
        latest(offsets.drop_last(), k)
    }
}

/// The committed offset under `k` after committing `offsets` over `pre`.
pub open spec fn committed_after(pre: Seq<(String, usize)>, offsets: Seq<(String, usize)>, k: Seq<char>) -> Option<
    usize,
> {
    match latest(offsets, k) {
        Some(o) => Some(o),
        None => lookup(pre, k),
    }
}

/// The committed offset under `k`, 0 for a key never committed.
pub open spec fn committed_of(committed: Seq<(String, usize)>, k: Seq<char>) -> usize {
    match lookup(committed, k) {
        Some(o) => o,
        None => 0,
    }
}

/// What an accepted message does, apart from the common answer header:
/// `Send` appends to its key's log (a new key also gets committed offset 0)
/// and answers with the offset of the new entry; `Poll` answers with a window
/// of each asked log; `CommitOffsets` records the offsets; and
/// `ListCommittedOffsets` answers with the offset of each asked key.
pub open spec fn logged(pre: KafkaNode, msg: Message<LogPayload>, post: KafkaNode, out: Seq<Message<LogPayload>>) -> bool {
    &&& post.node_id == pre.node_id
    &&& post.msg_id == pre.msg_id + 1
    &&& out.len() == 1
    &&& is_reply_to(out[0], pre.node_id, msg, pre.msg_id)
    &&& match msg.body.payload {
        LogPayload::Send { key, msg: v } => {
            &&& out[0].body.payload == (LogPayload::SendOk { offset: log_of(pre.messages@, key@).len() as usize })
            &&& lookup(post.messages@, key@) matches Some(l) && l@ == log_of(pre.messages@, key@).push(v)
            &&& forall|k2: Seq<char>| k2 != key@ ==> #[trigger] lookup(post.messages@, k2) == lookup(pre.messages@, k2)
            &&& if lookup(pre.messages@, key@) is None {
                stores(pre.committed_offsets@, key@, 0, post.committed_offsets@)
            } else {
                post.committed_offsets@ == pre.committed_offsets@
            }
        },
        LogPayload::Poll { offsets } => {
            &&& post.messages@ == pre.messages@
            &&& post.committed_offsets@ == pre.committed_offsets@
            &&& out[0].body.payload matches LogPayload::PollOk { msgs } && msgs@.len() == offsets@.len() && forall|j: int|
                0 <= j < offsets@.len() ==> (#[trigger] msgs@[j]).0 == offsets@[j].0 && msgs@[j].1@ == poll_window(
                    log_of(pre.messages@, offsets@[j].0@),
                    offsets@[j].1 as int,
                )
        },
        LogPayload::CommitOffsets { offsets } => {
            &&& post.messages@ == pre.messages@
            &&& forall|k: Seq<char>| #[trigger] lookup(post.committed_offsets@, k) == committed_after(
                pre.committed_offsets@,
                offsets@,
                k,
            )
            &&& out[0].body.payload is CommitOffsetsOk
        },
        LogPayload::ListCommittedOffsets { keys } => {
            &&& post.messages@ == pre.messages@
            &&& post.committed_offsets@ == pre.committed_offsets@
            &&& out[0].body.payload matches LogPayload::ListCommittedOffsetsOk { offsets } && offsets@.len()
                == keys@.len() && forall|j: int|
                0 <= j < keys@.len() ==> (#[trigger] offsets@[j]).0 == keys@[j] && offsets@[j].1 == committed_of(
                    pre.committed_offsets@,
                    keys@[j]@,
                )
        },
        _ => false,
    }
}

/// The payloads a log node takes in: the four requests.
pub open spec fn log_accepts(payload: LogPayload) -> bool {
    payload is Send || payload is Poll || payload is CommitOffsets || payload is ListCommittedOffsets
}

impl KafkaNode {
    /// Logs and committed offsets are each kept under distinct keys.
    pub open spec fn wf(&self) -> bool {
        keys_unique(self.messages@) && keys_unique(self.committed_offsets@)
    }

    /// A new node with no logs.
    pub fn new(node_id: String) -> (r: Self)
        ensures
            r.wf(),
            r.node_id == node_id,
            r.msg_id == 0,
            r.messages@.len() == 0,
            r.committed_offsets@.len() == 0,
    {
        KafkaNode { node_id, msg_id: 0, messages: Vec::new(), committed_offsets: Vec::new() }
    }

    /// Hands out the next message id.
    pub fn get_and_increment_id(&mut self) -> (id: usize)
        requires
            old(self).msg_id < usize::MAX,
        ensures
            id == old(self).msg_id,
            *final(self) == (KafkaNode { msg_id: (old(self).msg_id + 1) as usize, ..*old(self) }),
    {
        let old = self.msg_id;
        self.msg_id = self.msg_id + 1;
        old
    }

    /// A message from this node to `dest` under the next id.
    pub fn generate_message(&mut self, payload: LogPayload, dest: String, in_reply_to: Option<usize>) -> (r:
        Message<LogPayload>)
        requires
            old(self).msg_id < usize::MAX,
        ensures
            r == (Message {
                src: old(self).node_id,
                dest,
                body: Body { msg_id: Some(old(self).msg_id), in_reply_to, payload },
            }),
            *final(self) == (KafkaNode { msg_id: (old(self).msg_id + 1) as usize, ..*old(self) }),
    {
        let src = self.node_id.clone();
        let id = self.get_and_increment_id();
        Message { src, dest, body: Body { msg_id: Some(id), in_reply_to, payload } }
    }

    /// Appends `v` to the log under `key`; returns the offset of the new entry.
    pub fn append(&mut self, key: String, v: usize) -> (offset: usize)
        requires
            old(self).wf(),
        ensures
            final(self).wf(),
            final(self).node_id == old(self).node_id,
            final(self).msg_id == old(self).msg_id,
            offset == log_of(old(self).messages@, key@).len(),
            lookup(final(self).messages@, key@) matches Some(l) && l@ == log_of(old(self).messages@, key@).push(v),
            forall|k2: Seq<char>| k2 != key@ ==> #[trigger] lookup(final(self).messages@, k2) == lookup(
                old(self).messages@,
                k2,
            ),
            if lookup(old(self).messages@, key@) is None {
                stores(old(self).committed_offsets@, key@, 0, final(self).committed_offsets@)
            } else {
                final(self).committed_offsets@ == old(self).committed_offsets@
            },
    {
        let ghost pre = self.messages@;
        match find_key(&self.messages, &key) {
            Some(i) => {
                let (k, mut log) = self.messages.remove(i);
                let offset = log.len();
                let ghost kk = k;
                log.push(v);
                let ghost entry = (kk, log);
                self.messages.insert(i, (k, log));
                proof {
                    assert(self.messages@ =~= pre.update(i as int, entry));
                    lemma_stores_update(pre, i as int, kk, entry.1, self.messages@);
                }
                offset
            },
            None => {
                let mut log: Vec<usize> = Vec::new();
                log.push(v);
                proof {
                    assert(log@ =~= Seq::<usize>::empty().push(v));
                }
                store(&mut self.committed_offsets, key.clone(), 0);
                store(&mut self.messages, key, log);
                0
            },
        }
    }

    /// The window of each asked log, in the order asked.
    pub fn poll(&self, offsets: &Vec<(String, usize)>) -> (msgs: Vec<(String, Vec<(usize, usize)>)>)
        ensures
            msgs@.len() == offsets@.len(),
            forall|j: int|
                0 <= j < offsets@.len() ==> (#[trigger] msgs@[j]).0 == offsets@[j].0 && msgs@[j].1@ == poll_window(
                    log_of(self.messages@, offsets@[j].0@),
                    offsets@[j].1 as int,
                ),
    {
        let mut msgs: Vec<(String, Vec<(usize, usize)>)> = Vec::new();
        let mut j: usize = 0;
        while j < offsets.len()
            invariant
                j <= offsets@.len(),
                msgs@.len() == j,
                forall|a: int|
                    0 <= a < j ==> (#[trigger] msgs@[a]).0 == offsets@[a].0 && msgs@[a].1@ == poll_window(
                        log_of(self.messages@, offsets@[a].0@),
                        offsets@[a].1 as int,
                    ),
            decreases offsets@.len() - j,
        {
            let key = &offsets[j].0;
            let off = offsets[j].1;
            let mut window: Vec<(usize, usize)> = Vec::new();
            match find_key(&self.messages, key) {
                Some(i) => {
                    let log = &self.messages[i].1;
                    let ghost l = log@;
                    let end = if off < log.len() && log.len() - off > POLL_LIMIT {
                        off + POLL_LIMIT
                    } else {
                        log.len()
                    };
                    let mut p: usize = off;
                    while p < end
                        invariant
                            l == log@,
                            l == log_of(self.messages@, key@),
                            end <= l.len(),
                            off <= p,
                            p <= end || off >= end,
                            off >= end ==> p == off,
                            window@ == Seq::new((p - off) as nat, |a: int| ((off + a) as usize, l[off + a])),
                        decreases end - p,
                    {
                        window.push((p, log[p]));
                        p = p + 1;
                        proof {
                            assert(window@ =~= Seq::new((p - off) as nat, |a: int| ((off + a) as usize, l[off + a])));
                        }
                    }
                    proof {
                        if off < l.len() {
                            assert(window@ =~= poll_window(l, off as int));
                        } else {
                            assert(window@ =~= poll_window(l, off as int));
                        }
                    }
                },
                None => {
                    proof {
                        assert(window@ =~= poll_window(log_of(self.messages@, key@), off as int));
                    }
                },
            }
            msgs.push((key.clone(), window));
            j = j + 1;
        }
        msgs
    }

    /// Records each of `offsets` as committed, a later entry for a key
    /// overriding an earlier one.
    pub fn commit(&mut self, offsets: &Vec<(String, usize)>)
        requires
            old(self).wf(),
        ensures
            final(self).wf(),
            final(self).node_id == old(self).node_id,
            final(self).msg_id == old(self).msg_id,
            final(self).messages@ == old(self).messages@,
            forall|k: Seq<char>| #[trigger] lookup(final(self).committed_offsets@, k) == committed_after(
                old(self).committed_offsets@,
                offsets@,
                k,
            ),
    {
        let ghost pre = self.committed_offsets@;
        let mut j: usize = 0;
        while j < offsets.len()
            invariant
                j <= offsets@.len(),
                self.wf(),
                self.node_id == old(self).node_id,
                self.msg_id == old(self).msg_id,
                self.messages@ == old(self).messages@,
                pre == old(self).committed_offsets@,
                forall|k: Seq<char>| #[trigger] lookup(self.committed_offsets@, k) == committed_after(
                    pre,
                    offsets@.subrange(0, j as int),
                    k,
                ),
            decreases offsets@.len() - j,
        {
            let ghost before = self.committed_offsets@;
            store(&mut self.committed_offsets, offsets[j].0.clone(), offsets[j].1);
            j = j + 1;
            proof {
                let s = offsets@.subrange(0, j as int);
                assert(s.drop_last() =~= offsets@.subrange(0, j - 1));
                assert forall|k: Seq<char>| #[trigger] lookup(self.committed_offsets@, k) == committed_after(
                    pre,
                    s,
                    k,
                ) by {
                    if k != offsets@[j - 1].0@ {
                        assert(lookup(self.committed_offsets@, k) == lookup(before, k));
                    }
                }
            }
        }
        proof {
            assert(offsets@.subrange(0, j as int) =~= offsets@);
        }
    }

    /// The committed offset of each of `keys`, 0 for a key never committed.
    pub fn list_committed(&self, keys: &Vec<String>) -> (offsets: Vec<(String, usize)>)
        ensures
            offsets@.len() == keys@.len(),
            forall|j: int|
                0 <= j < keys@.len() ==> (#[trigger] offsets@[j]).0 == keys@[j] && offsets@[j].1 == committed_of(
                    self.committed_offsets@,
                    keys@[j]@,
                ),
    {
        let mut offsets: Vec<(String, usize)> = Vec::new();
        let mut j: usize = 0;
        while j < keys.len()
            invariant
                j <= keys@.len(),
                offsets@.len() == j,
                forall|a: int|
                    0 <= a < j ==> (#[trigger] offsets@[a]).0 == keys@[a] && offsets@[a].1 == committed_of(
                        self.committed_offsets@,
                        keys@[a]@,
                    ),
            decreases keys@.len() - j,
        {
            let o = match find_key(&self.committed_offsets, &keys[j]) {
                Some(i) => self.committed_offsets[i].1,
                None => 0,
            };
            offsets.push((keys[j].clone(), o));
            j = j + 1;
        }
        offsets
    }
}

impl KafkaNode {
    /// Processes one inbound message; see `logged` for what each request does.
    /// Answers are not accepted, and a request whose answer would need an id
    /// beyond `usize::MAX` is refused; neither changes the node.
    pub fn handle_message(&mut self, msg: Message<LogPayload>) -> (r: Result<Vec<Message<LogPayload>>, NodeError>)
        requires
            old(self).wf(),
        ensures
            final(self).wf(),
            !log_accepts(msg.body.payload) ==> r == Err::<Vec<Message<LogPayload>>, NodeError>(NodeError::Unexpected)
                && *final(self) == *old(self),
            log_accepts(msg.body.payload) && old(self).msg_id == usize::MAX ==> r == Err::<
                Vec<Message<LogPayload>>,
                NodeError,
            >(NodeError::OutOfIds) && *final(self) == *old(self),
            log_accepts(msg.body.payload) && old(self).msg_id < usize::MAX ==> (r matches Ok(out) && logged(
                *old(self),
                msg,
                *final(self),
                out@,
            )),
    {
        let accepted = match &msg.body.payload {
            LogPayload::Send { .. } => true,
            LogPayload::Poll { .. } => true,
            LogPayload::CommitOffsets { .. } => true,
            LogPayload::ListCommittedOffsets { .. } => true,
            _ => false,
        };
        if !accepted {
            return Err(NodeError::Unexpected);
        }
        if self.msg_id == usize::MAX {
            return Err(NodeError::OutOfIds);
        }
        let Message { src, dest, body } = msg;
        let Body { msg_id, in_reply_to, payload } = body;
        let answer = match payload {
            LogPayload::Send { key, msg: v } => {
                let offset = self.append(key, v);
                LogPayload::SendOk { offset }
            },
            LogPayload::Poll { offsets } => LogPayload::PollOk { msgs: self.poll(&offsets) },
            LogPayload::CommitOffsets { offsets } => {
                self.commit(&offsets);
                LogPayload::CommitOffsetsOk
            },
            LogPayload::ListCommittedOffsets { keys } => {
                LogPayload::ListCommittedOffsetsOk { offsets: self.list_committed(&keys) }
            },
            // The other kinds were refused above.
            _ => LogPayload::CommitOffsetsOk,
        };
        let reply = self.generate_message(answer, src, msg_id);
        let mut out: Vec<Message<LogPayload>> = Vec::new();
        out.push(reply);
        Ok(out)
    }
}

impl Node<LogPayload> for KafkaNode {
    open spec fn inv(&self) -> bool {
        self.wf()
    }

    fn initialize(node_id: String, other: Vec<String>) -> (r: Self)
        ensures
            r.wf(),
            r.node_id == node_id,
            r.msg_id == 0,
            r.messages@.len() == 0,
            r.committed_offsets@.len() == 0,
    {
        KafkaNode::new(node_id)
    }

    /// See `handle_message`.
    fn handle(&mut self, msg: Message<LogPayload>, now: u64) -> (r: Result<Vec<Message<LogPayload>>, NodeError>)
        ensures
            final(self).wf(),
            !log_accepts(msg.body.payload) ==> r == Err::<Vec<Message<LogPayload>>, NodeError>(NodeError::Unexpected)
                && *final(self) == *old(self),
            log_accepts(msg.body.payload) && old(self).msg_id == usize::MAX ==> r == Err::<
                Vec<Message<LogPayload>>,
                NodeError,
            >(NodeError::OutOfIds) && *final(self) == *old(self),
            log_accepts(msg.body.payload) && old(self).msg_id < usize::MAX ==> (r matches Ok(out) && logged(
                *old(self),
                msg,
                *final(self),
                out@,
            )),
    {
        self.handle_message(msg)
    }

    fn tick(&mut self, now: u64) -> (r: Result<Vec<Message<LogPayload>>, NodeError>)
        ensures
            r matches Ok(out) && out@.len() == 0,
            *final(self) == *old(self),
    {
        Ok(Vec::new())
    }

    fn deadline(&self) -> (r: Option<u64>)
        ensures
            r is None,
    {
        None
    }
}

} // verus!
