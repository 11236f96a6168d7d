use crate::broadcast::{
    acked, delivered, fanout, handled, pid, restamped, retry_time, sent_at,
    stale_messages, BroadcastNode, BroadcastPayload, Pending, RETRY_AFTER_MS,
};
use crate::message::{all_but, Message};
use crate::runtime::is_due;
use vstd::prelude::*;

verus! {

/// Delivering the same value twice (a duplicated message) leaves it known
/// exactly once; only the first delivery of a new value gossips it, while the
/// second one only acknowledges: it learns nothing and adds nothing pending.
pub proof fn lemma_delivery_idempotent(
    n0: BroadcastNode,
    m1: Message<BroadcastPayload>,
    t1: u64,
    n1: BroadcastNode,
    o1: Seq<Message<BroadcastPayload>>,
    m2: Message<BroadcastPayload>,
    t2: u64,
    n2: BroadcastNode,
    o2: Seq<Message<BroadcastPayload>>,
    v: usize,
)
    requires
        n0.wf(),
        delivered(n0, m1, v, t1, n1, o1),
        delivered(n1, m2, v, t2, n2, o2),
    ensures
        exists|i: int| 0 <= i < n2.values@.len() && n2.values@[i] == v,
        forall|i: int, j: int|
            0 <= i < n2.values@.len() && 0 <= j < n2.values@.len() && n2.values@[i] == v && n2.values@[j] == v
                ==> i == j,
        !n0.values@.contains(v) ==> o1.drop_first() == fanout(
            n0.node_id,
            all_but(n0.neighbors@, m1.src@),
            n0.msg_id + 1,
            v,
        ),
        o2.len() == 1,
        o2[0].body.payload is BroadcastOk,
        n2.values@ == n1.values@,
        n2.pending@ == n1.pending@,
{
    if !n0.values@.contains(v) {
        assert(n1.values@[n0.values@.len() as int] == v);
        assert forall|i: int, j: int|
            0 <= i < n2.values@.len() && 0 <= j < n2.values@.len() && n2.values@[i] == v && n2.values@[j] == v
                implies i == j by {
            if i < n0.values@.len() {
                assert(n0.values@[i] == v);
            }
            if j < n0.values@.len() {
                assert(n0.values@[j] == v);
            }
        }
    } else {
        let k = choose|k: int| 0 <= k < n0.values@.len() && n0.values@[k] == v;
        assert(n2.values@[k] == v);
    }
}

/// An acknowledgment with `in_reply_to` equal to `x` removes exactly the
/// pending entry whose message id is `x`: every other entry stays.
pub proof fn lemma_ack_removes_exactly(pre: BroadcastNode, x: Option<usize>, post: BroadcastNode)
    requires
        pre.wf(),
        acked(pre, x, post),
    ensures
        forall|p: Pending|
            post.pending@.contains(p) <==> (pre.pending@.contains(p) && p.message.body.msg_id != x),
{
    if exists|k: int| 0 <= k < pre.pending@.len() && pre.pending@[k].message.body.msg_id == x {
        let k = choose|k: int|
            0 <= k < pre.pending@.len() && pre.pending@[k].message.body.msg_id == x && post.pending@
                == pre.pending@.remove(k);
        assert forall|p: Pending|
            post.pending@.contains(p) <==> (pre.pending@.contains(p) && p.message.body.msg_id != x) by {
            if post.pending@.contains(p) {
                let a = choose|a: int| 0 <= a < post.pending@.len() && post.pending@[a] == p;
                let a0 = if a < k { a } else { a + 1 };
                assert(post.pending@[a] == pre.pending@[a0]);
                assert(pid(pre.pending@[a0]) != pid(pre.pending@[k]));
            }
            if pre.pending@.contains(p) && p.message.body.msg_id != x {
                let a = choose|a: int| 0 <= a < pre.pending@.len() && pre.pending@[a] == p;
                if a < k {
                    assert(post.pending@[a] == p);
                } else {
                    assert(a != k);
                    assert(post.pending@[a - 1] == p);
                }
            }
        }
    }
}

/// A sweep keeps every pending entry, with its message and so its id, in
/// place: an acknowledgment removes the same entry whether it comes before or
/// after a sweep.
pub proof fn lemma_sweep_keeps_entries(ps: Seq<Pending>, now: u64)
    ensures
        restamped(ps, now).len() == ps.len(),
        forall|i: int| 0 <= i < ps.len() ==> (#[trigger] restamped(ps, now)[i]).message == ps[i].message,
{
}

/// Every message that a sweep sends again belongs to an entry of the swept
/// list.
pub proof fn lemma_resent_come_from_pending(ps: Seq<Pending>, now: u64)
    ensures
        forall|i: int|
            0 <= i < stale_messages(ps, now).len() ==> exists|k: int|
                0 <= k < ps.len() && ps[k].message == #[trigger] stale_messages(ps, now)[i],
    decreases ps.len(),
{
    if ps.len() > 0 {
        lemma_resent_come_from_pending(ps.drop_last(), now);
        let r = stale_messages(ps.drop_last(), now);
        assert forall|i: int|
            0 <= i < stale_messages(ps, now).len() implies exists|k: int|
                0 <= k < ps.len() && ps[k].message == #[trigger] stale_messages(ps, now)[i] by {
            if i < r.len() {
                let k = choose|k: int| 0 <= k < ps.drop_last().len() && ps.drop_last()[k].message == r[i];
                assert(ps[k].message == stale_messages(ps, now)[i]);
            } else {
                assert(ps[ps.len() - 1].message == stale_messages(ps, now)[i]);
            }
        }
    }
}

/// A pending entry that is due at `now` is sent again by the sweep at `now`,
/// and from then on counts its age from `now`.
pub proof fn lemma_due_entry_resent(ps: Seq<Pending>, now: u64, k: int)
    requires
        0 <= k < ps.len(),
        now >= ps[k].sent_at + RETRY_AFTER_MS,
    ensures
        stale_messages(ps, now).contains(ps[k].message),
        restamped(ps, now)[k] == (Pending { sent_at: now, message: ps[k].message }),
    decreases ps.len(),
{
    if k < ps.len() - 1 {
        lemma_due_entry_resent(ps.drop_last(), now, k);
        let r = stale_messages(ps.drop_last(), now);
        let j = choose|j: int| 0 <= j < r.len() && r[j] == ps[k].message;
        assert(stale_messages(ps, now)[j] == ps[k].message);
    } else {
        let r = stale_messages(ps.drop_last(), now);
        assert(stale_messages(ps, now)[r.len() as int] == ps[k].message);
    }
}

/// The moment the node reports for its next sweep comes no later than
/// `RETRY_AFTER_MS` after any pending entry was last sent, so from then on the
/// driver chooses to sweep, and the sweep sends that entry again (see
/// `lemma_due_entry_resent`).
pub proof fn lemma_deadline_covers_pending(node: BroadcastNode, d: u64, k: int, now: u64)
    requires
        0 <= k < node.pending@.len(),
        forall|j: int| 0 <= j < node.pending@.len() ==> d <= retry_time(#[trigger] node.pending@[j].sent_at),
        node.pending@[k].sent_at <= u64::MAX - RETRY_AFTER_MS,
    ensures
        d <= node.pending@[k].sent_at + RETRY_AFTER_MS,
        now >= node.pending@[k].sent_at + RETRY_AFTER_MS ==> is_due(Some(d), now),
{
    assert(d <= retry_time(node.pending@[k].sent_at));
}

/// A gossip message left unacknowledged is sent again within the retry
/// window: from `RETRY_AFTER_MS` after it was last sent, the node's deadline
/// (as `deadline` reports it) has passed, so the driver chooses to sweep
/// (`next_action` picks `Tick` when `is_due`), and that sweep sends the same
/// message again and restarts its wait.
pub proof fn lemma_resent_within_window(node: BroadcastNode, d: u64, k: int, now: u64)
    requires
        0 <= k < node.pending@.len(),
        forall|j: int| 0 <= j < node.pending@.len() ==> d <= retry_time(#[trigger] node.pending@[j].sent_at),
        now >= node.pending@[k].sent_at + RETRY_AFTER_MS,
    ensures
        is_due(Some(d), now),
        stale_messages(node.pending@, now).contains(node.pending@[k].message),
        restamped(node.pending@, now)[k] == (Pending { sent_at: now, message: node.pending@[k].message }),
{
    lemma_deadline_covers_pending(node, d, k, now);
    lemma_due_entry_resent(node.pending@, now, k);
}

/// Once a gossip message is acknowledged, no sweep sends it again: no entry
/// with its id is left, and every id handed out later is larger.
pub proof fn lemma_acked_never_resent(pre: BroadcastNode, id: usize, post: BroadcastNode, now: u64)
    requires
        pre.wf(),
        post.wf(),
        acked(pre, Some(id), post),
        exists|k: int| 0 <= k < pre.pending@.len() && pre.pending@[k].message.body.msg_id == Some(id),
    ensures
        id < post.msg_id,
        forall|i: int|
            0 <= i < stale_messages(post.pending@, now).len() ==> (#[trigger] stale_messages(
                post.pending@,
                now,
            )[i]).body.msg_id != Some(id),
{
    let k = choose|k: int| 0 <= k < pre.pending@.len() && pre.pending@[k].message.body.msg_id == Some(id);
    assert(pid(pre.pending@[k]) == id);
    lemma_ack_removes_exactly(pre, Some(id), post);
    lemma_resent_come_from_pending(post.pending@, now);
    assert forall|i: int|
        0 <= i < stale_messages(post.pending@, now).len() implies (#[trigger] stale_messages(
            post.pending@,
            now,
        )[i]).body.msg_id != Some(id) by {
        let j = choose|j: int|
            0 <= j < post.pending@.len() && post.pending@[j].message == stale_messages(post.pending@, now)[i];
        assert(post.pending@.contains(post.pending@[j]));
    }
}

/// Every id that one step of a node hands out is larger than every id that
/// the step before it handed out: within a step the new messages are numbered
/// consecutively from the counter, which ends past the last of them.
pub proof fn lemma_ids_increase(
    n0: BroadcastNode,
    m1: Message<BroadcastPayload>,
    t1: u64,
    n1: BroadcastNode,
    o1: Seq<Message<BroadcastPayload>>,
    m2: Message<BroadcastPayload>,
    t2: u64,
    n2: BroadcastNode,
    o2: Seq<Message<BroadcastPayload>>,
)
    requires
        handled(n0, m1, t1, n1, o1),
        handled(n1, m2, t2, n2, o2),
    ensures
        forall|i: int| 0 <= i < o1.len() ==> (#[trigger] o1[i]).body.msg_id == Some((n0.msg_id + i) as usize),
        forall|j: int| 0 <= j < o2.len() ==> (#[trigger] o2[j]).body.msg_id == Some((n1.msg_id + j) as usize),
        n1.msg_id == n0.msg_id + o1.len(),
        n2.msg_id == n1.msg_id + o2.len(),
        forall|i: int, j: int|
            0 <= i < o1.len() && 0 <= j < o2.len() ==> (#[trigger] o1[i]).body.msg_id->0 < (
            #[trigger] o2[j]).body.msg_id->0,
{
    lemma_step_ids(n0, m1, t1, n1, o1);
    lemma_step_ids(n1, m2, t2, n2, o2);
}

/// One step numbers its new messages consecutively from the counter, and
/// moves the counter past them.
pub proof fn lemma_step_ids(
    pre: BroadcastNode,
    msg: Message<BroadcastPayload>,
    now: u64,
    post: BroadcastNode,
    out: Seq<Message<BroadcastPayload>>,
)
    requires
        handled(pre, msg, now, post, out),
    ensures
        forall|i: int| 0 <= i < out.len() ==> (#[trigger] out[i]).body.msg_id == Some((pre.msg_id + i) as usize),
        post.msg_id == pre.msg_id + out.len(),
{
    match msg.body.payload {
        BroadcastPayload::Broadcast { message } => {
            if !pre.values@.contains(message) {
                let targets = all_but(pre.neighbors@, msg.src@);
                assert forall|i: int| 0 <= i < out.len() implies (#[trigger] out[i]).body.msg_id == Some(
                    (pre.msg_id + i) as usize,
                ) by {
                    if i > 0 {
                        assert(out[i] == out.drop_first()[i - 1]);
                    }
                }
            }
        },
        _ => {},
    }
}

/// A value learned from a `Broadcast` is left pending towards every
/// neighbour other than its sender, in a gossip message that carries it.
pub proof fn lemma_new_value_pending_for_neighbors(
    pre: BroadcastNode,
    msg: Message<BroadcastPayload>,
    v: usize,
    now: u64,
    post: BroadcastNode,
    out: Seq<Message<BroadcastPayload>>,
    n: String,
)
    requires
        delivered(pre, msg, v, now, post, out),
        !pre.values@.contains(v),
        pre.neighbors@.contains(n),
        n@ != msg.src@,
    ensures
        post.values@.contains(v),
        exists|k: int|
            0 <= k < post.pending@.len() && post.pending@[k].message.dest == n
                && post.pending@[k].message.body.payload == (BroadcastPayload::Broadcast { message: v }),
{
    let targets = all_but(pre.neighbors@, msg.src@);
    lemma_targets_keep(pre.neighbors@, msg.src@, n);
    let j = choose|j: int| 0 <= j < targets.len() && targets[j] == n;
    let k = pre.pending@.len() + j;
    assert(post.pending@[k] == sent_at(out.drop_first(), now)[j]);
    assert(post.values@[pre.values@.len() as int] == v);
}

/// Every entry of `ns` other than `sender` is kept by `all_but`.
pub proof fn lemma_targets_keep(ns: Seq<String>, sender: Seq<char>, n: String)
    requires
        ns.contains(n),
        n@ != sender,
    ensures
        all_but(ns, sender).contains(n),
    decreases ns.len(),
{
    let r = all_but(ns.drop_last(), sender);
    if ns.last() == n {
        assert(all_but(ns, sender)[r.len() as int] == n);
    } else {
        let i = choose|i: int| 0 <= i < ns.len() && ns[i] == n;
        assert(ns.drop_last()[i] == n);
        lemma_targets_keep(ns.drop_last(), sender, n);
        let j = choose|j: int| 0 <= j < r.len() && r[j] == n;
        assert(all_but(ns, sender)[j] == n);
    }
}

} // verus!
