use vstd::prelude::*;

verus! {

/// One envelope on the wire: who sent it, who it is for, and what it says.
#[derive(Debug, Clone, PartialEq, Eq)]
pub struct Message<S> {
    pub src: String,
    pub dest: String,
    pub body: Body<S>,
}

/// The correlation ids of a message and its algorithm-specific payload.
#[derive(Debug, Clone, PartialEq, Eq)]
pub struct Body<S> {
    pub msg_id: Option<usize>,
    pub in_reply_to: Option<usize>,
    pub payload: S,
}

/// The payloads of the start-up exchange.
#[derive(Debug, Clone, PartialEq, Eq)]
pub enum InitPayload {
    Init { node_id: String, node_ids: Vec<String> },
    InitOk,
}

/// The message id that a node puts on its acknowledgment of `init`; it lies
/// outside the range that the node's own counter hands out first.
pub const INIT_OK_ID: usize = usize::MAX;

/// What the handshake yields: this node's id, every node's id, and the
/// acknowledgment to send before anything else.
pub struct Handshake {
    pub node_id: String,
    pub node_ids: Vec<String>,
    pub reply: Message<InitPayload>,
}

/// The first message was not an `init`.
#[derive(Debug, Clone, Copy, PartialEq, Eq)]
pub enum HandshakeError {
    NotInit,
}

/// `r` answers `msg`: it goes from `from` back to the sender of `msg`, carries
/// the id `msg_id`, and is correlated to `msg` by its `in_reply_to`.
pub open spec fn is_reply_to<S, T>(r: Message<T>, from: String, msg: Message<S>, msg_id: usize) -> bool {
    &&& r.src == from
    &&& r.dest == msg.src
    &&& r.body.msg_id == Some(msg_id)
    &&& r.body.in_reply_to == msg.body.msg_id
}

/// Reads the first message of a session: it must be an `init`, whose node id
/// and id list are returned together with the `init_ok` that answers it.
pub fn handshake(init: Message<InitPayload>) -> (r: Result<Handshake, HandshakeError>)
    ensures
        match init.body.payload {
            InitPayload::Init { node_id, node_ids } => r matches Ok(h) && h.node_id == node_id
                && h.node_ids == node_ids && is_reply_to(h.reply, init.dest, init, INIT_OK_ID)
                && h.reply.body.payload is InitOk,
            InitPayload::InitOk => r == Err::<Handshake, HandshakeError>(HandshakeError::NotInit),
        },
{
    let Message { src, dest, body } = init;
    match body.payload {
        InitPayload::Init { node_id, node_ids } => {
            let reply = Message {
                src: dest,
                dest: src,
                body: Body { msg_id: Some(INIT_OK_ID), in_reply_to: body.msg_id, payload: InitPayload::InitOk },
            };
            Ok(Handshake { node_id, node_ids, reply })
        },
        InitPayload::InitOk => Err(HandshakeError::NotInit),
    }
}

/// The entries of `ns`, in order, whose text differs from `id`.
pub open spec fn all_but(ns: Seq<String>, id: Seq<char>) -> Seq<String>
    decreases ns.len(),
{
    if ns.len() == 0 {
        ns
    } else {
        let r = all_but(ns.drop_last(), id);
        if ns.last()@ != id {
            r.push(ns.last())
        } else {
            r
        }
    }
}

/// Copies the entries of `ns` that differ from `id`, in order.
pub fn all_but_exec(ns: &Vec<String>, id: &String) -> (r: Vec<String>)
    ensures
        r@ == all_but(ns@, id@),
{
    let mut r: Vec<String> = Vec::new();
    let mut i: usize = 0;
    while i < ns.len()
        invariant
            i <= ns@.len(),
            r@ == all_but(ns@.subrange(0, i as int), id@),
        decreases ns@.len() - i,
    {
        proof {
            let s = ns@.subrange(0, i + 1);
            assert(s.drop_last() =~= ns@.subrange(0, i as int));
            assert(s.last() == ns@[i as int]);
        }
        if !(ns[i] == *id) {
            r.push(ns[i].clone());
        }
        i = i + 1;
    }
    proof {
        assert(ns@.subrange(0, i as int) =~= ns@);
    }
    r
}

/// `s` with every entry dropped whose text an earlier entry already has.
pub open spec fn distinct_ids(s: Seq<String>) -> Seq<String>
    decreases s.len(),
{
    if s.len() == 0 {
        s
    } else {
        let r = distinct_ids(s.drop_last());
        if exists|i: int| 0 <= i < r.len() && r[i]@ == s.last()@ {
            r
        } else {
            r.push(s.last())
        }
    }
}

/// No entry of `all_but(ns, id)` has the text `id`.
pub proof fn lemma_all_but_excludes(ns: Seq<String>, id: Seq<char>)
    ensures
        forall|i: int| 0 <= i < all_but(ns, id).len() ==> (#[trigger] all_but(ns, id)[i])@ != id,
    decreases ns.len(),
{
    if ns.len() > 0 {
        lemma_all_but_excludes(ns.drop_last(), id);
        let r = all_but(ns.drop_last(), id);
        assert forall|i: int| 0 <= i < all_but(ns, id).len() implies (#[trigger] all_but(ns, id)[i])@ != id by {
            if i < r.len() {
                assert(all_but(ns, id)[i] == r[i]);
            }
        }
    }
}

/// The entries of `distinct_ids(s)` have pairwise different texts, and each
/// is an entry of `s`.
pub proof fn lemma_distinct_ids(s: Seq<String>)
    ensures
        forall|i: int, j: int|
            0 <= i < j < distinct_ids(s).len() ==> (#[trigger] distinct_ids(s)[i])@ != (
            #[trigger] distinct_ids(s)[j])@,
        forall|i: int| 0 <= i < distinct_ids(s).len() ==> s.contains(#[trigger] distinct_ids(s)[i]),
    decreases s.len(),
{
    if s.len() > 0 {
        lemma_distinct_ids(s.drop_last());
        let r = distinct_ids(s.drop_last());
        assert forall|i: int| 0 <= i < distinct_ids(s).len() implies s.contains(#[trigger] distinct_ids(s)[i]) by {
            if i < r.len() {
                let k = choose|k: int| 0 <= k < s.drop_last().len() && s.drop_last()[k] == r[i];
                assert(s[k] == r[i]);
            } else {
                assert(s[s.len() - 1] == distinct_ids(s)[i]);
            }
        }
    }
}

/// Copies the entries of `s` whose text no earlier entry has, in order.
pub fn distinct_exec(s: &Vec<String>) -> (r: Vec<String>)
    ensures
        r@ == distinct_ids(s@),
{
    let mut r: Vec<String> = Vec::new();
    let mut i: usize = 0;
    while i < s.len()
        invariant
            i <= s@.len(),
            r@ == distinct_ids(s@.subrange(0, i as int)),
        decreases s@.len() - i,
    {
        proof {
            let t = s@.subrange(0, i + 1);
            assert(t.drop_last() =~= s@.subrange(0, i as int));
            assert(t.last() == s@[i as int]);
        }
        let mut seen = false;
        let mut j: usize = 0;
        while j < r.len()
            invariant
                j <= r@.len(),
                i < s@.len(),
                seen <==> exists|k: int| 0 <= k < j && r@[k]@ == s@[i as int]@,
            decreases r@.len() - j,
        {
            if r[j] == s[i] {
                seen = true;
            }
            j = j + 1;
        }
        if !seen {
            r.push(s[i].clone());
        }
        i = i + 1;
    }
    proof {
        assert(s@.subrange(0, i as int) =~= s@);
    }
    r
}

} // verus!
