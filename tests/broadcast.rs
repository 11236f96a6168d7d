use dist_sys::broadcast::{BroadcastNode, BroadcastPayload, RETRY_AFTER_MS};
use dist_sys::message::{Body, Message};
use dist_sys::node::{Node, NodeError};

fn msg(src: &str, dest: &str, id: usize, reply_to: Option<usize>, payload: BroadcastPayload) -> Message<BroadcastPayload> {
    Message {
        src: src.to_string(),
        dest: dest.to_string(),
        body: Body { msg_id: Some(id), in_reply_to: reply_to, payload },
    }
}

fn topology_n1() -> BroadcastPayload {
    BroadcastPayload::Topology {
        topology: vec![
            ("n1".to_string(), vec!["n2".to_string(), "n3".to_string()]),
            ("n2".to_string(), vec!["n1".to_string()]),
        ],
    }
}

fn node_with_topology() -> BroadcastNode {
    let mut node = BroadcastNode::initialize("n1".to_string(), vec!["n1".to_string(), "n2".to_string(), "n3".to_string()]);
    let out = node.handle(msg("c1", "n1", 1, None, topology_n1()), 0).unwrap();
    assert_eq!(out.len(), 1);
    node
}

fn read_values(node: &mut BroadcastNode) -> Vec<usize> {
    let out = node.handle(msg("c1", "n1", 99, None, BroadcastPayload::Read), 0).unwrap();
    assert_eq!(out.len(), 1);
    match &out[0].body.payload {
        BroadcastPayload::ReadOk { messages } => {
            let mut v = messages.clone();
            v.sort();
            v
        }
        other => panic!("unexpected answer {:?}", other),
    }
}

#[test]
fn topology_scopes_fanout() {
    let mut node = BroadcastNode::initialize("n1".to_string(), vec![]);
    let out = node.handle(msg("c1", "n1", 5, None, topology_n1()), 0).unwrap();
    assert_eq!(out, vec![msg("n1", "c1", 0, Some(5), BroadcastPayload::TopologyOk)]);
    assert_eq!(node.neighbors, vec!["n2".to_string(), "n3".to_string()]);

    let out = node.handle(msg("n2", "n1", 7, None, BroadcastPayload::Broadcast { message: 42 }), 10).unwrap();
    assert_eq!(
        out,
        vec![
            msg("n1", "n2", 1, Some(7), BroadcastPayload::BroadcastOk),
            msg("n1", "n3", 2, None, BroadcastPayload::Broadcast { message: 42 }),
        ]
    );
    assert_eq!(node.pending.len(), 1);
    assert_eq!(node.pending[0].sent_at, 10);
    assert_eq!(node.pending[0].message.dest, "n3");
}

#[test]
fn topology_without_own_entry_leaves_no_neighbors() {
    let mut node = BroadcastNode::initialize("n9".to_string(), vec![]);
    node.neighbors = vec!["n4".to_string()];
    let out = node.handle(msg("c1", "n9", 1, None, topology_n1()), 0).unwrap();
    assert_eq!(out.len(), 1);
    assert!(node.neighbors.is_empty());
}

#[test]
fn duplicate_delivery_is_idempotent() {
    let mut node = node_with_topology();
    let first = node.handle(msg("c1", "n1", 2, None, BroadcastPayload::Broadcast { message: 5 }), 0).unwrap();
    assert_eq!(first.len(), 3);
    let pending = node.pending.len();
    let second = node.handle(msg("c1", "n1", 3, None, BroadcastPayload::Broadcast { message: 5 }), 1).unwrap();
    assert_eq!(second, vec![msg("n1", "c1", 4, Some(3), BroadcastPayload::BroadcastOk)]);
    assert_eq!(node.pending.len(), pending);
    assert_eq!(node.values, vec![5]);
}

#[test]
fn read_reflects_local_values() {
    let mut node = node_with_topology();
    assert_eq!(read_values(&mut node), Vec::<usize>::new());
    for (i, v) in [3usize, 7, 3, 9].iter().enumerate() {
        node.handle(msg("c1", "n1", 10 + i, None, BroadcastPayload::Broadcast { message: *v }), 0).unwrap();
    }
    assert_eq!(read_values(&mut node), vec![3, 7, 9]);
}

#[test]
fn ack_removes_only_matching_entry() {
    let mut node = node_with_topology();
    node.handle(msg("c1", "n1", 2, None, BroadcastPayload::Broadcast { message: 1 }), 0).unwrap();
    node.handle(msg("c1", "n1", 3, None, BroadcastPayload::Broadcast { message: 2 }), 0).unwrap();
    let ids: Vec<Option<usize>> = node.pending.iter().map(|p| p.message.body.msg_id).collect();
    assert_eq!(ids, vec![Some(2), Some(3), Some(5), Some(6)]);

    let out = node.handle(msg("n3", "n1", 0, Some(5), BroadcastPayload::BroadcastOk), 0).unwrap();
    assert!(out.is_empty());
    let ids: Vec<Option<usize>> = node.pending.iter().map(|p| p.message.body.msg_id).collect();
    assert_eq!(ids, vec![Some(2), Some(3), Some(6)]);

    node.handle(msg("n3", "n1", 1, Some(77), BroadcastPayload::BroadcastOk), 0).unwrap();
    node.handle(msg("n3", "n1", 1, None, BroadcastPayload::BroadcastOk), 0).unwrap();
    assert_eq!(node.pending.len(), 3);
}

#[test]
fn ids_strictly_increase() {
    let mut node = node_with_topology();
    let mut seen: Vec<usize> = Vec::new();
    for v in 0..5usize {
        let out = node.handle(msg("n2", "n1", v, None, BroadcastPayload::Broadcast { message: v }), 0).unwrap();
        for m in out {
            seen.push(m.body.msg_id.unwrap());
        }
        let out = node.handle(msg("c1", "n1", v, None, BroadcastPayload::Read), 0).unwrap();
        seen.push(out[0].body.msg_id.unwrap());
    }
    assert_eq!(seen[0], 1);
    for w in seen.windows(2) {
        assert!(w[0] < w[1]);
    }
}

#[test]
fn unacknowledged_gossip_is_resent() {
    let mut node = node_with_topology();
    node.handle(msg("c1", "n1", 2, None, BroadcastPayload::Broadcast { message: 8 }), 1000).unwrap();
    assert_eq!(node.deadline(), Some(1000 + RETRY_AFTER_MS));
    assert!(node.tick(1000 + RETRY_AFTER_MS - 1).unwrap().is_empty());

    let resent = node.tick(1000 + RETRY_AFTER_MS).unwrap();
    assert_eq!(
        resent,
        vec![
            msg("n1", "n2", 2, None, BroadcastPayload::Broadcast { message: 8 }),
            msg("n1", "n3", 3, None, BroadcastPayload::Broadcast { message: 8 }),
        ]
    );
    assert!(node.pending.iter().all(|p| p.sent_at == 1000 + RETRY_AFTER_MS));
    assert_eq!(node.deadline(), Some(1000 + 2 * RETRY_AFTER_MS));

    node.handle(msg("n2", "n1", 0, Some(2), BroadcastPayload::BroadcastOk), 1400).unwrap();
    let resent = node.tick(5000).unwrap();
    assert_eq!(resent, vec![msg("n1", "n3", 3, None, BroadcastPayload::Broadcast { message: 8 })]);
    node.handle(msg("n3", "n1", 0, Some(3), BroadcastPayload::BroadcastOk), 5001).unwrap();
    assert!(node.tick(100_000).unwrap().is_empty());
    assert_eq!(node.deadline(), None);
}

#[test]
fn answers_are_refused() {
    let mut node = node_with_topology();
    let r = node.handle(msg("c1", "n1", 2, None, BroadcastPayload::TopologyOk), 0);
    assert_eq!(r, Err(NodeError::Unexpected));
    let r = node.handle(msg("c1", "n1", 2, None, BroadcastPayload::ReadOk { messages: vec![1] }), 0);
    assert_eq!(r, Err(NodeError::Unexpected));
}

#[test]
fn exhausted_ids_are_refused() {
    let mut node = node_with_topology();
    node.msg_id = usize::MAX - 1;
    let r = node.handle(msg("c1", "n1", 2, None, BroadcastPayload::Broadcast { message: 4 }), 0);
    assert_eq!(r, Err(NodeError::OutOfIds));
    assert!(node.values.is_empty());
    let out = node.handle(msg("c1", "n1", 3, None, BroadcastPayload::Read), 0).unwrap();
    assert_eq!(out[0].body.msg_id, Some(usize::MAX - 1));
}

#[test]
fn topology_keeps_each_neighbor_once_and_never_self() {
    let mut node = BroadcastNode::initialize("n1".to_string(), vec![]);
    let topology = BroadcastPayload::Topology {
        topology: vec![(
            "n1".to_string(),
            vec!["n2".to_string(), "n1".to_string(), "n3".to_string(), "n2".to_string()],
        )],
    };
    node.handle(msg("c1", "n1", 1, None, topology), 0).unwrap();
    assert_eq!(node.neighbors, vec!["n2".to_string(), "n3".to_string()]);
    let out = node.handle(msg("c1", "n1", 2, None, BroadcastPayload::Broadcast { message: 1 }), 0).unwrap();
    assert_eq!(out.len(), 3);
}
