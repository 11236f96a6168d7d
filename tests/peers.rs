use dist_sys::echo::{EchoNode, EchoPayload};
use dist_sys::g_counter::{CounterPayload, GCounterNode, REPLICATE_AFTER_MS};
use dist_sys::kafka::{KafkaNode, LogPayload};
use dist_sys::message::{handshake, Body, HandshakeError, InitPayload, Message};
use dist_sys::node::{Node, NodeError};
use dist_sys::runtime::{next_action, Action};
use dist_sys::unique_ids::{GeneratePayload, UniqueIdNode};

fn msg<P>(src: &str, dest: &str, id: Option<usize>, reply_to: Option<usize>, payload: P) -> Message<P> {
    Message { src: src.to_string(), dest: dest.to_string(), body: Body { msg_id: id, in_reply_to: reply_to, payload } }
}

#[test]
fn simple_echo_test() {
    let mut node = EchoNode::initialize("n1".to_string(), vec![]);
    let response = node
        .handle(msg("c1", "n1", Some(10), None, EchoPayload::Echo { echo: "Echo me 10".to_string() }), 0)
        .unwrap();
    assert_eq!(
        response,
        vec![msg("n1", "c1", Some(0), Some(10), EchoPayload::EchoOk { echo: "Echo me 10".to_string() })]
    );
}

#[test]
fn echo_ok_is_refused() {
    let mut node = EchoNode::new("n1".to_string());
    let r = node.handle_message(msg("c1", "n1", Some(1), None, EchoPayload::EchoOk { echo: "x".to_string() }));
    assert_eq!(r, Err(NodeError::Unexpected));
    assert_eq!(node.msg_id, 0);
}

#[test]
fn handshake_answers_init() {
    let init = msg(
        "c0",
        "n3",
        Some(1),
        None,
        InitPayload::Init { node_id: "n3".to_string(), node_ids: vec!["n1".to_string(), "n3".to_string()] },
    );
    let h = handshake(init).unwrap();
    assert_eq!(h.node_id, "n3");
    assert_eq!(h.node_ids, vec!["n1".to_string(), "n3".to_string()]);
    assert_eq!(h.reply, msg("n3", "c0", Some(usize::MAX), Some(1), InitPayload::InitOk));
}

#[test]
fn handshake_refuses_other_first_message() {
    let r = handshake(msg("c0", "n3", Some(1), None, InitPayload::InitOk));
    assert!(matches!(r, Err(HandshakeError::NotInit)));
}

#[test]
fn unique_ids_carry_node_and_counter() {
    let mut node = UniqueIdNode::initialize("n7".to_string(), vec![]);
    let a = node.handle(msg("c1", "n7", Some(4), None, GeneratePayload::Generate), 0).unwrap();
    let b = node.handle(msg("c1", "n7", Some(5), None, GeneratePayload::Generate), 0).unwrap();
    assert_eq!(a, vec![msg("n7", "c1", Some(0), Some(4), GeneratePayload::GenerateOk { id: "n7-1".to_string() })]);
    assert_eq!(b[0].body.payload, GeneratePayload::GenerateOk { id: "n7-2".to_string() });
    node.msg_id = 1233;
    let c = node.handle(msg("c1", "n7", Some(6), None, GeneratePayload::Generate), 0).unwrap();
    assert_eq!(c[0].body.payload, GeneratePayload::GenerateOk { id: "n7-1234".to_string() });
}

#[test]
fn counter_adds_reads_and_replicates() {
    let nodes = vec!["n1".to_string(), "n2".to_string(), "n3".to_string()];
    let mut node = GCounterNode::initialize("n1".to_string(), nodes);
    let out = node.handle(msg("c1", "n1", Some(1), None, CounterPayload::Add { delta: 5 }), 10).unwrap();
    assert_eq!(out, vec![msg("n1", "c1", Some(0), Some(1), CounterPayload::AddOk)]);
    node.handle(msg("n2", "n1", Some(3), None, CounterPayload::Replicate { value: 4 }), 20).unwrap();
    node.handle(msg("n2", "n1", Some(4), None, CounterPayload::Replicate { value: 6 }), 30).unwrap();
    let out = node.handle(msg("c1", "n1", Some(2), None, CounterPayload::Read), 40).unwrap();
    assert_eq!(out, vec![msg("n1", "c1", Some(1), Some(2), CounterPayload::ReadOk { value: 11 })]);

    assert_eq!(node.deadline(), Some(40 + REPLICATE_AFTER_MS));
    assert!(node.tick(40 + REPLICATE_AFTER_MS - 1).unwrap().is_empty());
    let out = node.tick(40 + REPLICATE_AFTER_MS).unwrap();
    assert_eq!(
        out,
        vec![
            msg("n1", "n2", Some(2), None, CounterPayload::Replicate { value: 5 }),
            msg("n1", "n3", Some(3), None, CounterPayload::Replicate { value: 5 }),
        ]
    );
    assert!(node.tick(40 + 2 * REPLICATE_AFTER_MS).unwrap().is_empty());
}

#[test]
fn counter_errors() {
    let mut node = GCounterNode::new("n1".to_string(), vec!["n1".to_string()]);
    node.handle_message(msg("c1", "n1", Some(1), None, CounterPayload::Add { delta: usize::MAX }), 0).unwrap();
    let r = node.handle_message(msg("c1", "n1", Some(2), None, CounterPayload::Add { delta: 1 }), 0);
    assert_eq!(r, Err(NodeError::Overflow));
    node.handle_message(msg("n2", "n1", None, None, CounterPayload::Replicate { value: 1 }), 0).unwrap();
    let r = node.handle_message(msg("c1", "n1", Some(3), None, CounterPayload::Read), 0);
    assert_eq!(r, Err(NodeError::Overflow));
    let r = node.handle_message(msg("c1", "n1", Some(4), None, CounterPayload::AddOk), 0);
    assert_eq!(r, Err(NodeError::Unexpected));
}

#[test]
fn log_sends_polls_and_commits() {
    let mut node = KafkaNode::initialize("n1".to_string(), vec![]);
    for (i, v) in [10usize, 11, 12, 13, 14].iter().enumerate() {
        let out = node
            .handle(msg("c1", "n1", Some(i), None, LogPayload::Send { key: "k1".to_string(), msg: *v }), 0)
            .unwrap();
        assert_eq!(out[0].body.payload, LogPayload::SendOk { offset: i });
    }
    let out = node
        .handle(msg("c1", "n1", Some(9), None, LogPayload::Send { key: "k2".to_string(), msg: 7 }), 0)
        .unwrap();
    assert_eq!(out[0].body.payload, LogPayload::SendOk { offset: 0 });

    let poll = LogPayload::Poll { offsets: vec![("k1".to_string(), 1), ("k2".to_string(), 0), ("k3".to_string(), 0)] };
    let out = node.handle(msg("c1", "n1", Some(20), None, poll), 0).unwrap();
    assert_eq!(
        out[0].body.payload,
        LogPayload::PollOk {
            msgs: vec![
                ("k1".to_string(), vec![(1, 11), (2, 12), (3, 13)]),
                ("k2".to_string(), vec![(0, 7)]),
                ("k3".to_string(), vec![]),
            ]
        }
    );

    let list = LogPayload::ListCommittedOffsets { keys: vec!["k1".to_string(), "k9".to_string()] };
    let out = node.handle(msg("c1", "n1", Some(21), None, list.clone()), 0).unwrap();
    assert_eq!(
        out[0].body.payload,
        LogPayload::ListCommittedOffsetsOk { offsets: vec![("k1".to_string(), 0), ("k9".to_string(), 0)] }
    );

    let commit = LogPayload::CommitOffsets { offsets: vec![("k1".to_string(), 2), ("k1".to_string(), 3)] };
    let out = node.handle(msg("c1", "n1", Some(22), None, commit), 0).unwrap();
    assert_eq!(out[0].body.payload, LogPayload::CommitOffsetsOk);
    let out = node.handle(msg("c1", "n1", Some(23), None, list), 0).unwrap();
    assert_eq!(
        out[0].body.payload,
        LogPayload::ListCommittedOffsetsOk { offsets: vec![("k1".to_string(), 3), ("k9".to_string(), 0)] }
    );

    let r = node.handle(msg("c1", "n1", Some(24), None, LogPayload::CommitOffsetsOk), 0);
    assert_eq!(r, Err(NodeError::Unexpected));
}

#[test]
fn driver_ticks_before_dispatching() {
    assert_eq!(next_action(Some(300), 300, true), Action::Tick);
    assert_eq!(next_action(Some(300), 299, true), Action::Dispatch);
    assert_eq!(next_action(Some(300), 299, false), Action::WaitUntil(300));
    assert_eq!(next_action(None, 5, true), Action::Dispatch);
    assert_eq!(next_action(None, 5, false), Action::WaitForever);
}
