use rustengan::combined::{EchoNode, Payload};
use rustengan::message::{Message, MessageBody};
use rustengan::node::{Node, NodeError};

fn send(msg_id: usize, payload: Payload) -> Message<Payload> {
    Message {
        src: "c1".to_string(),
        dest: "n1".to_string(),
        body: MessageBody { msg_id: Some(msg_id), in_reply_to: None, payload },
    }
}

#[test]
fn the_combined_node_echoes_and_generates() {
    let mut node = EchoNode::new();
    let mut output = Vec::new();
    let init = Payload::Init { node_id: "n1".to_string(), node_ids: vec!["n1".to_string()] };
    assert_eq!(node.step_at(send(1, init), Some(77), &mut output), Ok(()));
    assert_eq!(node.step_at(send(2, Payload::Echo { echo: "hello".to_string() }), Some(78), &mut output), Ok(()));
    assert_eq!(node.step_at(send(3, Payload::Generate {}), Some(79), &mut output), Ok(()));
    let payloads: Vec<Payload> = output.iter().map(|m| m.body.payload.clone()).collect();
    assert_eq!(
        payloads,
        vec![
            Payload::InitOk {},
            Payload::EchoOk { echo: "hello".to_string() },
            Payload::GenerateOk { id: "79_n1_2".to_string() },
        ]
    );
    for (i, reply) in output.iter().enumerate() {
        assert_eq!(reply.src, "n1");
        assert_eq!(reply.dest, "c1");
        assert_eq!(reply.body.msg_id, Some(i));
        assert_eq!(reply.body.in_reply_to, Some(i + 1));
    }
}

#[test]
fn the_combined_node_reads_the_clock_for_generate() {
    let mut node = EchoNode::new();
    let mut output = Vec::new();
    assert_eq!(node.step(send(1, Payload::Generate {}), &mut output), Ok(()));
    match &output[0].body.payload {
        Payload::GenerateOk { id } => {
            assert!(id.ends_with("_n1_0"));
            let seconds: u64 = id[..id.len() - "_n1_0".len()].parse().unwrap();
            assert!(seconds > 1_600_000_000);
        }
        other => panic!("unexpected reply {:?}", other),
    }
    assert_eq!(node.step(send(2, Payload::Echo { echo: "x".to_string() }), &mut output), Ok(()));
    assert_eq!(output[1].body.payload, Payload::EchoOk { echo: "x".to_string() });
    let id = node.gen_unique_id("n9").unwrap();
    assert!(id.ends_with("_n9_2"));
}

#[test]
fn the_combined_node_refuses_acknowledgements() {
    let mut node = EchoNode::new();
    let mut output = Vec::new();
    let acks = vec![
        Payload::EchoOk { echo: "x".to_string() },
        Payload::InitOk {},
        Payload::GenerateOk { id: "1_n1_1".to_string() },
    ];
    for ack in acks {
        assert_eq!(node.step(send(1, ack), &mut output), Err(NodeError::UnexpectedMessageKind));
    }
    assert!(output.is_empty());
    assert_eq!(
        node.step_at(send(2, Payload::Generate {}), None, &mut output),
        Err(NodeError::ClockBeforeEpoch)
    );
    let mut last = EchoNode::starting_at(usize::MAX);
    assert_eq!(
        last.step(send(3, Payload::Echo { echo: "x".to_string() }), &mut output),
        Err(NodeError::MsgIdsExhausted)
    );
    assert!(output.is_empty());
}
