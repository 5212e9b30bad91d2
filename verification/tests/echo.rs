use rustengan::echo::{EchoNode, EchoPayload};
use rustengan::message::{Message, MessageBody};
use rustengan::node::{Node, NodeError};

fn request(msg_id: Option<usize>, payload: EchoPayload) -> Message<EchoPayload> {
    Message {
        src: "c1".to_string(),
        dest: "n1".to_string(),
        body: MessageBody { msg_id, in_reply_to: None, payload },
    }
}

fn echo(text: &str) -> EchoPayload {
    EchoPayload::Echo { echo: text.to_string() }
}

#[test]
fn echo_is_answered_with_the_same_text() {
    let mut node = EchoNode::new();
    let mut output = Vec::new();
    let r = node.step(request(Some(1), echo("hello")), &mut output);
    assert_eq!(r, Ok(()));
    assert_eq!(
        output,
        vec![Message {
            src: "n1".to_string(),
            dest: "c1".to_string(),
            body: MessageBody {
                msg_id: Some(0),
                in_reply_to: Some(1),
                payload: EchoPayload::EchoOk { echo: "hello".to_string() },
            },
        }]
    );
}

#[test]
fn echo_keeps_every_byte_of_the_text() {
    let text = "  tab\there \"quoted\" \u{e9}\u{4e16}\u{1f600} \n";
    let mut node = EchoNode::new();
    let mut output = Vec::new();
    assert_eq!(node.step(request(Some(9), echo(text)), &mut output), Ok(()));
    assert_eq!(output.len(), 1);
    match &output[0].body.payload {
        EchoPayload::EchoOk { echo } => assert_eq!(echo.as_bytes(), text.as_bytes()),
        other => panic!("unexpected reply {:?}", other),
    }
}

#[test]
fn init_is_answered_with_init_ok() {
    let mut node = EchoNode::new();
    let mut output = Vec::new();
    let init = EchoPayload::Init {
        node_id: "n1".to_string(),
        node_ids: vec!["n1".to_string(), "n2".to_string()],
    };
    assert_eq!(node.step(request(Some(7), init), &mut output), Ok(()));
    assert_eq!(output.len(), 1);
    assert_eq!(output[0].src, "n1");
    assert_eq!(output[0].dest, "c1");
    assert_eq!(output[0].body.msg_id, Some(0));
    assert_eq!(output[0].body.in_reply_to, Some(7));
    assert_eq!(output[0].body.payload, EchoPayload::InitOk {});
}

#[test]
fn a_request_without_id_gets_a_reply_without_reference() {
    let mut node = EchoNode::new();
    let mut output = Vec::new();
    assert_eq!(node.step(request(None, echo("x")), &mut output), Ok(()));
    assert_eq!(output[0].body.in_reply_to, None);
    assert_eq!(output[0].body.msg_id, Some(0));
}

#[test]
fn replies_swap_the_addresses() {
    let mut node = EchoNode::new();
    let mut output = Vec::new();
    let input = Message {
        src: "client-17".to_string(),
        dest: "node-3".to_string(),
        body: MessageBody { msg_id: Some(4), in_reply_to: Some(99), payload: echo("x") },
    };
    assert_eq!(node.step(input, &mut output), Ok(()));
    assert_eq!(output[0].src, "node-3");
    assert_eq!(output[0].dest, "client-17");
    assert_eq!(output[0].body.in_reply_to, Some(4));
}

#[test]
fn message_ids_grow_by_one_with_each_reply() {
    let mut node = EchoNode::new();
    let mut output = Vec::new();
    for i in 0..50 {
        assert_eq!(node.step(request(Some(100 + i), echo("x")), &mut output), Ok(()));
    }
    assert_eq!(output.len(), 50);
    for (i, reply) in output.iter().enumerate() {
        assert_eq!(reply.body.msg_id, Some(i));
        assert_eq!(reply.body.in_reply_to, Some(100 + i));
    }
}

#[test]
fn output_keeps_what_it_held() {
    let mut node = EchoNode::new();
    let mut output = Vec::new();
    assert_eq!(node.step(request(Some(1), echo("a")), &mut output), Ok(()));
    let first = output[0].clone();
    assert_eq!(node.step(request(Some(2), echo("b")), &mut output), Ok(()));
    assert_eq!(output.len(), 2);
    assert_eq!(output[0], first);
    assert_eq!(output[1].body.payload, EchoPayload::EchoOk { echo: "b".to_string() });
}

#[test]
fn echo_ok_is_refused_and_nothing_is_emitted() {
    let mut node = EchoNode::new();
    let mut output = Vec::new();
    let ack = EchoPayload::EchoOk { echo: "hello".to_string() };
    assert_eq!(node.step(request(Some(1), ack), &mut output), Err(NodeError::UnexpectedMessageKind));
    assert!(output.is_empty());
}

#[test]
fn init_ok_is_refused_and_nothing_is_emitted() {
    let mut node = EchoNode::new();
    let mut output = Vec::new();
    assert_eq!(
        node.step(request(Some(1), EchoPayload::InitOk {}), &mut output),
        Err(NodeError::UnexpectedMessageKind)
    );
    assert!(output.is_empty());
}

#[test]
fn a_refused_message_uses_up_no_id() {
    let mut node = EchoNode::new();
    let mut output = Vec::new();
    assert_eq!(
        node.step(request(Some(1), EchoPayload::InitOk {}), &mut output),
        Err(NodeError::UnexpectedMessageKind)
    );
    assert_eq!(node.step(request(Some(2), echo("x")), &mut output), Ok(()));
    assert_eq!(output[0].body.msg_id, Some(0));
}

#[test]
fn the_last_id_is_never_given_out() {
    let mut node = EchoNode::starting_at(usize::MAX - 1);
    let mut output = Vec::new();
    assert_eq!(node.step(request(Some(1), echo("x")), &mut output), Ok(()));
    assert_eq!(output[0].body.msg_id, Some(usize::MAX - 1));
    assert_eq!(node.step(request(Some(2), echo("y")), &mut output), Err(NodeError::MsgIdsExhausted));
    assert_eq!(output.len(), 1);
    let ack = EchoPayload::EchoOk { echo: "z".to_string() };
    assert_eq!(node.step(request(Some(3), ack), &mut output), Err(NodeError::UnexpectedMessageKind));
}
