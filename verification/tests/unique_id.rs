use std::collections::HashSet;

use rustengan::decimal::decimal_string;
use rustengan::message::{Message, MessageBody};
use rustengan::node::{Node, NodeError};
use rustengan::unique_id::{format_unique_id, UniqueIDNode, UniqueIDPayload};

fn ask(msg_id: Option<usize>, payload: UniqueIDPayload) -> Message<UniqueIDPayload> {
    Message {
        src: "c1".to_string(),
        dest: "n1".to_string(),
        body: MessageBody { msg_id, in_reply_to: None, payload },
    }
}

#[test]
fn numbers_are_written_in_decimal() {
    assert_eq!(decimal_string(0), "0");
    assert_eq!(decimal_string(7), "7");
    assert_eq!(decimal_string(10), "10");
    assert_eq!(decimal_string(109), "109");
    assert_eq!(decimal_string(1234567890), "1234567890");
    assert_eq!(decimal_string(u64::MAX), "18446744073709551615");
}

#[test]
fn decimal_agrees_with_the_standard_library() {
    let mut n: u64 = 1;
    for _ in 0..200 {
        assert_eq!(decimal_string(n), n.to_string());
        n = n.wrapping_mul(6364136223846793005).wrapping_add(1442695040888963407);
    }
}

#[test]
fn an_identifier_joins_time_node_and_counter() {
    assert_eq!(format_unique_id(1700000000, "n1", 42), "1700000000_n1_42");
    assert_eq!(format_unique_id(0, "", 0), "0__0");
    assert_eq!(format_unique_id(5, "a_b", 10), "5_a_b_10");
}

#[test]
fn generate_at_a_given_time_gives_the_exact_identifier() {
    let mut node = UniqueIDNode::starting_at(3);
    let mut output = Vec::new();
    let r = node.step_at(ask(Some(8), UniqueIDPayload::Generate {}), Some(1700000000), &mut output);
    assert_eq!(r, Ok(()));
    assert_eq!(
        output,
        vec![Message {
            src: "n1".to_string(),
            dest: "c1".to_string(),
            body: MessageBody {
                msg_id: Some(3),
                in_reply_to: Some(8),
                payload: UniqueIDPayload::GenerateOk { id: "1700000000_n1_3".to_string() },
            },
        }]
    );
}

#[test]
fn generate_reads_the_clock() {
    let mut node = UniqueIDNode::new();
    let mut output = Vec::new();
    assert_eq!(node.step(ask(Some(1), UniqueIDPayload::Generate {}), &mut output), Ok(()));
    assert_eq!(output.len(), 1);
    assert_eq!(output[0].body.msg_id, Some(0));
    assert_eq!(output[0].body.in_reply_to, Some(1));
    match &output[0].body.payload {
        UniqueIDPayload::GenerateOk { id } => {
            let parts: Vec<&str> = id.split('_').collect();
            assert_eq!(parts.len(), 3);
            let seconds: u64 = parts[0].parse().unwrap();
            assert!(seconds > 1_600_000_000);
            assert_eq!(parts[1], "n1");
            assert_eq!(parts[2], "0");
        }
        other => panic!("unexpected reply {:?}", other),
    }
}

#[test]
fn gen_unique_id_uses_the_name_and_the_counter() {
    let node = UniqueIDNode::starting_at(12);
    let id = node.gen_unique_id("n7").unwrap();
    assert!(id.ends_with("_n7_12"));
    let seconds: u64 = id[..id.len() - "_n7_12".len()].parse().unwrap();
    assert!(seconds > 1_600_000_000);
}

#[test]
fn one_node_never_repeats_an_identifier() {
    let mut node = UniqueIDNode::new();
    let mut output = Vec::new();
    let mut seen = HashSet::new();
    for i in 0..100_000 {
        assert_eq!(node.step(ask(Some(i), UniqueIDPayload::Generate {}), &mut output), Ok(()));
        let reply = output.pop().unwrap();
        assert_eq!(reply.body.msg_id, Some(i));
        match reply.body.payload {
            UniqueIDPayload::GenerateOk { id } => assert!(seen.insert(id)),
            other => panic!("unexpected reply {:?}", other),
        }
    }
    assert_eq!(seen.len(), 100_000);
}

#[test]
fn identifiers_differ_where_only_the_counter_differs() {
    let mut seen = HashSet::new();
    for counter in 0..2000 {
        assert!(seen.insert(format_unique_id(11, "1", counter)));
        assert!(seen.insert(format_unique_id(1, "11", counter)));
    }
}

#[test]
fn unique_id_init_is_answered_with_init_ok() {
    let mut node = UniqueIDNode::new();
    let mut output = Vec::new();
    let init = UniqueIDPayload::Init { node_id: "n1".to_string(), node_ids: vec!["n1".to_string()] };
    assert_eq!(node.step(ask(Some(1), init), &mut output), Ok(()));
    assert_eq!(output[0].body.payload, UniqueIDPayload::InitOk {});
    assert_eq!(output[0].body.in_reply_to, Some(1));
}

#[test]
fn generate_ok_is_refused_and_nothing_is_emitted() {
    let mut node = UniqueIDNode::new();
    let mut output = Vec::new();
    let ack = UniqueIDPayload::GenerateOk { id: "x".to_string() };
    assert_eq!(node.step(ask(Some(1), ack), &mut output), Err(NodeError::UnexpectedMessageKind));
    assert_eq!(
        node.step(ask(Some(2), UniqueIDPayload::InitOk {}), &mut output),
        Err(NodeError::UnexpectedMessageKind)
    );
    assert!(output.is_empty());
}

#[test]
fn generate_fails_while_the_clock_stands_before_the_epoch() {
    let mut node = UniqueIDNode::new();
    let mut output = Vec::new();
    assert_eq!(
        node.step_at(ask(Some(1), UniqueIDPayload::Generate {}), None, &mut output),
        Err(NodeError::ClockBeforeEpoch)
    );
    assert!(output.is_empty());
    let init = UniqueIDPayload::Init { node_id: "n1".to_string(), node_ids: vec![] };
    assert_eq!(node.step_at(ask(Some(2), init), None, &mut output), Ok(()));
    assert_eq!(output[0].body.msg_id, Some(0));
}

#[test]
fn generate_fails_when_no_id_is_left() {
    let mut node = UniqueIDNode::starting_at(usize::MAX);
    let mut output = Vec::new();
    assert_eq!(
        node.step_at(ask(Some(1), UniqueIDPayload::Generate {}), Some(5), &mut output),
        Err(NodeError::MsgIdsExhausted)
    );
    assert!(output.is_empty());
}
