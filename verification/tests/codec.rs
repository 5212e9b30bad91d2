use rustengan::broadcast::BroadcastPayload;
use rustengan::codec::{decode, decode_value, encode, encode_value, MalformedInput};
use rustengan::combined::Payload;
use rustengan::echo::EchoPayload;
use rustengan::message::{Message, MessageBody};
use rustengan::topology::Topology;
use rustengan::unique_id::UniqueIDPayload;

fn message<P>(msg_id: Option<usize>, in_reply_to: Option<usize>, payload: P) -> Message<P> {
    Message {
        src: "c1".to_string(),
        dest: "n1".to_string(),
        body: MessageBody { msg_id, in_reply_to, payload },
    }
}

fn names(list: &[&str]) -> Vec<String> {
    list.iter().map(|s| s.to_string()).collect()
}

#[test]
fn an_echo_request_is_decoded() {
    let text = r#"{"src":"c1","dest":"n1","body":{"type":"echo","msg_id":1,"echo":"hello"}}"#;
    assert_eq!(
        decode::<EchoPayload>(text),
        Ok(message(Some(1), None, EchoPayload::Echo { echo: "hello".to_string() }))
    );
}

#[test]
fn an_init_request_is_decoded() {
    let text = r#"{
        "src": "c0",
        "dest": "n3",
        "body": {"type": "init", "msg_id": 1, "node_id": "n3", "node_ids": ["n1", "n2", "n3"]}
    }"#;
    let expected = Message {
        src: "c0".to_string(),
        dest: "n3".to_string(),
        body: MessageBody {
            msg_id: Some(1),
            in_reply_to: None,
            payload: EchoPayload::Init { node_id: "n3".to_string(), node_ids: names(&["n1", "n2", "n3"]) },
        },
    };
    assert_eq!(decode::<EchoPayload>(text), Ok(expected));
}

#[test]
fn a_reply_is_written_with_sorted_members() {
    let reply = Message {
        src: "n1".to_string(),
        dest: "c1".to_string(),
        body: MessageBody {
            msg_id: Some(0),
            in_reply_to: Some(1),
            payload: EchoPayload::EchoOk { echo: "hello".to_string() },
        },
    };
    assert_eq!(
        encode(&reply),
        r#"{"body":{"echo":"hello","in_reply_to":1,"msg_id":0,"type":"echo_ok"},"dest":"c1","src":"n1"}"#
    );
}

#[test]
fn an_absent_identifier_is_left_out() {
    let reply = message(None, None, EchoPayload::InitOk {});
    let text = encode(&reply);
    assert_eq!(text, r#"{"body":{"type":"init_ok"},"dest":"n1","src":"c1"}"#);
    assert!(!text.contains("null"));
    assert!(!text.contains("msg_id"));
    assert!(!text.contains("in_reply_to"));
    let half = message(Some(3), None, EchoPayload::InitOk {});
    assert_eq!(encode(&half), r#"{"body":{"msg_id":3,"type":"init_ok"},"dest":"n1","src":"c1"}"#);
}

#[test]
fn a_null_identifier_is_read_as_absent() {
    let text = r#"{"src":"c1","dest":"n1","body":{"type":"init_ok","msg_id":null,"in_reply_to":null}}"#;
    assert_eq!(decode::<EchoPayload>(text), Ok(message(None, None, EchoPayload::InitOk {})));
}

#[test]
fn the_largest_identifier_is_read_and_written() {
    let m = message(Some(usize::MAX), Some(usize::MAX), EchoPayload::InitOk {});
    assert_eq!(decode::<EchoPayload>(&encode(&m)), Ok(m));
}

#[test]
fn unknown_members_are_ignored() {
    let text = r#"{"id":7,"src":"c1","dest":"n1","extra":[1,2],
        "body":{"type":"echo","msg_id":1,"echo":"hello","node_id":5,"more":{"a":null}}}"#;
    assert_eq!(
        decode::<EchoPayload>(text),
        Ok(message(Some(1), None, EchoPayload::Echo { echo: "hello".to_string() }))
    );
}

#[test]
fn malformed_records_are_refused() {
    let bad = [
        "",
        "not json",
        "{",
        "[]",
        "null",
        "42",
        r#""text""#,
        r#"{"src":"c1","dest":"n1","body":{"type":"echo","echo":"x"}} trailing"#,
        r#"["c1","n1",{"type":"echo","echo":"x"}]"#,
        r#"{"dest":"n1","body":{"type":"echo","echo":"x"}}"#,
        r#"{"src":"c1","body":{"type":"echo","echo":"x"}}"#,
        r#"{"src":"c1","dest":"n1"}"#,
        r#"{"src":1,"dest":"n1","body":{"type":"echo","echo":"x"}}"#,
        r#"{"src":"c1","dest":null,"body":{"type":"echo","echo":"x"}}"#,
        r#"{"src":"c1","dest":"n1","body":"echo"}"#,
        r#"{"src":"c1","dest":"n1","body":[]}"#,
        r#"{"src":"c1","dest":"n1","body":{}}"#,
        r#"{"src":"c1","dest":"n1","body":{"echo":"x"}}"#,
        r#"{"src":"c1","dest":"n1","body":{"type":5,"echo":"x"}}"#,
        r#"{"src":"c1","dest":"n1","body":{"type":"Echo","echo":"x"}}"#,
        r#"{"src":"c1","dest":"n1","body":{"type":"generate"}}"#,
        r#"{"src":"c1","dest":"n1","body":{"type":"echo"}}"#,
        r#"{"src":"c1","dest":"n1","body":{"type":"echo","echo":5}}"#,
        r#"{"src":"c1","dest":"n1","body":{"type":"echo","echo":null}}"#,
        r#"{"src":"c1","dest":"n1","body":{"type":"echo","echo":"x","msg_id":"1"}}"#,
        r#"{"src":"c1","dest":"n1","body":{"type":"echo","echo":"x","msg_id":-1}}"#,
        r#"{"src":"c1","dest":"n1","body":{"type":"echo","echo":"x","msg_id":1.0}}"#,
        r#"{"src":"c1","dest":"n1","body":{"type":"echo","echo":"x","msg_id":18446744073709551616}}"#,
        r#"{"src":"c1","dest":"n1","body":{"type":"echo","echo":"x","in_reply_to":true}}"#,
        r#"{"src":"c1","dest":"n1","body":{"type":"init","node_id":"n1"}}"#,
        r#"{"src":"c1","dest":"n1","body":{"type":"init","node_ids":["n1"]}}"#,
        r#"{"src":"c1","dest":"n1","body":{"type":"init","node_id":"n1","node_ids":"n1"}}"#,
        r#"{"src":"c1","dest":"n1","body":{"type":"init","node_id":"n1","node_ids":["n1",2]}}"#,
    ];
    for text in bad {
        assert_eq!(decode::<EchoPayload>(text), Err(MalformedInput), "{}", text);
    }
}

#[test]
fn each_workload_knows_its_own_kinds_only() {
    let generate = r#"{"src":"c1","dest":"n1","body":{"type":"generate","msg_id":1}}"#;
    let echo = r#"{"src":"c1","dest":"n1","body":{"type":"echo","echo":"x"}}"#;
    let read = r#"{"src":"c1","dest":"n1","body":{"type":"read"}}"#;
    assert_eq!(decode::<UniqueIDPayload>(generate), Ok(message(Some(1), None, UniqueIDPayload::Generate {})));
    assert_eq!(decode::<Payload>(generate), Ok(message(Some(1), None, Payload::Generate {})));
    assert_eq!(decode::<EchoPayload>(generate), Err(MalformedInput));
    assert_eq!(decode::<BroadcastPayload>(generate), Err(MalformedInput));
    assert_eq!(decode::<UniqueIDPayload>(echo), Err(MalformedInput));
    assert_eq!(decode::<BroadcastPayload>(echo), Err(MalformedInput));
    assert_eq!(decode::<Payload>(echo), Ok(message(None, None, Payload::Echo { echo: "x".to_string() })));
    assert_eq!(decode::<BroadcastPayload>(read), Ok(message(None, None, BroadcastPayload::Read {})));
    assert_eq!(decode::<Payload>(read), Err(MalformedInput));
}

#[test]
fn broadcast_messages_are_decoded() {
    let broadcast = r#"{"src":"c1","dest":"n1","body":{"type":"broadcast","msg_id":2,"message":-1000}}"#;
    assert_eq!(
        decode::<BroadcastPayload>(broadcast),
        Ok(message(Some(2), None, BroadcastPayload::Broadcast { message: -1000 }))
    );
    let read_ok = r#"{"src":"c1","dest":"n1","body":{"type":"read_ok","in_reply_to":2,"messages":[1,2,1,-2147483648,2147483647]}}"#;
    assert_eq!(
        decode::<BroadcastPayload>(read_ok),
        Ok(message(None, Some(2), BroadcastPayload::ReadOk { messages: vec![1, 2, 1, i32::MIN, i32::MAX] }))
    );
    let topology = r#"{"src":"c1","dest":"n1","body":{"type":"topology","msg_id":3,
        "topology":{"n2":["n1"],"n1":["n2","n3"],"n3":[]}}}"#;
    let decoded = decode::<BroadcastPayload>(topology).unwrap();
    assert_eq!(decoded.body.msg_id, Some(3));
    match decoded.body.payload {
        BroadcastPayload::Topology { topology } => {
            assert_eq!(topology.entries.len(), 3);
            assert_eq!(topology.get(&"n1".to_string()), Some(&names(&["n2", "n3"])));
            assert_eq!(topology.get(&"n2".to_string()), Some(&names(&["n1"])));
            assert_eq!(topology.get(&"n3".to_string()), Some(&names(&[])));
            assert_eq!(topology.get(&"n4".to_string()), None);
        }
        other => panic!("unexpected payload {:?}", other),
    }
}

#[test]
fn malformed_broadcast_messages_are_refused() {
    let bad = [
        r#"{"src":"c1","dest":"n1","body":{"type":"broadcast"}}"#,
        r#"{"src":"c1","dest":"n1","body":{"type":"broadcast","message":"1"}}"#,
        r#"{"src":"c1","dest":"n1","body":{"type":"broadcast","message":1.5}}"#,
        r#"{"src":"c1","dest":"n1","body":{"type":"broadcast","message":2147483648}}"#,
        r#"{"src":"c1","dest":"n1","body":{"type":"broadcast","message":-2147483649}}"#,
        r#"{"src":"c1","dest":"n1","body":{"type":"broadcast","message":18446744073709551615}}"#,
        r#"{"src":"c1","dest":"n1","body":{"type":"read_ok"}}"#,
        r#"{"src":"c1","dest":"n1","body":{"type":"read_ok","messages":7}}"#,
        r#"{"src":"c1","dest":"n1","body":{"type":"read_ok","messages":[1,"2"]}}"#,
        r#"{"src":"c1","dest":"n1","body":{"type":"read_ok","messages":[1,4294967296]}}"#,
        r#"{"src":"c1","dest":"n1","body":{"type":"topology"}}"#,
        r#"{"src":"c1","dest":"n1","body":{"type":"topology","topology":["n1"]}}"#,
        r#"{"src":"c1","dest":"n1","body":{"type":"topology","topology":{"n1":"n2"}}}"#,
        r#"{"src":"c1","dest":"n1","body":{"type":"topology","topology":{"n1":["n2"],"n2":[1]}}}"#,
    ];
    for text in bad {
        assert_eq!(decode::<BroadcastPayload>(text), Err(MalformedInput), "{}", text);
    }
}

#[test]
fn broadcast_messages_are_written() {
    let read_ok = message(Some(4), Some(9), BroadcastPayload::ReadOk { messages: vec![1, -2, 1] });
    assert_eq!(
        encode(&read_ok),
        r#"{"body":{"in_reply_to":9,"messages":[1,-2,1],"msg_id":4,"type":"read_ok"},"dest":"n1","src":"c1"}"#
    );
    let mut topology = Topology::new();
    topology.insert("n2".to_string(), names(&["n9"]));
    topology.insert("n1".to_string(), names(&["n2", "n3"]));
    topology.insert("n2".to_string(), names(&["n1"]));
    let m = message(None, None, BroadcastPayload::Topology { topology });
    assert_eq!(
        encode(&m),
        r#"{"body":{"topology":{"n1":["n2","n3"],"n2":["n1"]},"type":"topology"},"dest":"n1","src":"c1"}"#
    );
    let broadcast = message(Some(1), None, BroadcastPayload::Broadcast { message: i32::MIN });
    assert_eq!(
        encode(&broadcast),
        r#"{"body":{"message":-2147483648,"msg_id":1,"type":"broadcast"},"dest":"n1","src":"c1"}"#
    );
}

fn echo_payloads() -> Vec<EchoPayload> {
    vec![
        EchoPayload::Init { node_id: "n1".to_string(), node_ids: names(&["n1", "n2"]) },
        EchoPayload::Init { node_id: String::new(), node_ids: vec![] },
        EchoPayload::InitOk {},
        EchoPayload::Echo { echo: "hello".to_string() },
        EchoPayload::Echo { echo: "\"\\\n\t\u{0}\u{7f}\u{e9}\u{4e16}\u{1f600}{}[],:".to_string() },
        EchoPayload::EchoOk { echo: String::new() },
    ]
}

#[test]
fn echo_messages_round_trip() {
    let ids = [None, Some(0), Some(17), Some(usize::MAX)];
    for payload in echo_payloads() {
        for msg_id in ids {
            for in_reply_to in ids {
                let m = Message {
                    src: "a \"quoted\" name".to_string(),
                    dest: String::new(),
                    body: MessageBody { msg_id, in_reply_to, payload: payload.clone() },
                };
                assert_eq!(decode::<EchoPayload>(&encode(&m)), Ok(m.clone()));
                assert_eq!(decode_value::<EchoPayload>(&encode_value(&m)), Ok(m));
            }
        }
    }
}

#[test]
fn unique_id_messages_round_trip() {
    let payloads = vec![
        UniqueIDPayload::Init { node_id: "n1".to_string(), node_ids: names(&["n1", "n2"]) },
        UniqueIDPayload::InitOk {},
        UniqueIDPayload::Generate {},
        UniqueIDPayload::GenerateOk { id: "1700000000_n1_5".to_string() },
    ];
    for payload in payloads {
        let m = message(Some(5), None, payload);
        assert_eq!(decode::<UniqueIDPayload>(&encode(&m)), Ok(m));
    }
}

#[test]
fn combined_messages_round_trip() {
    let payloads = vec![
        Payload::Echo { echo: "x".to_string() },
        Payload::EchoOk { echo: "y".to_string() },
        Payload::Init { node_id: "n1".to_string(), node_ids: names(&["n1"]) },
        Payload::InitOk {},
        Payload::Generate {},
        Payload::GenerateOk { id: "1_n_1".to_string() },
    ];
    for payload in payloads {
        let m = message(None, Some(6), payload);
        assert_eq!(decode::<Payload>(&encode(&m)), Ok(m));
    }
}

#[test]
fn broadcast_messages_round_trip() {
    let mut topology = Topology::new();
    topology.insert("n1".to_string(), names(&["n2", "n3"]));
    topology.insert("n2".to_string(), names(&[]));
    topology.insert("n3".to_string(), names(&["n1"]));
    let payloads = vec![
        BroadcastPayload::Init { node_id: "n1".to_string(), node_ids: names(&["n1", "n2"]) },
        BroadcastPayload::InitOk {},
        BroadcastPayload::Broadcast { message: 0 },
        BroadcastPayload::Broadcast { message: i32::MAX },
        BroadcastPayload::Broadcast { message: i32::MIN },
        BroadcastPayload::BroadcastOk {},
        BroadcastPayload::Read {},
        BroadcastPayload::ReadOk { messages: vec![] },
        BroadcastPayload::ReadOk { messages: vec![1, 2, 1, -7, i32::MAX, i32::MIN] },
        BroadcastPayload::Topology { topology: Topology::new() },
        BroadcastPayload::Topology { topology },
        BroadcastPayload::TopologyOk {},
    ];
    for payload in payloads {
        let m = message(Some(1), Some(2), payload);
        assert_eq!(decode::<BroadcastPayload>(&encode(&m)), Ok(m));
    }
}

#[test]
fn a_topology_with_a_repeated_node_round_trips_to_its_last_entry() {
    let topology = Topology {
        entries: vec![
            ("n1".to_string(), names(&["n2"])),
            ("n2".to_string(), names(&["n1"])),
            ("n1".to_string(), names(&["n3"])),
        ],
    };
    assert_eq!(topology.get(&"n1".to_string()), Some(&names(&["n3"])));
    let m = message(None, None, BroadcastPayload::Topology { topology });
    let back = decode::<BroadcastPayload>(&encode(&m)).unwrap();
    match back.body.payload {
        BroadcastPayload::Topology { topology } => {
            assert_eq!(
                topology.entries,
                vec![("n1".to_string(), names(&["n3"])), ("n2".to_string(), names(&["n1"]))]
            );
        }
        other => panic!("unexpected payload {:?}", other),
    }
}

#[test]
fn documents_are_decoded_and_encoded() {
    let text = r#"{"src":"c1","dest":"n1","body":{"type":"echo","msg_id":1,"echo":"hello"}}"#;
    let value: serde_json::Value = serde_json::from_str(text).unwrap();
    let m = decode_value::<EchoPayload>(&value).unwrap();
    assert_eq!(m, message(Some(1), None, EchoPayload::Echo { echo: "hello".to_string() }));
    assert_eq!(encode_value(&m), value);
    assert_eq!(decode_value::<EchoPayload>(&serde_json::Value::Null), Err(MalformedInput));
}
