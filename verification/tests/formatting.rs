//! The log-line builders and the message type, checked against exact
//! expected strings.

use dslib::debugger::{test_begin_line, test_end_line, node_ids_line, u64_to_string, DebugEvent};
use dslib::message::{JsonMessage, Message};
use dslib::sim::ActorId;

#[test]
fn decimal_rendering() {
    assert_eq!(u64_to_string(0), "0");
    assert_eq!(u64_to_string(7), "7");
    assert_eq!(u64_to_string(42), "42");
    assert_eq!(u64_to_string(1000), "1000");
    assert_eq!(u64_to_string(18446744073709551615), "18446744073709551615");
}

#[test]
fn serialize_message_send() {
    let e = DebugEvent::MessageSend {
        msg: JsonMessage::new("INFO", "{\"x\": 1}"),
        src: "a".to_string(),
        dst: "b".to_string(),
        ts: 1500,
    };
    assert_eq!(
        e.serialize(),
        "{\"type\": \"MessageSend\",\"data\": {\"msg\": {\"type\": \"INFO\",\"data\": {\"x\": 1}},\"src\": \"a\",\"dst\": \"b\",\"ts\": 1500}}"
    );
}

#[test]
fn serialize_timer_set() {
    let e = DebugEvent::TimerSet {
        name: "t".to_string(),
        delay: 2500,
        node: "a".to_string(),
        ts: 0,
    };
    assert_eq!(
        e.serialize(),
        "{\"type\": \"TimerSet\",\"data\": {\"name\": \"t\",\"delay\": 2500,\"node\": \"a\",\"ts\": 0}}"
    );
}

#[test]
fn serialize_node_crashed() {
    let e = DebugEvent::NodeCrashed { node: "n3".to_string(), ts: 77 };
    assert_eq!(
        e.serialize(),
        "{\"type\": \"NodeCrashed\",\"data\": {\"node\": \"n3\",\"ts\": 77}}"
    );
}

#[test]
fn serialize_network_partition() {
    let e = DebugEvent::NetworkPartition {
        group1: "n1:n2".to_string(),
        group2: "n3".to_string(),
        ts: 5,
    };
    assert_eq!(
        e.serialize(),
        "{\"type\": \"NetworkPartition\",\"data\": {\"group1\": \"n1:n2\",\"group2\": \"n3\",\"ts\": 5}}"
    );
}

#[test]
fn control_lines() {
    assert_eq!(test_begin_line("run one"), "TEST_BEGIN:run one\n");
    assert_eq!(test_end_line("PASSED"), "TEST_END:PASSED\n");
    let ids = vec!["a".to_string(), "b".to_string()];
    assert_eq!(node_ids_line(&ids), "NODE_IDS:a:b\n");
    let none: Vec<String> = Vec::new();
    assert_eq!(node_ids_line(&none), "NODE_IDS\n");
}

#[test]
fn message_accounting() {
    let m = JsonMessage::new("INFO", "\"ping\"");
    assert_eq!(m.size(), 6);
    let copy = m.duplicate();
    assert_eq!(copy.tip, m.tip);
    assert_eq!(copy.data, m.data);
    assert_eq!(m.label(), "INFO \"ping\"");
}

/// Corruption blanks every quoted word of the payload; the shape stays.
#[test]
fn message_corruption() {
    let mut m = JsonMessage::new("INFO", "{\"key\": \"value\", \"n\": 3}");
    m.corrupt();
    assert_eq!(m.tip, "INFO");
    assert_eq!(m.data, "{\"\": \"\", \"\": 3}");
}

#[test]
fn actor_ids_round_trip() {
    let a = ActorId::from("node-1");
    assert_eq!(a.to(), "node-1");
    let b = a.duplicate();
    assert!(a.same_as(&b));
    assert!(a.same_str("node-1"));
    assert!(!a.same_str("node-2"));
}
