use gossip_glomers::{EchoNode, NodeError, Runtime, RuntimeBuilder, UniqueIdsNode};
use serde_json::Value;

const INIT: &str =
    r#"{"src":"c1","dest":"n1","body":{"msg_id":1,"type":"init","node_id":"n1","node_ids":["n1"]}}"#;

fn echo_runtime() -> Runtime<EchoNode> {
    RuntimeBuilder::new().with_handler(Box::new(EchoNode)).build()
}

fn served_echo_runtime() -> Runtime<EchoNode> {
    let mut runtime = echo_runtime();
    runtime.step(INIT).unwrap();
    runtime
}

fn payload_id(line: &str) -> String {
    let doc: Value = serde_json::from_str(line).unwrap();
    doc["body"]["id"].as_str().unwrap().to_owned()
}

#[test]
fn handshake_is_answered_with_init_ok() {
    let mut runtime = echo_runtime();
    let reply = runtime.step(INIT).unwrap();
    assert_eq!(
        reply,
        r#"{"src":"n1","dest":"c1","body":{"msg_id":0,"in_reply_to":1,"type":"init_ok"}}"#
    );
    assert_eq!(runtime.node_id().map(|s| s.as_str()), Some("n1"));
    assert_eq!(runtime.id(), 0);
}

#[test]
fn handshake_line_may_end_with_a_newline() {
    let mut runtime = echo_runtime();
    let line = format!("{}\n", INIT);
    let reply = runtime.step(&line).unwrap();
    assert_eq!(
        reply,
        r#"{"src":"n1","dest":"c1","body":{"msg_id":0,"in_reply_to":1,"type":"init_ok"}}"#
    );
}

#[test]
fn echo_after_handshake() {
    let mut runtime = served_echo_runtime();
    let reply = runtime
        .step(r#"{"src":"c1","dest":"n1","body":{"msg_id":2,"type":"echo","echo":"hi"}}"#)
        .unwrap();
    assert_eq!(
        reply,
        r#"{"src":"n1","dest":"c1","body":{"msg_id":1,"in_reply_to":2,"type":"echo_ok","echo":"hi"}}"#
    );
    assert_eq!(runtime.id(), 1);
}

#[test]
fn handshake_without_node_id_fails_and_names_nothing() {
    let mut runtime = echo_runtime();
    let result = runtime
        .step(r#"{"src":"c1","dest":"n1","body":{"msg_id":1,"type":"init","node_ids":["n1"]}}"#);
    assert!(matches!(result, Err(NodeError::Json(_))));
    assert!(runtime.node_id().is_none());
    assert_eq!(runtime.id(), 0);
}

#[test]
fn empty_first_line_fails() {
    let mut runtime = echo_runtime();
    assert!(matches!(runtime.step(""), Err(NodeError::Json(_))));
    assert!(runtime.node_id().is_none());
}

#[test]
fn handshake_of_another_type_fails() {
    let mut runtime = echo_runtime();
    let result = runtime.step(
        r#"{"src":"c1","dest":"n1","body":{"msg_id":1,"type":"echo","node_id":"n1","node_ids":["n1"]}}"#,
    );
    assert!(matches!(result, Err(NodeError::Json(_))));
    assert!(runtime.node_id().is_none());
}

#[test]
fn handshake_with_a_roster_that_holds_a_number_fails() {
    let mut runtime = echo_runtime();
    let result = runtime.step(
        r#"{"src":"c1","dest":"n1","body":{"msg_id":1,"type":"init","node_id":"n1","node_ids":["n1",2]}}"#,
    );
    assert!(matches!(result, Err(NodeError::Json(_))));
    assert!(runtime.node_id().is_none());
}

#[test]
fn replies_are_numbered_in_the_order_of_the_requests() {
    let mut runtime = served_echo_runtime();
    let requests = [(7, "a"), (3, "b"), (9, "c"), (9, "d")];
    let mut k = 0;
    for (msg_id, text) in requests {
        k += 1;
        let line = format!(
            r#"{{"src":"c{}","dest":"n1","body":{{"msg_id":{},"type":"echo","echo":"{}"}}}}"#,
            k, msg_id, text
        );
        let reply = runtime.step(&line).unwrap();
        let expected = format!(
            r#"{{"src":"n1","dest":"c{}","body":{{"msg_id":{},"in_reply_to":{},"type":"echo_ok","echo":"{}"}}}}"#,
            k, k, msg_id, text
        );
        assert_eq!(reply, expected);
        assert_eq!(runtime.id(), k);
    }
}

#[test]
fn reply_comes_from_the_name_that_was_addressed() {
    let mut runtime = served_echo_runtime();
    let reply = runtime
        .step(r#"{"src":"c9","dest":"other","body":{"msg_id":5,"type":"echo","echo":"x"}}"#)
        .unwrap();
    assert_eq!(
        reply,
        r#"{"src":"other","dest":"c9","body":{"msg_id":1,"in_reply_to":5,"type":"echo_ok","echo":"x"}}"#
    );
}

#[test]
fn request_without_msg_id_is_answered_without_in_reply_to() {
    let mut runtime = served_echo_runtime();
    let reply = runtime
        .step(r#"{"src":"c1","dest":"n1","body":{"type":"echo","echo":"hi"}}"#)
        .unwrap();
    assert_eq!(reply, r#"{"src":"n1","dest":"c1","body":{"msg_id":1,"type":"echo_ok","echo":"hi"}}"#);
}

#[test]
fn null_msg_id_counts_as_missing() {
    let mut runtime = served_echo_runtime();
    let reply = runtime
        .step(r#"{"src":"c1","dest":"n1","body":{"msg_id":null,"type":"echo","echo":"hi"}}"#)
        .unwrap();
    assert_eq!(reply, r#"{"src":"n1","dest":"c1","body":{"msg_id":1,"type":"echo_ok","echo":"hi"}}"#);
}

#[test]
fn malformed_request_fails_and_leaves_the_counter() {
    let mut runtime = served_echo_runtime();
    let bad = [
        "not json",
        r#"{"src":"c1","dest":"n1"}"#,
        r#"{"dest":"n1","body":{"msg_id":2,"type":"echo","echo":"hi"}}"#,
        r#"{"src":"c1","body":{"msg_id":2,"type":"echo","echo":"hi"}}"#,
        r#"{"src":1,"dest":"n1","body":{"msg_id":2,"type":"echo","echo":"hi"}}"#,
        r#"{"src":"c1","dest":"n1","body":{"msg_id":"2","type":"echo","echo":"hi"}}"#,
        r#"{"src":"c1","dest":"n1","body":{"msg_id":-2,"type":"echo","echo":"hi"}}"#,
        r#"{"src":"c1","dest":"n1","body":{"msg_id":2.5,"type":"echo","echo":"hi"}}"#,
        r#"{"src":"c1","dest":"n1","body":{"msg_id":2,"in_reply_to":true,"type":"echo","echo":"hi"}}"#,
        r#"{"src":"c1","dest":"n1","body":{"msg_id":2,"echo":"hi"}}"#,
        r#"{"src":"c1","dest":"n1","body":{"msg_id":2,"type":7,"echo":"hi"}}"#,
        r#"{"src":"c1","dest":"n1","body":{"msg_id":2,"type":"generate"}}"#,
        r#"{"src":"c1","dest":"n1","body":{"msg_id":2,"type":"echo"}}"#,
        r#"{"src":"c1","dest":"n1","body":"echo"}"#,
        r#"["c1","n1",{"msg_id":2,"type":"echo","echo":"hi"}]"#,
    ];
    for line in bad {
        assert!(matches!(runtime.step(line), Err(NodeError::Json(_))), "{}", line);
        assert_eq!(runtime.id(), 0);
    }
    let reply = runtime
        .step(r#"{"src":"c1","dest":"n1","body":{"msg_id":2,"type":"echo","echo":"hi"}}"#)
        .unwrap();
    assert_eq!(
        reply,
        r#"{"src":"n1","dest":"c1","body":{"msg_id":1,"in_reply_to":2,"type":"echo_ok","echo":"hi"}}"#
    );
}

#[test]
fn unknown_members_are_ignored() {
    let mut runtime = served_echo_runtime();
    let reply = runtime
        .step(r#"{"id":4,"src":"c1","dest":"n1","body":{"msg_id":2,"type":"echo","echo":"hi","more":[1,2]}}"#)
        .unwrap();
    assert_eq!(
        reply,
        r#"{"src":"n1","dest":"c1","body":{"msg_id":1,"in_reply_to":2,"type":"echo_ok","echo":"hi"}}"#
    );
}

#[test]
fn echoed_text_is_escaped_again() {
    let mut runtime = served_echo_runtime();
    let reply = runtime
        .step(r#"{"src":"c1","dest":"n1","body":{"msg_id":2,"type":"echo","echo":"a\"b\\c\n"}}"#)
        .unwrap();
    assert_eq!(
        reply,
        r#"{"src":"n1","dest":"c1","body":{"msg_id":1,"in_reply_to":2,"type":"echo_ok","echo":"a\"b\\c\n"}}"#
    );
}

#[test]
fn two_generated_ids_differ() {
    let mut runtime =
        RuntimeBuilder::new().with_handler(Box::new(UniqueIdsNode::new())).build();
    runtime.step(INIT).unwrap();
    let first = runtime
        .step(r#"{"src":"c1","dest":"n1","body":{"msg_id":2,"type":"generate"}}"#)
        .unwrap();
    let second = runtime
        .step(r#"{"src":"c1","dest":"n1","body":{"msg_id":3,"type":"generate"}}"#)
        .unwrap();
    assert_eq!(
        first,
        r#"{"src":"n1","dest":"c1","body":{"msg_id":1,"in_reply_to":2,"type":"generate_ok","id":"n11"}}"#
    );
    assert_eq!(
        second,
        r#"{"src":"n1","dest":"c1","body":{"msg_id":2,"in_reply_to":3,"type":"generate_ok","id":"n12"}}"#
    );
    assert_ne!(payload_id(&first), payload_id(&second));
}

#[test]
fn handler_sees_the_name_from_the_handshake() {
    let mut runtime =
        RuntimeBuilder::new().with_handler(Box::new(UniqueIdsNode::new())).build();
    runtime
        .step(r#"{"src":"c1","dest":"n7","body":{"msg_id":1,"type":"init","node_id":"node-7","node_ids":["node-7","node-8"]}}"#)
        .unwrap();
    let reply = runtime
        .step(r#"{"src":"c1","dest":"n7","body":{"msg_id":2,"type":"generate"}}"#)
        .unwrap();
    assert_eq!(payload_id(&reply), "node-71");
}

#[test]
fn default_builder_is_a_new_builder() {
    let builder: RuntimeBuilder<_, _> = Default::default();
    let mut runtime = builder.with_handler(Box::new(EchoNode)).build();
    assert!(runtime.node_id().is_none());
    assert_eq!(runtime.id(), 0);
    assert!(runtime.step(INIT).is_ok());
}

#[test]
fn text_beyond_ascii_is_echoed() {
    let mut runtime = served_echo_runtime();
    let line = format!(
        r#"{{"src":"c1","dest":"n1","body":{{"msg_id":2,"type":"echo","echo":"{}"}}}}"#,
        "gr\u{fc}\u{df}e \u{4e16}\u{754c}"
    );
    let reply = runtime.step(&line).unwrap();
    assert_eq!(
        reply,
        format!(
            r#"{{"src":"n1","dest":"c1","body":{{"msg_id":1,"in_reply_to":2,"type":"echo_ok","echo":"{}"}}}}"#,
            "gr\u{fc}\u{df}e \u{4e16}\u{754c}"
        )
    );
}

#[test]
fn line_that_is_nested_too_deep_is_refused() {
    let mut runtime = served_echo_runtime();
    let line = format!(
        r#"{{"src":"c1","dest":"n1","body":{{"msg_id":2,"type":"echo","echo":"hi","deep":{}{}}}}}"#,
        "[".repeat(200),
        "]".repeat(200)
    );
    assert!(matches!(runtime.step(&line), Err(NodeError::Json(_))));
    assert_eq!(runtime.id(), 0);
}

#[test]
fn second_handshake_line_is_taken_for_a_request() {
    let mut runtime = served_echo_runtime();
    assert!(matches!(runtime.step(INIT), Err(NodeError::Json(_))));
    assert_eq!(runtime.node_id().map(|s| s.as_str()), Some("n1"));
    assert_eq!(runtime.id(), 0);
}
