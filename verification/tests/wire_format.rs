use echo_node::node::EchoNode;
use echo_node::protocol::{Body, Message, Payload};
use echo_node::wire::{encode_line, encode_message};

fn request(src: &str, dest: &str, msg_id: Option<i32>, payload: Payload) -> Message {
    Message {
        src: String::from(src),
        dest: String::from(dest),
        body: Body { msg_id, in_reply_to: None, payload },
    }
}

#[test]
fn init_scenario_produces_the_exact_reply_line() {
    let mut node = EchoNode::new();
    let reply = node
        .handle(request(
            "c1",
            "n1",
            Some(1),
            Payload::Init { node_id: String::from("n1"), node_ids: vec![String::from("n1")] },
        ))
        .expect("an init request is answered");
    assert_eq!(
        encode_line(&reply),
        "{\"src\":\"n1\",\"dest\":\"c1\",\"body\":{\"in_reply_to\":1,\"type\":\"init_ok\"}}\n"
    );
}

#[test]
fn echo_scenario_after_init_produces_the_exact_reply_line() {
    let mut node = EchoNode::new();
    node.handle(request(
        "c1",
        "n1",
        Some(1),
        Payload::Init { node_id: String::from("n1"), node_ids: vec![String::from("n1")] },
    ));
    let reply = node
        .handle(request(
            "c1",
            "n1",
            Some(2),
            Payload::Echo { echo: String::from("Please echo 35") },
        ))
        .expect("an echo request is answered");
    assert_eq!(
        encode_line(&reply),
        "{\"src\":\"n1\",\"dest\":\"c1\",\"body\":{\"in_reply_to\":2,\"type\":\"echo_ok\",\"echo\":\"Please echo 35\"}}\n"
    );
}

#[test]
fn encoded_message_carries_both_correlation_ids() {
    let m = Message {
        src: String::from("a"),
        dest: String::from("b"),
        body: Body {
            msg_id: Some(5),
            in_reply_to: Some(7),
            payload: Payload::Echo { echo: String::from("hi") },
        },
    };
    assert_eq!(
        encode_message(&m),
        "{\"src\":\"a\",\"dest\":\"b\",\"body\":{\"msg_id\":5,\"in_reply_to\":7,\"type\":\"echo\",\"echo\":\"hi\"}}"
    );
}

#[test]
fn encoded_init_message_lists_its_peers() {
    let m = Message {
        src: String::from("c1"),
        dest: String::from("n1"),
        body: Body {
            msg_id: Some(1),
            in_reply_to: None,
            payload: Payload::Init {
                node_id: String::from("n1"),
                node_ids: vec![String::from("n1"), String::from("n2"), String::from("n3")],
            },
        },
    };
    assert_eq!(
        encode_message(&m),
        "{\"src\":\"c1\",\"dest\":\"n1\",\"body\":{\"msg_id\":1,\"type\":\"init\",\"node_id\":\"n1\",\"node_ids\":[\"n1\",\"n2\",\"n3\"]}}"
    );
}

#[test]
fn encoded_init_message_with_no_peers_has_an_empty_array() {
    let m = Message {
        src: String::from("c1"),
        dest: String::from("n1"),
        body: Body {
            msg_id: None,
            in_reply_to: None,
            payload: Payload::Init { node_id: String::from("n1"), node_ids: vec![] },
        },
    };
    assert_eq!(
        encode_message(&m),
        "{\"src\":\"c1\",\"dest\":\"n1\",\"body\":{\"type\":\"init\",\"node_id\":\"n1\",\"node_ids\":[]}}"
    );
}

#[test]
fn encoded_text_is_escaped() {
    let m = Message {
        src: String::from("n1"),
        dest: String::from("c1"),
        body: Body {
            msg_id: None,
            in_reply_to: Some(2),
            payload: Payload::EchoOk { echo: String::from("a\"b\\c\nd\te\u{0001}f\u{0008}g\u{000C}h\r") },
        },
    };
    assert_eq!(
        encode_message(&m),
        "{\"src\":\"n1\",\"dest\":\"c1\",\"body\":{\"in_reply_to\":2,\"type\":\"echo_ok\",\"echo\":\"a\\\"b\\\\c\\nd\\te\\u0001f\\bg\\fh\\r\"}}"
    );
}

#[test]
fn encoded_text_keeps_non_ascii_characters() {
    let m = Message {
        src: String::from("n1"),
        dest: String::from("c1"),
        body: Body {
            msg_id: None,
            in_reply_to: None,
            payload: Payload::EchoOk { echo: String::from("héllo ∆") },
        },
    };
    assert_eq!(
        encode_message(&m),
        "{\"src\":\"n1\",\"dest\":\"c1\",\"body\":{\"type\":\"echo_ok\",\"echo\":\"héllo ∆\"}}"
    );
}

#[test]
fn encoded_ids_cover_the_extremes() {
    let m = Message {
        src: String::from("a"),
        dest: String::from("b"),
        body: Body {
            msg_id: Some(2147483647),
            in_reply_to: Some(-2147483648),
            payload: Payload::InitOk,
        },
    };
    assert_eq!(
        encode_message(&m),
        "{\"src\":\"a\",\"dest\":\"b\",\"body\":{\"msg_id\":2147483647,\"in_reply_to\":-2147483648,\"type\":\"init_ok\"}}"
    );
}

#[test]
fn encoded_ids_cover_zero_and_small_negatives() {
    let m = Message {
        src: String::from("a"),
        dest: String::from("b"),
        body: Body { msg_id: Some(0), in_reply_to: Some(-12), payload: Payload::InitOk },
    };
    assert_eq!(
        encode_message(&m),
        "{\"src\":\"a\",\"dest\":\"b\",\"body\":{\"msg_id\":0,\"in_reply_to\":-12,\"type\":\"init_ok\"}}"
    );
}

#[test]
fn encoded_empty_strings_stay_empty() {
    let m = Message {
        src: String::new(),
        dest: String::new(),
        body: Body {
            msg_id: None,
            in_reply_to: None,
            payload: Payload::Echo { echo: String::new() },
        },
    };
    assert_eq!(
        encode_message(&m),
        "{\"src\":\"\",\"dest\":\"\",\"body\":{\"type\":\"echo\",\"echo\":\"\"}}"
    );
}

#[test]
fn encoded_escaped_text_parses_back_to_the_original() {
    let text = "a\"b\\c\nd\te\u{0001}f\u{0008}g\u{000C}h\r∆";
    let m = Message {
        src: String::from("n1"),
        dest: String::from("c1"),
        body: Body {
            msg_id: Some(3),
            in_reply_to: None,
            payload: Payload::Echo { echo: String::from(text) },
        },
    };
    let parsed: serde_json::Value =
        serde_json::from_str(&encode_message(&m)).expect("the encoder emits well-formed JSON");
    assert_eq!(parsed["src"].as_str(), Some("n1"));
    assert_eq!(parsed["dest"].as_str(), Some("c1"));
    assert_eq!(parsed["body"]["msg_id"].as_i64(), Some(3));
    assert_eq!(parsed["body"]["type"].as_str(), Some("echo"));
    assert_eq!(parsed["body"]["echo"].as_str(), Some(text));
}

#[test]
fn encoded_line_ends_with_exactly_one_newline() {
    let m = Message {
        src: String::from("n1"),
        dest: String::from("c1"),
        body: Body { msg_id: None, in_reply_to: Some(1), payload: Payload::InitOk },
    };
    let line = encode_line(&m);
    assert!(line.ends_with('\n'));
    assert!(!line.ends_with("\n\n"));
    assert_eq!(line.trim_end_matches('\n'), encode_message(&m));
}
