use gossip_node::envelope::{correlate, decode, encode, read_id, read_text};
use gossip_node::error::Error;
use gossip_node::json::{Fields, Json};
use gossip_node::message::{Request, Response};
use gossip_node::wire::parse;

fn text(s: &str) -> Json {
    Json::Text(s.to_string())
}

fn entry(key: &str, value: Json) -> (String, Json) {
    (key.to_string(), value)
}

fn envelope(src: Json, dest: Json, body: Json) -> Json {
    Json::Object(vec![entry("src", src), entry("dest", dest), entry("body", body)])
}

fn body(fields: Vec<(&str, Json)>) -> Json {
    Json::Object(fields.into_iter().map(|(k, v)| entry(k, v)).collect())
}

#[test]
fn decode_reads_a_whole_request() {
    let json = envelope(
        text("c1"),
        text("n0"),
        body(vec![
            ("type", text("broadcast")),
            ("message", Json::Int(5)),
            ("msg_id", Json::Int(1)),
            ("in_reply_to", Json::Int(9)),
        ]),
    );
    assert_eq!(
        decode(&json),
        Ok(Request {
            source: "c1".to_string(),
            destination: "n0".to_string(),
            message_type: "broadcast".to_string(),
            message_id: Some(1),
            in_reply_to: Some(9),
            body: vec![entry("message", Json::Int(5))],
        })
    );
}

#[test]
fn decode_takes_the_ids_as_optional() {
    let json = envelope(text("n1"), text("n0"), body(vec![("type", text("gossip")), ("messages", Json::Array(vec![]))]));
    let request = decode(&json).unwrap();
    assert_eq!(request.message_id, None);
    assert_eq!(request.in_reply_to, None);
    assert_eq!(request.body, vec![entry("messages", Json::Array(vec![]))]);
}

#[test]
fn decode_takes_the_largest_id() {
    let json = envelope(
        text("c1"),
        text("n0"),
        body(vec![("type", text("read")), ("msg_id", Json::Int(u64::MAX as i128))]),
    );
    assert_eq!(decode(&json).unwrap().message_id, Some(u64::MAX));
}

#[test]
fn decode_turns_down_a_malformed_envelope() {
    let good_body = || body(vec![("type", text("read")), ("msg_id", Json::Int(1))]);
    assert_eq!(decode(&Json::Array(vec![])), Err(Error::Protocol));
    assert_eq!(decode(&Json::Object(vec![])), Err(Error::Protocol));
    assert_eq!(
        decode(&Json::Object(vec![entry("dest", text("n0")), entry("body", good_body())])),
        Err(Error::Protocol)
    );
    assert_eq!(
        decode(&Json::Object(vec![entry("src", text("c1")), entry("body", good_body())])),
        Err(Error::Protocol)
    );
    assert_eq!(
        decode(&Json::Object(vec![entry("src", text("c1")), entry("dest", text("n0"))])),
        Err(Error::Protocol)
    );
    assert_eq!(decode(&envelope(Json::Int(1), text("n0"), good_body())), Err(Error::Protocol));
    assert_eq!(decode(&envelope(text("c1"), Json::Null, good_body())), Err(Error::Protocol));
    assert_eq!(decode(&envelope(text("c1"), text("n0"), text("body"))), Err(Error::Protocol));
    assert_eq!(
        decode(&envelope(text("c1"), text("n0"), body(vec![("msg_id", Json::Int(1))]))),
        Err(Error::Protocol)
    );
    assert_eq!(
        decode(&envelope(text("c1"), text("n0"), body(vec![("type", Json::Int(1))]))),
        Err(Error::Protocol)
    );
    assert_eq!(
        decode(&envelope(text("c1"), text("n0"), body(vec![("type", text("read")), ("msg_id", Json::Int(-1))]))),
        Err(Error::Protocol)
    );
    assert_eq!(
        decode(&envelope(text("c1"), text("n0"), body(vec![("type", text("read")), ("msg_id", text("1"))]))),
        Err(Error::Protocol)
    );
    assert_eq!(
        decode(&envelope(
            text("c1"),
            text("n0"),
            body(vec![("type", text("read")), ("in_reply_to", Json::Real("1.5".to_string()))])
        )),
        Err(Error::Protocol)
    );
}

#[test]
fn correlate_finds_whom_to_tell() {
    let json = envelope(text("c1"), text("n0"), body(vec![("msg_id", Json::Int(4))]));
    assert_eq!(decode(&json), Err(Error::Protocol));
    assert_eq!(
        correlate(&json),
        Some(Request {
            source: "c1".to_string(),
            destination: "n0".to_string(),
            message_type: String::new(),
            message_id: Some(4),
            in_reply_to: None,
            body: vec![],
        })
    );
    assert_eq!(correlate(&envelope(text("c1"), text("n0"), body(vec![("type", Json::Int(1))]))), None);
    assert_eq!(correlate(&envelope(Json::Null, text("n0"), body(vec![("msg_id", Json::Int(4))]))), None);
    assert_eq!(correlate(&envelope(text("c1"), text("n0"), body(vec![("msg_id", Json::Int(-4))]))), None);
    assert_eq!(correlate(&Json::Null), None);
}

#[test]
fn read_id_and_read_text_say_what_is_there() {
    let fields: Fields = vec![entry("id", Json::Int(7)), entry("name", text("n0")), entry("bad", Json::Int(-1))];
    assert_eq!(read_id(&fields, "id"), Ok(Some(7)));
    assert_eq!(read_id(&fields, "none"), Ok(None));
    assert_eq!(read_id(&fields, "bad"), Err(Error::Protocol));
    assert_eq!(read_id(&fields, "name"), Err(Error::Protocol));
    assert_eq!(read_text(&fields, "name"), Some("n0".to_string()));
    assert_eq!(read_text(&fields, "id"), None);
    assert_eq!(read_text(&fields, "none"), None);
}

#[test]
fn encode_writes_the_header_before_the_payload() {
    let response = Response {
        source: "n0".to_string(),
        destination: "c1".to_string(),
        message_type: "read_ok".to_string(),
        message_id: Some(3),
        in_reply_to: Some(2),
        body: vec![entry("messages", Json::from_ints(&vec![5]))],
    };
    assert_eq!(
        encode(&response),
        envelope(
            text("n0"),
            text("c1"),
            body(vec![
                ("type", text("read_ok")),
                ("msg_id", Json::Int(3)),
                ("in_reply_to", Json::Int(2)),
                ("messages", Json::Array(vec![Json::Int(5)])),
            ])
        )
    );
}

#[test]
fn encode_leaves_out_the_ids_that_are_not_there() {
    let response = Response {
        source: "n0".to_string(),
        destination: "n1".to_string(),
        message_type: "gossip".to_string(),
        message_id: None,
        in_reply_to: None,
        body: vec![],
    };
    assert_eq!(encode(&response), envelope(text("n0"), text("n1"), body(vec![("type", text("gossip"))])));
}

#[test]
fn encode_lets_the_payload_set_header_fields() {
    let response = Response {
        source: "n0".to_string(),
        destination: "n1".to_string(),
        message_type: "a".to_string(),
        message_id: Some(1),
        in_reply_to: None,
        body: vec![entry("x", Json::Int(1)), entry("type", text("b")), entry("x", Json::Int(2))],
    };
    assert_eq!(
        encode(&response),
        envelope(
            text("n0"),
            text("n1"),
            body(vec![("type", text("b")), ("msg_id", Json::Int(1)), ("x", Json::Int(2))])
        )
    );
}

#[test]
fn decode_reads_what_a_line_holds() {
    let json = parse(r#"{"src":"c1","dest":"n0","body":{"type":"topology","msg_id":2,"topology":{"n0":["n1"]}}}"#)
        .unwrap();
    let request = decode(&json).unwrap();
    assert_eq!(request.message_type, "topology");
    assert_eq!(request.message_id, Some(2));
    assert_eq!(
        request.body,
        vec![entry("topology", Json::Object(vec![entry("n0", Json::Array(vec![text("n1")]))]))]
    );
}

#[test]
fn what_is_written_is_read_back_the_same() {
    let response = Response {
        source: "n0".to_string(),
        destination: "n1".to_string(),
        message_type: "gossip".to_string(),
        message_id: None,
        in_reply_to: None,
        body: vec![entry("messages", Json::from_ints(&vec![3, -1, 2]))],
    };
    let expected = Request {
        source: "n0".to_string(),
        destination: "n1".to_string(),
        message_type: "gossip".to_string(),
        message_id: None,
        in_reply_to: None,
        body: vec![entry("messages", Json::from_ints(&vec![3, -1, 2]))],
    };
    assert_eq!(decode(&encode(&response)), Ok(expected));
    let line = gossip_node::wire::render(&encode(&response)).unwrap();
    let read = decode(&parse(&line).unwrap()).unwrap();
    assert_eq!(read.source, "n0");
    assert_eq!(read.destination, "n1");
    assert_eq!(read.message_type, "gossip");
    assert_eq!(read.body, response.body);
    let with_ids = Response {
        source: "n0".to_string(),
        destination: "c1".to_string(),
        message_type: "read_ok".to_string(),
        message_id: Some(u64::MAX),
        in_reply_to: Some(0),
        body: vec![entry("a", Json::Null), entry("b", text("x"))],
    };
    let read = decode(&encode(&with_ids)).unwrap();
    assert_eq!(read.message_id, Some(u64::MAX));
    assert_eq!(read.in_reply_to, Some(0));
    assert_eq!(read.body, with_ids.body);
}
