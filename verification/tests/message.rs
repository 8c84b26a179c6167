use gossip_node::error::Error;
use gossip_node::json::Json;
use gossip_node::message::{reply, reply_error, Request, Response};

fn request(kind: &str, id: Option<u64>) -> Request {
    Request {
        source: "c1".to_string(),
        destination: "n0".to_string(),
        message_type: kind.to_string(),
        message_id: id,
        in_reply_to: Some(77),
        body: vec![("ignored".to_string(), Json::Null)],
    }
}

#[test]
fn a_reply_goes_back_with_ok_behind_the_type() {
    let body = vec![("k".to_string(), Json::Int(1))];
    assert_eq!(
        Response::new_from_request(&request("read", Some(4)), body.clone()),
        Response {
            source: "n0".to_string(),
            destination: "c1".to_string(),
            message_type: "read_ok".to_string(),
            message_id: Some(5),
            in_reply_to: Some(4),
            body,
        }
    );
}

#[test]
fn a_reply_to_a_request_without_id_names_none() {
    let made = Response::new_from_request(&request("gossip", None), vec![]);
    assert_eq!(made.message_type, "gossip_ok");
    assert_eq!(made.message_id, None);
    assert_eq!(made.in_reply_to, None);
}

#[test]
fn a_reply_to_the_largest_id_has_no_id_of_its_own() {
    let made = Response::new_from_request(&request("read", Some(u64::MAX)), vec![]);
    assert_eq!(made.message_id, None);
    assert_eq!(made.in_reply_to, Some(u64::MAX));
    assert_eq!(made.message_type, "read_ok");
    assert_eq!(made.destination, "c1");
    let before = Response::new_from_request(&request("read", Some(u64::MAX - 1)), vec![]);
    assert_eq!(before.message_id, Some(u64::MAX));
}

#[test]
fn an_error_message_carries_code_and_text() {
    assert_eq!(
        Response::error(&request("topology", Some(3)), Error::BadTopology),
        Response {
            source: "n0".to_string(),
            destination: "c1".to_string(),
            message_type: "error".to_string(),
            message_id: None,
            in_reply_to: Some(3),
            body: vec![
                ("code".to_string(), Json::Int(1001)),
                ("text".to_string(), Json::Text("bad topology".to_string())),
            ],
        }
    );
}

#[test]
fn every_error_has_its_code_and_text() {
    assert_eq!(Error::Protocol.code(), 1000);
    assert_eq!(Error::BadTopology.code(), 1001);
    assert_eq!(Error::UnsupportedMessageType.code(), 10);
    assert_eq!(Error::MalformedField.code(), 12);
    assert_eq!(Error::Protocol.text(), "protocol error");
    assert_eq!(Error::BadTopology.text(), "bad topology");
    assert_eq!(Error::UnsupportedMessageType.text(), "unsupported message type");
    assert_eq!(Error::MalformedField.text(), "malformed field");
}

#[test]
fn nothing_is_sent_back_without_an_id() {
    assert_eq!(reply(&request("read", None), vec![]), vec![]);
    assert_eq!(reply_error(&request("read", None), Error::Protocol), vec![]);
    assert_eq!(reply(&request("read", Some(1)), vec![]).len(), 1);
    assert_eq!(
        reply_error(&request("read", Some(1)), Error::MalformedField),
        vec![Response::error(&request("read", Some(1)), Error::MalformedField)]
    );
}

#[test]
fn is_compares_the_type() {
    assert!(request("read", None).is("read"));
    assert!(!request("read", None).is("read_ok"));
    assert!(!request("read", None).is(""));
    assert!(request("", None).is(""));
}
