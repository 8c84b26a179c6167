use gossip_node::actor::Actor;
use gossip_node::error::Error;
use gossip_node::json::Json;
use gossip_node::message::{Request, Response};
use gossip_node::unique_id::{answer_with, UuidActor};

fn request(kind: &str, id: Option<u64>) -> Request {
    Request {
        source: "c1".to_string(),
        destination: "n0".to_string(),
        message_type: kind.to_string(),
        message_id: id,
        in_reply_to: None,
        body: vec![],
    }
}

fn id_of(response: &Response) -> String {
    assert_eq!(response.body.len(), 1);
    assert_eq!(response.body[0].0, "id");
    response.body[0].1.as_text().unwrap().clone()
}

#[test]
fn answer_with_carries_the_id_given() {
    assert_eq!(
        answer_with(&request("generate", Some(6)), "abc".to_string()),
        vec![Response {
            source: "n0".to_string(),
            destination: "c1".to_string(),
            message_type: "generate_ok".to_string(),
            message_id: Some(7),
            in_reply_to: Some(6),
            body: vec![("id".to_string(), Json::Text("abc".to_string()))],
        }]
    );
    assert_eq!(answer_with(&request("generate", None), "abc".to_string()), vec![]);
}

fn has_the_form_of_an_id(id: &str) -> bool {
    let chars: Vec<char> = id.chars().collect();
    chars.len() == 36
        && chars.iter().enumerate().all(|(i, c)| match i {
            8 | 13 | 18 | 23 => *c == '-',
            14 => *c == '4',
            _ => matches!(*c, '0'..='9' | 'a'..='f'),
        })
}

#[test]
fn generate_hands_out_ids_of_the_same_form_that_differ() {
    let actor = UuidActor::new();
    let mut seen: Vec<String> = vec![];
    for n in 0..100 {
        let responses = actor.handle_generate(&request("generate", Some(n))).unwrap();
        assert_eq!(responses.len(), 1);
        assert_eq!(responses[0].message_type, "generate_ok");
        assert_eq!(responses[0].in_reply_to, Some(n));
        let id = id_of(&responses[0]);
        assert_eq!(id.chars().count(), 36);
        assert!(has_the_form_of_an_id(&id));
        assert!(!seen.contains(&id));
        seen.push(id);
    }
}

#[test]
fn generate_without_an_id_sends_nothing() {
    let actor = UuidActor::new();
    assert_eq!(actor.handle_generate(&request("generate", None)), Ok(vec![]));
}

#[test]
fn the_unique_id_actor_goes_by_the_type() {
    let mut actor = UuidActor::new();
    assert_eq!(actor.node_id(), None);
    assert_eq!(actor.init("n1", vec![]), Ok(()));
    assert_eq!(actor.node_id(), Some(&"n1".to_string()));
    assert_eq!(actor.receive(&request("generate", Some(1))).unwrap().len(), 1);
    assert_eq!(actor.receive(&request("echo", Some(1))), Err(Error::UnsupportedMessageType));
    assert!(actor.is_identified());
    assert!(!actor.is_ticking());
    assert_eq!(actor.gossip(), Ok(vec![]));
}
