use gossip_node::actor::Actor;
use gossip_node::gossip::{all_among, contains_text, BroadcastActor, Phase};
use gossip_node::error::Error;
use gossip_node::json::Json;
use gossip_node::message::{Request, Response};

fn text(s: &str) -> Json {
    Json::Text(s.to_string())
}

fn texts(items: &[&str]) -> Json {
    Json::Array(items.iter().map(|s| text(s)).collect())
}

fn names(items: &[&str]) -> Vec<String> {
    items.iter().map(|s| s.to_string()).collect()
}

fn request(kind: &str, id: Option<u64>, body: Vec<(&str, Json)>) -> Request {
    Request {
        source: "c1".to_string(),
        destination: "n0".to_string(),
        message_type: kind.to_string(),
        message_id: id,
        in_reply_to: None,
        body: body.into_iter().map(|(k, v)| (k.to_string(), v)).collect(),
    }
}

fn broadcast(value: i64, id: Option<u64>) -> Request {
    request("broadcast", id, vec![("message", Json::Int(value as i128))])
}

fn gossip(values: &[i64]) -> Request {
    request("gossip", None, vec![("messages", Json::from_ints(&values.to_vec()))])
}

fn topology(entries: Vec<(&str, Json)>, id: Option<u64>) -> Request {
    let table = Json::Object(entries.into_iter().map(|(k, v)| (k.to_string(), v)).collect());
    request("topology", id, vec![("topology", table)])
}

fn identified(peers: &[&str]) -> BroadcastActor {
    let mut actor = BroadcastActor::new();
    assert_eq!(actor.init("n0", names(peers)), Ok(()));
    actor
}

fn sorted(mut values: Vec<i64>) -> Vec<i64> {
    values.sort();
    values
}

fn empty_reply(kind: &str, id: u64) -> Response {
    Response {
        source: "n0".to_string(),
        destination: "c1".to_string(),
        message_type: format!("{}_ok", kind),
        message_id: Some(id + 1),
        in_reply_to: Some(id),
        body: vec![],
    }
}

fn payload_of(response: &Response) -> Vec<i64> {
    assert_eq!(response.body.len(), 1);
    assert_eq!(response.body[0].0, "messages");
    response.body[0].1.as_ints().unwrap()
}

#[test]
fn a_new_actor_knows_nothing() {
    let actor = BroadcastActor::new();
    assert_eq!(actor.phase(), Phase::Unidentified);
    assert_eq!(actor.node_id(), "");
    assert!(actor.node_ids().is_empty());
    assert!(actor.neighbours().is_empty());
    assert_eq!(actor.len(), 0);
    assert!(actor.messages().is_empty());
    assert!(!actor.is_identified());
    assert!(!actor.is_ticking());
}

#[test]
fn init_tells_the_actor_who_it_is_once() {
    let mut actor = BroadcastActor::new();
    assert_eq!(actor.init("n0", names(&["n0", "n1", "n2"])), Ok(()));
    assert_eq!(actor.phase(), Phase::Unconfigured);
    assert_eq!(actor.node_id(), "n0");
    assert_eq!(actor.node_ids(), &names(&["n0", "n1", "n2"]));
    assert!(actor.is_identified());
    assert!(!actor.is_ticking());
    assert_eq!(actor.init("n9", names(&["n9"])), Err(Error::Protocol));
    assert_eq!(actor.node_id(), "n0");
    assert_eq!(actor.node_ids(), &names(&["n0", "n1", "n2"]));
}

#[test]
fn broadcast_twice_holds_the_value_once() {
    let mut actor = identified(&["n0", "n1"]);
    assert_eq!(actor.handle_broadcast(&broadcast(5, Some(1))), Ok(vec![empty_reply("broadcast", 1)]));
    assert_eq!(actor.handle_broadcast(&broadcast(5, Some(2))), Ok(vec![empty_reply("broadcast", 2)]));
    assert_eq!(actor.len(), 1);
    assert!(actor.contains(5));
    assert!(!actor.contains(4));
    assert_eq!(actor.messages(), vec![5]);
    let read = actor.handle_read(&request("read", Some(3), vec![])).unwrap();
    assert_eq!(read.len(), 1);
    assert_eq!(payload_of(&read[0]), vec![5]);
}

#[test]
fn broadcast_from_a_peer_is_not_answered() {
    let mut actor = identified(&["n0", "n1"]);
    assert_eq!(actor.handle_broadcast(&broadcast(8, None)), Ok(vec![]));
    assert!(actor.contains(8));
}

#[test]
fn broadcast_from_a_client_is_answered_once_with_an_empty_body() {
    let mut actor = identified(&["n0", "n1"]);
    let responses = actor.handle_broadcast(&broadcast(8, Some(41))).unwrap();
    assert_eq!(responses.len(), 1);
    assert!(responses[0].body.is_empty());
    assert_eq!(responses[0].in_reply_to, Some(41));
    assert_eq!(responses[0].message_type, "broadcast_ok");
    assert_eq!(responses[0].destination, "c1");
    assert_eq!(responses[0].source, "n0");
}

#[test]
fn broadcast_takes_every_signed_integer() {
    let mut actor = identified(&["n0"]);
    assert!(actor.handle_broadcast(&broadcast(i64::MIN, None)).is_ok());
    assert!(actor.handle_broadcast(&broadcast(i64::MAX, None)).is_ok());
    assert!(actor.handle_broadcast(&broadcast(0, None)).is_ok());
    assert_eq!(sorted(actor.messages()), vec![i64::MIN, 0, i64::MAX]);
}

#[test]
fn broadcast_without_message_is_a_protocol_error() {
    let mut actor = identified(&["n0"]);
    assert_eq!(actor.handle_broadcast(&request("broadcast", Some(1), vec![])), Err(Error::Protocol));
    assert_eq!(
        actor.handle_broadcast(&request("broadcast", Some(1), vec![("messages", Json::Int(1))])),
        Err(Error::Protocol)
    );
    assert_eq!(actor.len(), 0);
}

#[test]
fn broadcast_of_what_is_no_integer_is_a_malformed_field() {
    let mut actor = identified(&["n0"]);
    for value in [
        text("5"),
        Json::Real("5.5".to_string()),
        Json::Null,
        Json::Bool(true),
        Json::Array(vec![Json::Int(5)]),
        Json::Int(i64::MAX as i128 + 1),
        Json::Int(i64::MIN as i128 - 1),
    ] {
        assert_eq!(
            actor.handle_broadcast(&request("broadcast", Some(1), vec![("message", value)])),
            Err(Error::MalformedField)
        );
    }
    assert_eq!(actor.len(), 0);
}

#[test]
fn read_lists_every_message_once() {
    let mut actor = identified(&["n0"]);
    for value in [3, 1, 2, 3, 1, -4] {
        actor.handle_broadcast(&broadcast(value, None)).unwrap();
    }
    let responses = actor.handle_read(&request("read", Some(10), vec![])).unwrap();
    assert_eq!(responses.len(), 1);
    assert_eq!(responses[0].message_type, "read_ok");
    assert_eq!(responses[0].in_reply_to, Some(10));
    assert_eq!(responses[0].message_id, Some(11));
    assert_eq!(sorted(payload_of(&responses[0])), vec![-4, 1, 2, 3]);
    assert_eq!(actor.len(), 4);
}

#[test]
fn read_of_an_empty_set_is_an_empty_array() {
    let actor = identified(&["n0"]);
    let responses = actor.handle_read(&request("read", Some(1), vec![])).unwrap();
    assert_eq!(responses[0].body, vec![("messages".to_string(), Json::Array(vec![]))]);
}

#[test]
fn read_without_an_id_is_not_answered() {
    let mut actor = identified(&["n0"]);
    actor.handle_broadcast(&broadcast(1, None)).unwrap();
    assert_eq!(actor.handle_read(&request("read", None, vec![])), Ok(vec![]));
}

#[test]
fn gossip_merges_as_a_union() {
    let mut actor = identified(&["n0", "n1"]);
    for value in [1, 2, 3] {
        actor.handle_broadcast(&broadcast(value, None)).unwrap();
    }
    assert_eq!(actor.handle_gossip(&gossip(&[3, 4, 5, 4])), Ok(vec![]));
    assert_eq!(sorted(actor.messages()), vec![1, 2, 3, 4, 5]);
}

#[test]
fn gossip_in_any_order_and_any_number_of_times_gives_the_same_set() {
    let mut one = identified(&["n0", "n1"]);
    let mut other = identified(&["n0", "n1"]);
    one.handle_broadcast(&broadcast(7, None)).unwrap();
    other.handle_broadcast(&broadcast(7, None)).unwrap();
    one.handle_gossip(&gossip(&[1, 2, 3])).unwrap();
    one.handle_gossip(&gossip(&[9])).unwrap();
    other.handle_gossip(&gossip(&[9])).unwrap();
    other.handle_gossip(&gossip(&[3, 1, 2])).unwrap();
    other.handle_gossip(&gossip(&[2, 3, 1])).unwrap();
    other.handle_gossip(&gossip(&[9])).unwrap();
    assert_eq!(sorted(one.messages()), vec![1, 2, 3, 7, 9]);
    assert_eq!(sorted(one.messages()), sorted(other.messages()));
}

#[test]
fn gossip_is_never_answered() {
    let mut actor = identified(&["n0", "n1"]);
    let mut asked = gossip(&[1]);
    asked.message_id = Some(5);
    assert_eq!(actor.handle_gossip(&asked), Ok(vec![]));
    assert_eq!(actor.handle_gossip(&gossip(&[])), Ok(vec![]));
    assert_eq!(actor.messages(), vec![1]);
}

#[test]
fn gossip_that_is_malformed_changes_nothing() {
    let mut actor = identified(&["n0", "n1"]);
    actor.handle_broadcast(&broadcast(1, None)).unwrap();
    assert_eq!(actor.handle_gossip(&request("gossip", None, vec![])), Err(Error::Protocol));
    assert_eq!(
        actor.handle_gossip(&request("gossip", None, vec![("messages", Json::Int(2))])),
        Err(Error::MalformedField)
    );
    assert_eq!(
        actor.handle_gossip(&request(
            "gossip",
            None,
            vec![("messages", Json::Array(vec![Json::Int(2), text("3")]))]
        )),
        Err(Error::MalformedField)
    );
    assert_eq!(actor.messages(), vec![1]);
}

#[test]
fn topology_gives_the_node_its_neighbours() {
    let mut actor = identified(&["n0", "n1", "n2"]);
    let message = topology(vec![("n0", texts(&["n1", "n2"])), ("n1", texts(&["n0"]))], Some(2));
    assert_eq!(actor.handle_topology(&message), Ok(vec![empty_reply("topology", 2)]));
    assert_eq!(actor.phase(), Phase::Configured);
    assert_eq!(actor.neighbours(), &names(&["n1", "n2"]));
    assert!(actor.is_ticking());
}

#[test]
fn the_last_topology_wins() {
    let mut actor = identified(&["n0", "n1", "n2"]);
    actor.handle_topology(&topology(vec![("n0", texts(&["n1"]))], Some(1))).unwrap();
    actor.handle_topology(&topology(vec![("n0", texts(&["n2"]))], Some(2))).unwrap();
    assert_eq!(actor.neighbours(), &names(&["n2"]));
    actor.handle_topology(&topology(vec![("n0", texts(&[]))], None)).unwrap();
    assert!(actor.neighbours().is_empty());
    assert_eq!(actor.phase(), Phase::Configured);
}

#[test]
fn topology_without_own_entry_keeps_the_neighbours() {
    let mut actor = identified(&["n0", "n1"]);
    assert_eq!(
        actor.handle_topology(&topology(vec![("n1", texts(&["n0"]))], Some(3))),
        Err(Error::BadTopology)
    );
    assert_eq!(actor.phase(), Phase::Unconfigured);
    assert!(actor.neighbours().is_empty());
    actor.handle_topology(&topology(vec![("n0", texts(&["n1"]))], Some(4))).unwrap();
    assert_eq!(
        actor.handle_topology(&topology(vec![("n1", texts(&["n0"]))], Some(5))),
        Err(Error::BadTopology)
    );
    assert_eq!(actor.phase(), Phase::Configured);
    assert_eq!(actor.neighbours(), &names(&["n1"]));
}

#[test]
fn topology_that_is_malformed_is_bad() {
    let mut actor = identified(&["n0", "n1"]);
    let bad = [
        request("topology", Some(1), vec![]),
        request("topology", Some(1), vec![("topology", texts(&["n1"]))]),
        request("topology", Some(1), vec![("topology", Json::Null)]),
        topology(vec![("n0", text("n1"))], Some(1)),
        topology(vec![("n0", Json::Array(vec![text("n1"), Json::Int(2)]))], Some(1)),
        topology(vec![("n0", Json::Object(vec![]))], Some(1)),
    ];
    for message in bad.iter() {
        assert_eq!(actor.handle_topology(message), Err(Error::BadTopology));
    }
    assert_eq!(actor.phase(), Phase::Unconfigured);
}

#[test]
fn topology_with_a_stranger_is_bad() {
    let mut actor = identified(&["n0", "n1"]);
    assert_eq!(
        actor.handle_topology(&topology(vec![("n0", texts(&["n1", "n7"]))], Some(1))),
        Err(Error::BadTopology)
    );
    assert!(actor.neighbours().is_empty());
    assert_eq!(actor.phase(), Phase::Unconfigured);
}

#[test]
fn broadcast_before_init_is_a_protocol_error() {
    let mut actor = BroadcastActor::new();
    assert_eq!(actor.handle_broadcast(&broadcast(5, Some(1))), Err(Error::Protocol));
    assert_eq!(actor.handle_broadcast(&broadcast(5, None)), Err(Error::Protocol));
    assert_eq!(actor.receive(&broadcast(5, Some(1))), Err(Error::Protocol));
    assert_eq!(actor.len(), 0);
    assert!(!actor.contains(5));
    assert_eq!(actor.phase(), Phase::Unidentified);
}

#[test]
fn read_before_init_is_a_protocol_error() {
    let mut actor = BroadcastActor::new();
    assert_eq!(actor.handle_read(&request("read", Some(1), vec![])), Err(Error::Protocol));
    assert_eq!(actor.receive(&request("read", Some(1), vec![])), Err(Error::Protocol));
    assert_eq!(actor.phase(), Phase::Unidentified);
}

#[test]
fn gossip_before_init_is_a_protocol_error() {
    let mut actor = BroadcastActor::new();
    assert_eq!(actor.handle_gossip(&gossip(&[1, 2])), Err(Error::Protocol));
    assert_eq!(actor.receive(&gossip(&[1, 2])), Err(Error::Protocol));
    assert_eq!(actor.len(), 0);
    assert!(actor.neighbours().is_empty());
    assert_eq!(actor.phase(), Phase::Unidentified);
}

#[test]
fn every_request_before_init_is_a_protocol_error_whatever_its_type() {
    let mut actor = BroadcastActor::new();
    for kind in ["broadcast", "read", "topology", "gossip", "echo", ""] {
        assert_eq!(
            actor.receive(&request(kind, Some(1), vec![("message", Json::Int(1))])),
            Err(Error::Protocol)
        );
    }
    assert_eq!(actor.len(), 0);
    assert!(actor.neighbours().is_empty());
    assert_eq!(actor.phase(), Phase::Unidentified);
    actor.init("n0", names(&["n0"])).unwrap();
    assert_eq!(actor.receive(&broadcast(1, None)), Ok(vec![]));
    assert!(actor.contains(1));
}

#[test]
fn topology_before_init_is_a_protocol_error() {
    let mut actor = BroadcastActor::new();
    assert_eq!(
        actor.handle_topology(&topology(vec![("", texts(&[]))], Some(1))),
        Err(Error::Protocol)
    );
    assert_eq!(actor.phase(), Phase::Unidentified);
    assert_eq!(
        actor.receive(&topology(vec![("", texts(&[]))], Some(1))),
        Err(Error::Protocol)
    );
    assert!(actor.neighbours().is_empty());
}

#[test]
fn receive_goes_by_the_type() {
    let mut actor = identified(&["n0", "n1"]);
    assert_eq!(actor.receive(&broadcast(1, Some(1))), Ok(vec![empty_reply("broadcast", 1)]));
    assert_eq!(actor.receive(&gossip(&[2])), Ok(vec![]));
    let read = actor.receive(&request("read", Some(2), vec![])).unwrap();
    assert_eq!(sorted(payload_of(&read[0])), vec![1, 2]);
    assert_eq!(
        actor.receive(&topology(vec![("n0", texts(&["n1"]))], Some(3))),
        Ok(vec![empty_reply("topology", 3)])
    );
    assert_eq!(actor.neighbours(), &names(&["n1"]));
}

#[test]
fn receive_turns_down_what_it_has_no_handler_for() {
    let mut actor = identified(&["n0", "n1"]);
    for kind in ["echo", "generate", "init", "", "Broadcast", "broadcast_ok"] {
        assert_eq!(
            actor.receive(&request(kind, Some(1), vec![("message", Json::Int(1))])),
            Err(Error::UnsupportedMessageType)
        );
    }
    assert_eq!(actor.len(), 0);
}

#[test]
fn send_to_node_adds_one_gossip_message() {
    let mut actor = identified(&["n0", "n1"]);
    actor.handle_broadcast(&broadcast(4, None)).unwrap();
    let mut responses = vec![empty_reply("read", 1)];
    actor.send_to_node("n1", &mut responses);
    assert_eq!(responses.len(), 2);
    assert_eq!(responses[0], empty_reply("read", 1));
    assert_eq!(
        responses[1],
        Response {
            source: "n0".to_string(),
            destination: "n1".to_string(),
            message_type: "gossip".to_string(),
            message_id: None,
            in_reply_to: None,
            body: vec![("messages".to_string(), Json::Array(vec![Json::Int(4)]))],
        }
    );
}

#[test]
fn a_gossip_round_writes_to_the_neighbour_and_to_the_peer_drawn() {
    let mut actor = identified(&["n0", "n1", "n2", "n3"]);
    actor.handle_topology(&topology(vec![("n0", texts(&["n2", "n3"]))], None)).unwrap();
    actor.handle_broadcast(&broadcast(6, None)).unwrap();
    actor.handle_broadcast(&broadcast(9, None)).unwrap();
    let round = actor.gossip_round(Some(1), Some(0));
    assert_eq!(round.len(), 2);
    assert_eq!(round[0].destination, "n3");
    assert_eq!(round[1].destination, "n0");
    for message in round.iter() {
        assert_eq!(message.source, "n0");
        assert_eq!(message.message_type, "gossip");
        assert_eq!(message.message_id, None);
        assert_eq!(message.in_reply_to, None);
        assert_eq!(sorted(payload_of(message)), vec![6, 9]);
    }
    assert_eq!(actor.gossip_round(Some(0), None).len(), 1);
    assert_eq!(actor.gossip_round(None, Some(3))[0].destination, "n3");
    assert!(actor.gossip_round(None, None).is_empty());
}

#[test]
fn a_tick_gossips_only_once_configured() {
    let mut actor = BroadcastActor::new();
    assert_eq!(actor.gossip(), Ok(vec![]));
    actor.init("n0", names(&["n0", "n1", "n2"])).unwrap();
    actor.handle_broadcast(&broadcast(1, None)).unwrap();
    assert_eq!(actor.gossip(), Ok(vec![]));
    actor.handle_topology(&topology(vec![("n0", texts(&["n1", "n2"]))], None)).unwrap();
    for _ in 0..50 {
        let round = actor.gossip().unwrap();
        assert_eq!(round.len(), 2);
        assert!(round[0].destination == "n1" || round[0].destination == "n2");
        assert!(actor.node_ids().contains(&round[1].destination));
        assert_eq!(payload_of(&round[0]), vec![1]);
        assert_eq!(payload_of(&round[1]), vec![1]);
    }
    assert_eq!(actor.messages(), vec![1]);
}

#[test]
fn a_tick_without_neighbours_writes_to_a_peer_only() {
    let mut actor = identified(&["n0", "n1"]);
    actor.handle_topology(&topology(vec![("n0", texts(&[]))], None)).unwrap();
    let round = actor.gossip().unwrap();
    assert_eq!(round.len(), 1);
    assert!(round[0].destination == "n0" || round[0].destination == "n1");
}

#[test]
fn a_tick_in_a_cluster_without_nodes_writes_to_nobody() {
    let mut actor = BroadcastActor::new();
    actor.init("n0", vec![]).unwrap();
    actor.handle_topology(&topology(vec![("n0", texts(&[]))], None)).unwrap();
    assert_eq!(actor.phase(), Phase::Configured);
    assert_eq!(actor.gossip(), Ok(vec![]));
}

#[test]
fn the_draw_comes_out_differently_over_time() {
    let mut actor = identified(&["n0", "n1", "n2", "n3"]);
    actor.handle_topology(&topology(vec![("n0", texts(&["n1", "n2", "n3"]))], None)).unwrap();
    let mut seen: Vec<String> = vec![];
    for _ in 0..400 {
        let round = actor.gossip().unwrap();
        if !seen.contains(&round[0].destination) {
            seen.push(round[0].destination.clone());
        }
    }
    seen.sort();
    assert_eq!(seen, names(&["n1", "n2", "n3"]));
}

#[test]
fn contains_text_and_all_among_compare_by_content() {
    let known = names(&["n0", "n1"]);
    assert!(contains_text(&known, &"n1".to_string()));
    assert!(!contains_text(&known, &"n2".to_string()));
    assert!(!contains_text(&vec![], &"n0".to_string()));
    assert!(all_among(&names(&["n1", "n0", "n1"]), &known));
    assert!(all_among(&vec![], &known));
    assert!(all_among(&vec![], &vec![]));
    assert!(!all_among(&names(&["n1", "n2"]), &known));
}
