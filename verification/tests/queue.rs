use gossip_node::message::Request;
use gossip_node::queue::EventQueue;
use gossip_node::runtime::Event;

fn request(n: u64) -> Request {
    Request {
        source: "c1".to_string(),
        destination: "n0".to_string(),
        message_type: "read".to_string(),
        message_id: Some(n),
        in_reply_to: None,
        body: vec![],
    }
}

fn message(n: u64) -> Event {
    Event::InboundMessage(request(n))
}

fn drain(queue: &mut EventQueue) -> Vec<Event> {
    let mut events = vec![];
    while let Some(event) = queue.pop() {
        events.push(event);
    }
    events
}

#[test]
fn events_leave_in_the_order_they_came() {
    let mut queue = EventQueue::new(8);
    assert!(queue.is_empty());
    assert!(queue.push_message(request(1)));
    assert!(queue.push_tick());
    assert!(queue.push(message(2)));
    assert!(queue.push(Event::TimerTick));
    assert_eq!(queue.len(), 4);
    assert_eq!(queue.pop(), Some(message(1)));
    assert_eq!(queue.pop(), Some(Event::TimerTick));
    assert_eq!(queue.pop(), Some(message(2)));
    assert_eq!(queue.pop(), Some(Event::TimerTick));
    assert_eq!(queue.pop(), None);
    assert!(queue.is_empty());
    assert!(!queue.is_finished());
}

#[test]
fn a_tick_that_finds_the_queue_full_takes_the_place_of_the_oldest_tick() {
    let mut queue = EventQueue::new(4);
    queue.push_message(request(1));
    queue.push_tick();
    queue.push_message(request(2));
    queue.push_tick();
    assert!(queue.push_tick());
    assert_eq!(queue.len(), 4);
    assert_eq!(drain(&mut queue), vec![message(1), message(2), Event::TimerTick, Event::TimerTick]);
}

#[test]
fn a_tick_is_dropped_where_only_messages_wait() {
    let mut queue = EventQueue::new(2);
    queue.push_message(request(1));
    queue.push_message(request(2));
    assert!(!queue.push_tick());
    assert!(!queue.push(Event::TimerTick));
    assert_eq!(drain(&mut queue), vec![message(1), message(2)]);
}

#[test]
fn a_message_is_taken_even_when_the_queue_is_full() {
    let mut queue = EventQueue::new(1);
    assert!(queue.push_tick());
    assert!(queue.push_message(request(1)));
    assert!(queue.push_message(request(2)));
    assert!(queue.push_tick());
    assert_eq!(queue.len(), 3);
    assert_eq!(drain(&mut queue), vec![message(1), message(2), Event::TimerTick]);
}

#[test]
fn a_queue_without_room_takes_no_tick() {
    let mut queue = EventQueue::new(0);
    assert!(!queue.push_tick());
    assert!(queue.push_message(request(1)));
    assert!(!queue.push_tick());
    assert_eq!(drain(&mut queue), vec![message(1)]);
}

#[test]
fn a_closed_queue_takes_nothing_and_still_gives_what_waits() {
    let mut queue = EventQueue::new(4);
    queue.push_message(request(1));
    queue.push_tick();
    assert!(!queue.is_closed());
    queue.close();
    assert!(queue.is_closed());
    assert!(!queue.is_finished());
    assert!(!queue.push_message(request(2)));
    assert!(!queue.push_tick());
    assert!(!queue.push(message(3)));
    assert_eq!(queue.len(), 2);
    assert_eq!(queue.pop(), Some(message(1)));
    assert_eq!(queue.pop(), Some(Event::TimerTick));
    assert!(queue.is_finished());
    assert_eq!(queue.pop(), None);
}
