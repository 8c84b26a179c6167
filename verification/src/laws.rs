//! What holds of every node, whatever it is sent.

use crate::actor::Actor;
use crate::envelope::{decoded, decoded_after_encoded, encoded, encoded_keeps_names_apart};
use crate::error::Error;
use crate::gossip::{
    broadcast_post, broadcast_value, gossip_post, gossip_to, gossip_values, init_post, is_gossip,
    is_payload, is_reading, messages_body, read_post, receive_post, round_post, round_targets,
    tick_post, topology_neighbours, topology_post, ActorView, BroadcastActor,
};
use crate::json::{
    array_of_ints, field, first_at, ints_of, items_apart, names_apart, values_apart, JsonView,
};
use crate::message::{error_for, error_replies, replies, reply_to, RequestView, ResponseView};
use crate::runtime::{
    answers, delivered, event_post, handshake_post, init_arguments, introduced, message_post,
    ticked, Event,
};
use crate::wire::{rendered, written};
use vstd::prelude::*;

verus! {

/// `value` stands at one place of `list`, and at no other.
pub open spec fn occurs_once(list: Seq<i64>, value: i64) -> bool {
    exists|i: int|
        0 <= i < list.len() && #[trigger] list[i] == value && forall|j: int|
            0 <= j < list.len() && #[trigger] list[j] == value ==> j == i
}

/// The set once each of `values` has been put into it, one after the other.
pub open spec fn inserted_each(set: Set<i64>, values: Seq<i64>) -> Set<i64>
    decreases values.len(),
{
    if values.len() == 0 {
        set
    } else {
        inserted_each(set, values.drop_last()).insert(values.last())
    }
}

/// Broadcasting a value that the node holds already changes nothing.
pub proof fn broadcast_again_changes_nothing(state: ActorView, value: i64)
    ensures
        state.with_message(value).messages.contains(value),
        state.with_message(value).with_message(value) == state.with_message(value),
{
    assert(state.messages.insert(value).insert(value) =~= state.messages.insert(value));
}

/// After two broadcasts of one value the node holds it, the second broadcast
/// has changed nothing, and every listing of the node's set, such as a read
/// hands out, names the value exactly once.
pub proof fn broadcast_twice_holds_once(
    start: ActorView,
    first: RequestView,
    middle: ActorView,
    first_outcome: Result<Seq<ResponseView>, Error>,
    second: RequestView,
    end: ActorView,
    second_outcome: Result<Seq<ResponseView>, Error>,
    value: i64,
    payload: Seq<i64>,
)
    requires
        !(start.phase is Unidentified),
        broadcast_value(first.body) == Ok::<_, Error>(value),
        broadcast_value(second.body) == Ok::<_, Error>(value),
        broadcast_post(start, first, middle, first_outcome),
        broadcast_post(middle, second, end, second_outcome),
        is_payload(payload, end.messages),
    ensures
        first_outcome is Ok,
        second_outcome is Ok,
        end == middle,
        end.messages == start.messages.insert(value),
        end.messages.contains(value),
        occurs_once(payload, value),
{
    broadcast_again_changes_nothing(start, value);
    assert(payload.to_set().contains(value));
    let i = choose|i: int| 0 <= i < payload.len() && payload[i] == value;
    assert(payload[i] == value);
}

/// Before a node has been told who it is, every request that reaches the
/// actor is turned away with a protocol error, and nothing changes: neither
/// the set of messages nor the neighbours. This holds of `receive` and of each
/// of the four handlers.
pub proof fn before_the_handshake_every_request_is_turned_away(
    before: ActorView,
    request: RequestView,
    after: ActorView,
    outcome: Result<Seq<ResponseView>, Error>,
)
    requires
        before.phase is Unidentified,
        receive_post(before, request, after, outcome) || broadcast_post(
            before,
            request,
            after,
            outcome,
        ) || read_post(before, request, after, outcome) || topology_post(
            before,
            request,
            after,
            outcome,
        ) || gossip_post(before, request, after, outcome),
    ensures
        outcome == Err::<Seq<ResponseView>, _>(Error::Protocol),
        after == before,
        after.messages == before.messages,
        after.neighbours == before.neighbours,
{
}

/// A read changes nothing, and what it hands out lists the node's set without
/// naming anything twice.
pub proof fn read_lists_without_duplicates(
    before: ActorView,
    request: RequestView,
    after: ActorView,
    responses: Seq<ResponseView>,
)
    requires
        read_post(before, request, after, Ok(responses)),
        request.message_id is Some,
    ensures
        after == before,
        responses.len() == 1,
        exists|payload: Seq<i64>|
            {
                &&& #[trigger] payload.no_duplicates()
                &&& payload.to_set() == before.messages
                &&& responses[0] == reply_to(request, messages_body(payload))
            },
{
    assert(is_reading(before.messages, request, responses));
    let payload = choose|payload: Seq<i64>| #[trigger]
        is_payload(payload, before.messages) && responses == replies(
            request,
            messages_body(payload),
        );
    assert(payload.no_duplicates());
}

/// A broadcast without an id is answered with nothing; one with an id is
/// answered with exactly one reply, which is a `broadcast_ok` with an empty
/// body, names the id and goes back to the sender.
pub proof fn broadcast_replies_when_asked(
    before: ActorView,
    request: RequestView,
    after: ActorView,
    responses: Seq<ResponseView>,
)
    requires
        request.message_type == "broadcast"@,
        broadcast_post(before, request, after, Ok(responses)),
    ensures
        request.message_id is None ==> responses.len() == 0,
        request.message_id is Some ==> {
            &&& responses.len() == 1
            &&& responses[0].message_type == "broadcast_ok"@
            &&& responses[0].body.len() == 0
            &&& responses[0].in_reply_to == request.message_id
            &&& responses[0].destination == request.source
        },
{
    reveal_strlit("broadcast");
    reveal_strlit("_ok");
    reveal_strlit("broadcast_ok");
    assert("broadcast"@ + "_ok"@ =~= "broadcast_ok"@);
}

/// A gossip message is never answered.
pub proof fn gossip_is_never_answered(
    before: ActorView,
    request: RequestView,
    after: ActorView,
    responses: Seq<ResponseView>,
)
    requires
        gossip_post(before, request, after, Ok(responses)),
    ensures
        responses.len() == 0,
{
}

/// A topology whose table has no entry under the node's own id is turned
/// down as a bad topology: nothing is sent for it by the actor, and the node
/// keeps the phase and the neighbours it had.
pub proof fn topology_without_own_entry_is_bad(
    before: ActorView,
    request: RequestView,
    after: ActorView,
    outcome: Result<Seq<ResponseView>, Error>,
)
    requires
        !(before.phase is Unidentified),
        field(request.body, "topology"@) matches Some(JsonView::Object(table)) ==> field(
            table,
            before.node_id,
        ) is None,
        topology_post(before, request, after, outcome),
    ensures
        outcome == Err::<Seq<ResponseView>, _>(Error::BadTopology),
        after == before,
        after.neighbours == before.neighbours,
        after.phase == before.phase,
{
}

/// A node that turns a topology down does not ask for the timer, and tells
/// the sender of the bad topology with code 1001 if the request has an id.
pub proof fn a_topology_turned_down_asks_for_no_timer(
    before: ActorView,
    request: RequestView,
    after: ActorView,
    responses: Seq<ResponseView>,
    arm_timer: bool,
)
    requires
        !(before.phase is Unidentified),
        request.message_type == "topology"@,
        topology_neighbours(before, request.body) is Err,
        message_post::<BroadcastActor>(before, request, after, responses, arm_timer),
    ensures
        !arm_timer,
        after == before,
        topology_neighbours(before, request.body) == Err::<Seq<Seq<char>>, _>(Error::BadTopology),
        responses == error_replies(request, Error::BadTopology),
{
    reveal_strlit("topology");
    reveal_strlit("init");
    reveal_strlit("broadcast");
    reveal_strlit("read");
    assert("topology"@.len() == 8 && "init"@.len() == 4 && "broadcast"@.len() == 9 && "read"@.len()
        == 4);
    assert(delivered::<BroadcastActor>(before, request, after, responses));
    let outcome = choose|outcome: Result<Seq<ResponseView>, Error>| #[trigger]
        BroadcastActor::receive_post(before, request, after, outcome) && responses == answers(
            request,
            outcome,
        );
    assert(topology_post(before, request, after, outcome));
}

/// The error message for a bad topology carries the code 1001 and names the
/// request's id.
pub proof fn bad_topology_is_code_1001(request: RequestView)
    ensures
        error_for(request, Error::BadTopology).message_type == "error"@,
        error_for(request, Error::BadTopology).in_reply_to == request.message_id,
        field(error_for(request, Error::BadTopology).body, "code"@) == Some(JsonView::Int(1001)),
{
    let body = error_for(request, Error::BadTopology).body;
    assert(first_at(body, "code"@, 0));
}

/// Merging the listing of a set into another gives the union of the two.
pub proof fn gossip_merge_is_union(
    before: ActorView,
    request: RequestView,
    after: ActorView,
    outcome: Result<Seq<ResponseView>, Error>,
    payload: Seq<i64>,
    sent: Set<i64>,
)
    requires
        !(before.phase is Unidentified),
        gossip_values(request.body) == Ok::<_, Error>(payload),
        payload.to_set() == sent,
        gossip_post(before, request, after, outcome),
    ensures
        after.messages == before.messages.union(sent),
        outcome == Ok::<_, Error>(Seq::<ResponseView>::empty()),
{
}

/// The messages of a gossip round go, in this order, to the neighbour drawn
/// and to the peer drawn, and each carries a listing of the whole set.
pub proof fn a_round_writes_to_the_two_drawn(
    state: ActorView,
    neighbour: int,
    peer: int,
    responses: Seq<ResponseView>,
)
    requires
        round_post(state, Some(neighbour), Some(peer), responses),
    ensures
        responses.len() == 2,
        responses[0].destination == state.neighbours[neighbour],
        responses[1].destination == state.peers[peer],
        forall|k: int|
            0 <= k < 2 ==> (#[trigger] responses[k]).source == state.node_id && (gossip_values(
                responses[k].body,
            ) matches Ok(values) && values.to_set() == state.messages),
{
    let targets = round_targets(state, Some(neighbour), Some(peer));
    assert(targets.len() == 2);
    assert forall|k: int| 0 <= k < 2 implies (#[trigger] responses[k]).source == state.node_id
        && responses[k].destination == targets[k] && (gossip_values(
        responses[k].body,
    ) matches Ok(values) && values.to_set() == state.messages) by {
        assert(is_gossip(state, targets[k], responses[k]));
        gossip_sent_is_gossip_read(state, targets[k], responses[k]);
    }
    assert(responses[0].destination == targets[0]);
    assert(responses[1].destination == targets[1]);
}

/// What a node sends in a gossip round is what the receiver reads: the body
/// of the message carries a listing of the sender's whole set.
pub proof fn gossip_sent_is_gossip_read(
    sender: ActorView,
    destination: Seq<char>,
    message: ResponseView,
)
    requires
        is_gossip(sender, destination, message),
    ensures
        gossip_values(message.body) matches Ok(values) && values.to_set() == sender.messages,
{
    let payload = choose|payload: Seq<i64>| #[trigger]
        is_payload(payload, sender.messages) && message == gossip_to(
            sender.node_id,
            destination,
            payload,
        );
    let body = messages_body(payload);
    assert(first_at(body, "messages"@, 0));
    let items = array_of_ints(payload)->Array_0;
    assert forall|i: int| 0 <= i < items.len() implies (#[trigger] items[i]).as_i64() == Some(
        payload[i],
    ) by {}
    assert(ints_of(items)->0 =~= payload);
}

/// A gossip message that is written as JSON by its sender and read by its
/// receiver is a `gossip` request from the sender that carries a listing of
/// the sender's whole set.
pub proof fn gossip_survives_the_envelope(
    sender: ActorView,
    destination: Seq<char>,
    message: ResponseView,
)
    requires
        is_gossip(sender, destination, message),
    ensures
        decoded(encoded(message)) matches Ok(request) && {
            &&& request.source == sender.node_id
            &&& request.destination == destination
            &&& request.message_type == "gossip"@
            &&& request.message_id is None
            &&& gossip_values(request.body) matches Ok(values) && values.to_set()
                == sender.messages
        },
{
    reveal_strlit("messages");
    reveal_strlit("type");
    reveal_strlit("msg_id");
    reveal_strlit("in_reply_to");
    assert("messages"@.len() == 8);
    assert("type"@.len() == 4 && "msg_id"@.len() == 6 && "in_reply_to"@.len() == 11);
    decoded_after_encoded(message);
    gossip_sent_is_gossip_read(sender, destination, message);
}

/// Whatever an actor sends is written as `serde_json` writes it: no reply, no
/// `error` message and no gossip message holds an object with two entries of
/// one name.
pub proof fn what_an_actor_sends_is_written(
    sender: ActorView,
    destination: Seq<char>,
    message: ResponseView,
    request: RequestView,
    payload: Seq<i64>,
    error: Error,
)
    requires
        is_gossip(sender, destination, message) || message == reply_to(request, Seq::empty())
            || message == reply_to(request, messages_body(payload)) || message == error_for(
            request,
            error,
        ),
    ensures
        names_apart(encoded(message)),
        written(encoded(message)) == rendered(encoded(message)),
{
    assert(values_apart(message.body)) by {
        assert forall|i: int| 0 <= i < message.body.len() implies names_apart(
            (#[trigger] message.body[i]).1,
        ) by {
            let value = message.body[i].1;
            if value is Array {
                assert(items_apart(value->Array_0)) by {
                    assert forall|k: int| 0 <= k < value->Array_0.len() implies names_apart(
                        #[trigger] value->Array_0[k],
                    ) by {
                        assert(value->Array_0[k] is Int);
                    }
                }
            }
        }
    }
    encoded_keeps_names_apart(message);
}

/// A gossip message that arrives merges the sender's set, as it was when the
/// message was sent, into the receiver's.
pub proof fn gossip_delivered_merges_sets(
    sender: ActorView,
    message: ResponseView,
    before: ActorView,
    request: RequestView,
    after: ActorView,
    outcome: Result<Seq<ResponseView>, Error>,
)
    requires
        !(before.phase is Unidentified),
        is_gossip(sender, request.destination, message),
        request.body == message.body,
        gossip_post(before, request, after, outcome),
    ensures
        after.messages == before.messages.union(sender.messages),
        outcome == Ok::<_, Error>(Seq::<ResponseView>::empty()),
{
    gossip_sent_is_gossip_read(sender, request.destination, message);
}

/// Merging value by value, in the order of the listing, gives the union too.
pub proof fn merge_value_by_value_is_union(set: Set<i64>, values: Seq<i64>)
    ensures
        inserted_each(set, values) == set.union(values.to_set()),
    decreases values.len(),
{
    if values.len() == 0 {
        assert(values.to_set() =~= Set::empty());
        assert(set.union(values.to_set()) =~= set);
    } else {
        merge_value_by_value_is_union(set, values.drop_last());
        values.drop_last().lemma_push_to_set_commute(values.last());
        assert(values.drop_last().push(values.last()) =~= values);
        assert(set.union(values.drop_last().to_set()).insert(values.last()) =~= set.union(
            values.to_set(),
        ));
    }
}

/// The order in which the values of a listing are merged does not matter:
/// two listings of the same values give the same set.
pub proof fn merge_ignores_order(state: ActorView, first: Seq<i64>, second: Seq<i64>)
    requires
        first.to_set() == second.to_set(),
    ensures
        state.with_messages(first) == state.with_messages(second),
        inserted_each(state.messages, first) == inserted_each(state.messages, second),
{
    merge_value_by_value_is_union(state.messages, first);
    merge_value_by_value_is_union(state.messages, second);
}

/// Merging a listing a second time changes nothing.
pub proof fn merge_again_changes_nothing(state: ActorView, values: Seq<i64>)
    ensures
        state.with_messages(values).with_messages(values) == state.with_messages(values),
{
    assert(state.messages.union(values.to_set()).union(values.to_set()) =~= state.messages.union(
        values.to_set(),
    ));
}

/// Two listings may be merged in either order.
pub proof fn merges_commute(state: ActorView, first: Seq<i64>, second: Seq<i64>)
    ensures
        state.with_messages(first).with_messages(second) == state.with_messages(
            second,
        ).with_messages(first),
{
    assert(state.messages.union(first.to_set()).union(second.to_set()) =~= state.messages.union(
        second.to_set(),
    ).union(first.to_set()));
}

/// One state comes after another: no message has been lost, the node has not
/// gone back a phase, it is who it was once it knew, and it stays well formed.
pub open spec fn follows(before: ActorView, after: ActorView) -> bool {
    &&& before.messages.subset_of(after.messages)
    &&& before.phase is Configured ==> after.phase is Configured
    &&& !(before.phase is Unidentified) ==> {
        &&& !(after.phase is Unidentified)
        &&& after.node_id == before.node_id
        &&& after.peers == before.peers
    }
    &&& before.well_formed() ==> after.well_formed()
}

/// Whatever message the actor handles, its new state follows its old one.
pub proof fn receive_only_moves_forward(
    before: ActorView,
    request: RequestView,
    after: ActorView,
    outcome: Result<Seq<ResponseView>, Error>,
)
    requires
        receive_post(before, request, after, outcome),
    ensures
        follows(before, after),
{
    if before.well_formed() {
        if request.message_type == "gossip"@ {
            if let Ok(values) = gossip_values(request.body) {
                vstd::seq_lib::seq_to_set_is_finite(values);
                vstd::set_lib::lemma_set_union_finite_iff(before.messages, values.to_set());
            }
        }
    }
}

/// Whatever message a node handles, its new state follows its old one, and
/// the timer is asked for only where the message made the node configured.
pub proof fn message_only_moves_forward(
    before: ActorView,
    request: RequestView,
    after: ActorView,
    responses: Seq<ResponseView>,
    arm_timer: bool,
)
    requires
        message_post::<BroadcastActor>(before, request, after, responses, arm_timer),
    ensures
        follows(before, after),
        arm_timer ==> !(before.phase is Configured) && after.phase is Configured,
        before.phase is Configured ==> !arm_timer,
{
    if request.message_type == "init"@ {
        assert(handshake_post::<BroadcastActor>(before, request, after, responses));
        if after != before {
            let (node_id, node_ids) = init_arguments(request.body)->0;
            assert(introduced::<BroadcastActor>(before, request, node_id, node_ids, after, responses));
            let outcome = choose|outcome: Result<(), Error>| #[trigger]
                BroadcastActor::init_post(before, node_id, node_ids, after, outcome);
            assert(init_post(before, node_id, node_ids, after, outcome));
        }
    } else if before.phase is Unidentified {
    } else {
        assert(delivered::<BroadcastActor>(before, request, after, responses));
        let outcome = choose|outcome: Result<Seq<ResponseView>, Error>| #[trigger]
            BroadcastActor::receive_post(before, request, after, outcome);
        receive_only_moves_forward(before, request, after, outcome);
    }
}

/// A tick changes nothing, and only a configured node sends anything on it:
/// at most two messages.
pub proof fn tick_changes_nothing(
    before: ActorView,
    after: ActorView,
    responses: Seq<ResponseView>,
)
    requires
        ticked::<BroadcastActor>(before, after, responses),
    ensures
        after == before,
        follows(before, after),
        !(before.phase is Configured) ==> responses.len() == 0,
        responses.len() <= 2,
{
    let outcome = choose|outcome: Result<Seq<ResponseView>, Error>| #[trigger]
        BroadcastActor::tick_post(before, after, outcome);
    assert(tick_post(before, after, outcome));
    if before.phase is Configured {
        let (neighbour, peer) = choose|neighbour: Option<int>, peer: Option<int>| #[trigger]
            round_post(before, neighbour, peer, responses);
        assert(round_targets(before, neighbour, peer).len() <= 2);
    }
}

/// Whatever event a node handles, its new state follows its old one, and the
/// timer is asked for only where the event made the node configured.
pub proof fn event_only_moves_forward(
    before: ActorView,
    event: Event,
    after: ActorView,
    responses: Seq<ResponseView>,
    arm_timer: bool,
)
    requires
        event_post::<BroadcastActor>(before, event, after, responses, arm_timer),
    ensures
        follows(before, after),
        arm_timer ==> !(before.phase is Configured) && after.phase is Configured,
{
    match event {
        Event::InboundMessage(request) => {
            message_only_moves_forward(before, request@, after, responses, arm_timer);
        },
        Event::TimerTick => {
            tick_changes_nothing(before, after, responses);
        },
    }
}

/// A run of a node: the states it goes through while it handles `events` one
/// after the other, with what it sends and whether it asks for the timer after
/// each.
pub open spec fn is_run(
    states: Seq<ActorView>,
    events: Seq<Event>,
    responses: Seq<Seq<ResponseView>>,
    arms: Seq<bool>,
) -> bool {
    &&& states.len() == events.len() + 1
    &&& responses.len() == events.len()
    &&& arms.len() == events.len()
    &&& forall|i: int|
        0 <= i < events.len() ==> #[trigger] event_post::<BroadcastActor>(
            states[i],
            events[i],
            states[i + 1],
            responses[i],
            arms[i],
        )
}

/// Along a run every later state follows every earlier one: the set of
/// messages only grows, the node does not go back a phase, and it stays who
/// it is.
pub proof fn a_run_only_moves_forward(
    states: Seq<ActorView>,
    events: Seq<Event>,
    responses: Seq<Seq<ResponseView>>,
    arms: Seq<bool>,
    earlier: int,
    later: int,
)
    requires
        is_run(states, events, responses, arms),
        0 <= earlier <= later < states.len(),
    ensures
        follows(states[earlier], states[later]),
    decreases later - earlier,
{
    if earlier < later {
        a_run_only_moves_forward(states, events, responses, arms, earlier, later - 1);
        assert(event_post::<BroadcastActor>(
            states[later - 1],
            events[later - 1],
            states[later - 1 + 1],
            responses[later - 1],
            arms[later - 1],
        ));
        event_only_moves_forward(
            states[later - 1],
            events[later - 1],
            states[later],
            responses[later - 1],
            arms[later - 1],
        );
    }
}

/// Along a run the timer is asked for at most once.
pub proof fn the_timer_is_asked_for_once(
    states: Seq<ActorView>,
    events: Seq<Event>,
    responses: Seq<Seq<ResponseView>>,
    arms: Seq<bool>,
    first: int,
    second: int,
)
    requires
        is_run(states, events, responses, arms),
        0 <= first < second < events.len(),
    ensures
        !(arms[first] && arms[second]),
{
    assert(event_post::<BroadcastActor>(
        states[first],
        events[first],
        states[first + 1],
        responses[first],
        arms[first],
    ));
    assert(event_post::<BroadcastActor>(
        states[second],
        events[second],
        states[second + 1],
        responses[second],
        arms[second],
    ));
    event_only_moves_forward(states[first], events[first], states[first + 1], responses[first], arms[first]);
    event_only_moves_forward(
        states[second],
        events[second],
        states[second + 1],
        responses[second],
        arms[second],
    );
    a_run_only_moves_forward(states, events, responses, arms, first + 1, second);
}

/// A run that starts with a node that has seen nothing goes through well
/// formed states only.
pub proof fn a_run_stays_well_formed(
    states: Seq<ActorView>,
    events: Seq<Event>,
    responses: Seq<Seq<ResponseView>>,
    arms: Seq<bool>,
    at: int,
)
    requires
        is_run(states, events, responses, arms),
        states[0] == ActorView::fresh(),
        0 <= at < states.len(),
    ensures
        states[at].well_formed(),
{
    a_run_only_moves_forward(states, events, responses, arms, 0, at);
}

/// A topology that is taken makes the node configured with neighbours that
/// are all among its peers.
pub proof fn topology_keeps_neighbours_among_peers(
    before: ActorView,
    request: RequestView,
    after: ActorView,
    responses: Seq<ResponseView>,
)
    requires
        topology_post(before, request, after, Ok(responses)),
    ensures
        after.phase is Configured,
        forall|i: int|
            0 <= i < after.neighbours.len() ==> after.peers.contains(#[trigger] after.neighbours[i]),
        topology_neighbours(before, request.body) == Ok::<_, Error>(after.neighbours),
{
}

} // verus!
