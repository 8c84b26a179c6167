//! The broadcast actor: a growing set of integers that a node shares with its
//! cluster by gossip.
//!
//! The actor serves requests only once it has been told who it is; before
//! that it turns every request away.

use crate::actor::{outcome_view, Actor};
use crate::chance::{pick, pick_view, valid_pick};
use crate::error::Error;
use crate::json::{
    array_of_ints, field, get, ints_of, texts_of, view_fields, Fields, FieldsView, Json, JsonView,
};
use crate::message::{replies, reply, Request, RequestView, Response, ResponseView};
use std::collections::HashSet;
use vstd::prelude::*;
use vstd::std_specs::iter::IteratorSpec;

verus! {

broadcast use vstd::std_specs::hash::group_hash_axioms;

/// How far a node has come.
#[derive(Clone, Copy, Debug, PartialEq, Eq, Structural)]
pub enum Phase {
    /// The node does not know its own id yet.
    Unidentified,
    /// The node knows its id and its peers, but no topology.
    Unconfigured,
    /// The node knows its neighbours, and gossips.
    Configured,
}

/// The model of a [`BroadcastActor`].
pub ghost struct ActorView {
    pub phase: Phase,
    pub node_id: Seq<char>,
    pub peers: Seq<Seq<char>>,
    pub neighbours: Seq<Seq<char>>,
    pub messages: Set<i64>,
}

impl ActorView {
    /// What holds of every actor: it has neighbours only once it is configured,
    /// each neighbour is one of its peers, and it holds finitely many messages.
    pub open spec fn well_formed(self) -> bool {
        &&& self.phase is Unidentified ==> self.node_id.len() == 0 && self.peers.len() == 0
        &&& !(self.phase is Configured) ==> self.neighbours.len() == 0
        &&& forall|i: int|
            0 <= i < self.neighbours.len() ==> self.peers.contains(#[trigger] self.neighbours[i])
        &&& self.messages.finite()
    }

    /// An actor that has seen nothing yet.
    pub open spec fn fresh() -> ActorView {
        ActorView {
            phase: Phase::Unidentified,
            node_id: Seq::empty(),
            peers: Seq::empty(),
            neighbours: Seq::empty(),
            messages: Set::empty(),
        }
    }

    /// The actor once it knows who it is and who its peers are.
    pub open spec fn identified(self, node_id: Seq<char>, peers: Seq<Seq<char>>) -> ActorView {
        ActorView { phase: Phase::Unconfigured, node_id, peers, ..self }
    }

    /// The actor once it has been given `neighbours`.
    pub open spec fn configured(self, neighbours: Seq<Seq<char>>) -> ActorView {
        ActorView { phase: Phase::Configured, neighbours, ..self }
    }

    /// The actor once it holds `value` too.
    pub open spec fn with_message(self, value: i64) -> ActorView {
        ActorView { messages: self.messages.insert(value), ..self }
    }

    /// The actor once it holds each of `values` too.
    pub open spec fn with_messages(self, values: Seq<i64>) -> ActorView {
        ActorView { messages: self.messages.union(values.to_set()), ..self }
    }
}

/// `payload` lists `messages`: each of them once, and nothing else.
pub open spec fn is_payload(payload: Seq<i64>, messages: Set<i64>) -> bool {
    payload.no_duplicates() && payload.to_set() == messages
}

/// The body that carries `payload`: its one field, `messages`, is the array of
/// those integers.
pub open spec fn messages_body(payload: Seq<i64>) -> FieldsView {
    seq![("messages"@, array_of_ints(payload))]
}

/// The `gossip` message by which `source` tells `destination` of `payload`.
pub open spec fn gossip_to(
    source: Seq<char>,
    destination: Seq<char>,
    payload: Seq<i64>,
) -> ResponseView {
    ResponseView {
        source,
        destination,
        message_type: "gossip"@,
        message_id: None,
        in_reply_to: None,
        body: messages_body(payload),
    }
}

/// Every item of `list` is one of `known`.
pub open spec fn all_known(list: Seq<Seq<char>>, known: Seq<Seq<char>>) -> bool {
    forall|i: int| 0 <= i < list.len() ==> known.contains(#[trigger] list[i])
}

/// A request is turned away: nothing changes, and the sender is owed word of
/// a protocol error. This is what becomes of every request that reaches an
/// actor before it has been told who it is.
pub open spec fn turned_away(
    before: ActorView,
    after: ActorView,
    outcome: Result<Seq<ResponseView>, Error>,
) -> bool {
    after == before && outcome == Err::<Seq<ResponseView>, _>(Error::Protocol)
}

/// The integer that a `broadcast` body carries.
pub open spec fn broadcast_value(body: FieldsView) -> Result<i64, Error> {
    match field(body, "message"@) {
        None => Err(Error::Protocol),
        Some(value) => match value.as_i64() {
            Some(v) => Ok(v),
            None => Err(Error::MalformedField),
        },
    }
}

/// What `broadcast` does: the value joins the set, and the request is answered
/// with an empty reply if it asks for one. Before the node has been told who
/// it is, the request is turned away.
pub open spec fn broadcast_post(
    before: ActorView,
    request: RequestView,
    after: ActorView,
    outcome: Result<Seq<ResponseView>, Error>,
) -> bool {
    if before.phase is Unidentified {
        turned_away(before, after, outcome)
    } else {
        match broadcast_value(request.body) {
            Ok(value) => after == before.with_message(value) && outcome == Ok::<_, Error>(
                replies(request, Seq::empty()),
            ),
            Err(error) => after == before && outcome == Err::<Seq<ResponseView>, _>(error),
        }
    }
}

/// What `init` does: a node that does not know itself yet learns its id and
/// its peers; one that does is left as it is, and told so.
pub open spec fn init_post(
    before: ActorView,
    node_id: Seq<char>,
    peers: Seq<Seq<char>>,
    after: ActorView,
    outcome: Result<(), Error>,
) -> bool {
    if before.phase is Unidentified {
        after == before.identified(node_id, peers) && outcome is Ok
    } else {
        after == before && outcome == Err::<(), _>(Error::Protocol)
    }
}

/// `responses` answer a read of `messages`: the reply, if `request` asks for
/// one, carries the whole set, each message once, in some order.
pub open spec fn is_reading(
    messages: Set<i64>,
    request: RequestView,
    responses: Seq<ResponseView>,
) -> bool {
    exists|payload: Seq<i64>| #[trigger]
        is_payload(payload, messages) && responses == replies(request, messages_body(payload))
}

/// What `read` does: nothing to the actor; the request is answered, if it asks
/// for a reply, with the whole set, each message once, in some order. Before
/// the node has been told who it is, the request is turned away.
pub open spec fn read_post(
    before: ActorView,
    request: RequestView,
    after: ActorView,
    outcome: Result<Seq<ResponseView>, Error>,
) -> bool {
    if before.phase is Unidentified {
        turned_away(before, after, outcome)
    } else {
        &&& after == before
        &&& outcome matches Ok(responses)
        &&& is_reading(before.messages, request, responses)
    }
}

/// The neighbours that a `topology` body gives to the node in state `state`:
/// the entry under the node's own id in the body's `topology` object, which
/// must be an array of strings that are all among the node's peers.
pub open spec fn topology_neighbours(state: ActorView, body: FieldsView) -> Result<
    Seq<Seq<char>>,
    Error,
> {
    if state.phase is Unidentified {
        Err(Error::Protocol)
    } else {
        match field(body, "topology"@) {
            Some(JsonView::Object(table)) => match field(table, state.node_id) {
                Some(JsonView::Array(items)) => match texts_of(items) {
                    Some(list) => if all_known(list, state.peers) {
                        Ok(list)
                    } else {
                        Err(Error::BadTopology)
                    },
                    None => Err(Error::BadTopology),
                },
                _ => Err(Error::BadTopology),
            },
            _ => Err(Error::BadTopology),
        }
    }
}

/// What `topology` does: the node takes the neighbours it is given and is
/// configured from then on, and the request is answered with an empty reply if
/// it asks for one. Where the body gives the node no usable list, nothing
/// changes. Before the node has been told who it is, the request is turned
/// away.
pub open spec fn topology_post(
    before: ActorView,
    request: RequestView,
    after: ActorView,
    outcome: Result<Seq<ResponseView>, Error>,
) -> bool {
    match topology_neighbours(before, request.body) {
        Ok(list) => after == before.configured(list) && outcome == Ok::<_, Error>(
            replies(request, Seq::empty()),
        ),
        Err(error) => after == before && outcome == Err::<Seq<ResponseView>, _>(error),
    }
}

/// The integers that a `gossip` body carries.
pub open spec fn gossip_values(body: FieldsView) -> Result<Seq<i64>, Error> {
    match field(body, "messages"@) {
        None => Err(Error::Protocol),
        Some(JsonView::Array(items)) => match ints_of(items) {
            Some(values) => Ok(values),
            None => Err(Error::MalformedField),
        },
        Some(_) => Err(Error::MalformedField),
    }
}

/// What `gossip` does: every value of the body joins the set, and nothing is
/// sent back. Where the body is not as it should be, nothing changes. Before
/// the node has been told who it is, the request is turned away.
pub open spec fn gossip_post(
    before: ActorView,
    request: RequestView,
    after: ActorView,
    outcome: Result<Seq<ResponseView>, Error>,
) -> bool {
    if before.phase is Unidentified {
        turned_away(before, after, outcome)
    } else {
        match gossip_values(request.body) {
            Ok(values) => after == before.with_messages(values) && outcome == Ok::<_, Error>(
                Seq::<ResponseView>::empty(),
            ),
            Err(error) => after == before && outcome == Err::<Seq<ResponseView>, _>(error),
        }
    }
}

/// What a message does. Before the node has been told who it is, every
/// request is turned away, whatever its type. After that the type decides.
pub open spec fn receive_post(
    before: ActorView,
    request: RequestView,
    after: ActorView,
    outcome: Result<Seq<ResponseView>, Error>,
) -> bool {
    if before.phase is Unidentified {
        turned_away(before, after, outcome)
    } else if request.message_type == "broadcast"@ {
        broadcast_post(before, request, after, outcome)
    } else if request.message_type == "read"@ {
        read_post(before, request, after, outcome)
    } else if request.message_type == "topology"@ {
        topology_post(before, request, after, outcome)
    } else if request.message_type == "gossip"@ {
        gossip_post(before, request, after, outcome)
    } else {
        after == before && outcome == Err::<Seq<ResponseView>, _>(Error::UnsupportedMessageType)
    }
}

/// `response` is the `gossip` message by which a node in state `state` tells
/// `destination` of its whole set: each message once, in some order.
pub open spec fn is_gossip(
    state: ActorView,
    destination: Seq<char>,
    response: ResponseView,
) -> bool {
    exists|payload: Seq<i64>| #[trigger]
        is_payload(payload, state.messages) && response == gossip_to(
            state.node_id,
            destination,
            payload,
        )
}

/// Whom a gossip round of a node in state `state` writes to, where the draw
/// among its neighbours gave `neighbour` and the draw among its peers gave
/// `peer`: the neighbour first, then the peer.
pub open spec fn round_targets(
    state: ActorView,
    neighbour: Option<int>,
    peer: Option<int>,
) -> Seq<Seq<char>> {
    (match neighbour {
        Some(i) => seq![state.neighbours[i]],
        None => Seq::empty(),
    }) + (match peer {
        Some(j) => seq![state.peers[j]],
        None => Seq::empty(),
    })
}

/// `responses` are the messages of one gossip round of a node in state
/// `state` for the two draws: one `gossip` message to each target, in order.
pub open spec fn round_post(
    state: ActorView,
    neighbour: Option<int>,
    peer: Option<int>,
    responses: Seq<ResponseView>,
) -> bool {
    let targets = round_targets(state, neighbour, peer);
    &&& responses.len() == targets.len()
    &&& forall|k: int|
        0 <= k < responses.len() ==> is_gossip(state, targets[k], #[trigger] responses[k])
}

/// `responses` are the messages of one gossip round of a node in state
/// `state`, for some draw among its neighbours and some draw among its peers.
pub open spec fn is_round(state: ActorView, responses: Seq<ResponseView>) -> bool {
    exists|neighbour: Option<int>, peer: Option<int>|
        {
            &&& valid_pick(neighbour, state.neighbours.len())
            &&& valid_pick(peer, state.peers.len())
            &&& #[trigger] round_post(state, neighbour, peer, responses)
        }
}

/// What a tick does: nothing to the actor. A configured node sends one round of
/// gossip; any other node sends nothing.
pub open spec fn tick_post(
    before: ActorView,
    after: ActorView,
    outcome: Result<Seq<ResponseView>, Error>,
) -> bool {
    &&& after == before
    &&& outcome matches Ok(responses)
    &&& if before.phase is Configured {
        is_round(before, responses)
    } else {
        responses.len() == 0
    }
}

/// Whether `text` is one of `list`.
pub fn contains_text(list: &Vec<String>, text: &String) -> (r: bool)
    ensures
        r == list.deep_view().contains(text@),
{
    let mut i: usize = 0;
    while i < list.len()
        invariant
            i <= list.len(),
            forall|j: int| 0 <= j < i ==> list.deep_view()[j] != text@,
        decreases list.len() - i,
    {
        if list[i] == *text {
            assert(list.deep_view()[i as int] == text@);
            return true;
        }
        i += 1;
    }
    false
}

/// Whether every item of `list` is one of `known`.
pub fn all_among(list: &Vec<String>, known: &Vec<String>) -> (r: bool)
    ensures
        r == all_known(list.deep_view(), known.deep_view()),
{
    let mut i: usize = 0;
    while i < list.len()
        invariant
            i <= list.len(),
            forall|j: int| 0 <= j < i ==> known.deep_view().contains(#[trigger] list.deep_view()[j]),
        decreases list.len() - i,
    {
        if !contains_text(known, &list[i]) {
            assert(!known.deep_view().contains(list.deep_view()[i as int]));
            return false;
        }
        i += 1;
    }
    true
}

/// A node's part in the broadcast protocol.
pub struct BroadcastActor {
    phase: Phase,
    node_id: String,
    node_ids: Vec<String>,
    neighbours: Vec<String>,
    messages: HashSet<i64>,
}

impl View for BroadcastActor {
    type V = ActorView;

    closed spec fn view(&self) -> ActorView {
        ActorView {
            phase: self.phase,
            node_id: self.node_id@,
            peers: self.node_ids.deep_view(),
            neighbours: self.neighbours.deep_view(),
            messages: self.messages@,
        }
    }
}

impl BroadcastActor {
    /// An actor that has seen nothing yet.
    pub fn new() -> (r: BroadcastActor)
        ensures
            r@ == ActorView::fresh(),
            r@.well_formed(),
    {
        let r = BroadcastActor {
            phase: Phase::Unidentified,
            node_id: String::new(),
            node_ids: Vec::new(),
            neighbours: Vec::new(),
            messages: HashSet::new(),
        };
        assert(r@.peers =~= Seq::empty());
        assert(r@.neighbours =~= Seq::empty());
        r
    }

    /// How far the node has come.
    pub fn phase(&self) -> (r: Phase)
        ensures
            r == self@.phase,
    {
        self.phase
    }

    /// The id of the node; empty as long as the node has not been told.
    pub fn node_id(&self) -> (r: &String)
        ensures
            r@ == self@.node_id,
    {
        &self.node_id
    }

    /// The ids of all nodes of the cluster.
    pub fn node_ids(&self) -> (r: &Vec<String>)
        ensures
            r.deep_view() == self@.peers,
    {
        &self.node_ids
    }

    /// The ids of the nodes that this one gossips to by the topology.
    pub fn neighbours(&self) -> (r: &Vec<String>)
        ensures
            r.deep_view() == self@.neighbours,
    {
        &self.neighbours
    }

    /// Whether the node holds `value`.
    pub fn contains(&self, value: i64) -> (r: bool)
        ensures
            r == self@.messages.contains(value),
    {
        self.messages.contains(&value)
    }

    /// How many messages the node holds.
    pub fn len(&self) -> (r: usize)
        ensures
            r == self@.messages.len(),
    {
        self.messages.len()
    }

    /// The messages that the node holds: each once, in no particular order.
    pub fn messages(&self) -> (r: Vec<i64>)
        ensures
            is_payload(r@, self@.messages),
    {
        let ghost keys = vstd::std_specs::hash::spec_hash_keys_iter(&self.messages).remaining();
        let mut values: Vec<i64> = Vec::new();
        for value in iter: self.messages.iter()
            invariant
                iter.seq() == keys,
                values@.len() == iter.index(),
                forall|j: int| 0 <= j < values@.len() ==> values@[j] == *keys[j],
        {
            values.push(*value);
        }
        assert(values@ =~= keys.unref());
        values
    }

    /// Handles a `broadcast` message.
    pub fn handle_broadcast(&mut self, request: &Request) -> (r: Result<Vec<Response>, Error>)
        ensures
            broadcast_post(old(self)@, request@, final(self)@, outcome_view(r)),
            old(self)@.well_formed() ==> final(self)@.well_formed(),
    {
        if let Phase::Unidentified = self.phase {
            return Err(Error::Protocol);
        }
        let value = match get(&request.body, "message") {
            None => {
                return Err(Error::Protocol);
            },
            Some(value) => match value.as_i64() {
                None => {
                    return Err(Error::MalformedField);
                },
                Some(v) => v,
            },
        };
        self.messages.insert(value);
        assert(self.messages@ == old(self).messages@.insert(value));
        assert(self@ == old(self)@.with_message(value));
        let body: Fields = Vec::new();
        assert(view_fields(body@) =~= Seq::empty());
        Ok(reply(request, body))
    }

    /// Handles a `read` message.
    pub fn handle_read(&self, request: &Request) -> (r: Result<Vec<Response>, Error>)
        ensures
            read_post(self@, request@, self@, outcome_view(r)),
    {
        if let Phase::Unidentified = self.phase {
            return Err(Error::Protocol);
        }
        let payload = self.messages();
        let mut body: Fields = Vec::new();
        body.push(("messages".to_owned(), Json::from_ints(&payload)));
        assert(view_fields(body@) =~= messages_body(payload@));
        let responses = reply(request, body);
        assert(is_payload(payload@, self@.messages));
        Ok(responses)
    }

    /// Handles a `topology` message.
    pub fn handle_topology(&mut self, request: &Request) -> (r: Result<Vec<Response>, Error>)
        ensures
            topology_post(old(self)@, request@, final(self)@, outcome_view(r)),
            old(self)@.well_formed() ==> final(self)@.well_formed(),
    {
        if let Phase::Unidentified = self.phase {
            return Err(Error::Protocol);
        }
        let table = match get(&request.body, "topology") {
            Some(value) => match value.as_object() {
                Some(table) => table,
                None => {
                    return Err(Error::BadTopology);
                },
            },
            None => {
                return Err(Error::BadTopology);
            },
        };
        let entry = match get(table, self.node_id.as_str()) {
            Some(entry) => entry,
            None => {
                return Err(Error::BadTopology);
            },
        };
        let list = match entry.as_texts() {
            Some(list) => list,
            None => {
                return Err(Error::BadTopology);
            },
        };
        if !all_among(&list, &self.node_ids) {
            return Err(Error::BadTopology);
        }
        self.phase = Phase::Configured;
        self.neighbours = list;
        let body: Fields = Vec::new();
        assert(view_fields(body@) =~= Seq::empty());
        Ok(reply(request, body))
    }

    /// Handles a `gossip` message.
    pub fn handle_gossip(&mut self, request: &Request) -> (r: Result<Vec<Response>, Error>)
        ensures
            gossip_post(old(self)@, request@, final(self)@, outcome_view(r)),
            old(self)@.well_formed() ==> final(self)@.well_formed(),
    {
        if let Phase::Unidentified = self.phase {
            return Err(Error::Protocol);
        }
        let values = match get(&request.body, "messages") {
            None => {
                return Err(Error::Protocol);
            },
            Some(value) => match value.as_ints() {
                Some(values) => values,
                None => {
                    return Err(Error::MalformedField);
                },
            },
        };
        assert(values.deep_view() =~= values@);
        let mut i: usize = 0;
        while i < values.len()
            invariant
                i <= values.len(),
                gossip_values(request@.body) == Ok::<_, Error>(values@),
                !(old(self).phase is Unidentified),
                self.phase == old(self).phase,
                self.node_id == old(self).node_id,
                self.node_ids == old(self).node_ids,
                self.neighbours == old(self).neighbours,
                self.messages@ == old(self).messages@.union(values@.take(i as int).to_set()),
            decreases values.len() - i,
        {
            self.messages.insert(values[i]);
            proof {
                assert(values@.take(i + 1) =~= values@.take(i as int).push(values@[i as int]));
                values@.take(i as int).lemma_push_to_set_commute(values@[i as int]);
            }
            i += 1;
        }
        assert(values@.take(values@.len() as int) =~= values@);
        let responses: Vec<Response> = Vec::new();
        assert(responses.deep_view() =~= Seq::empty());
        Ok(responses)
    }

    /// The messages of one gossip round, for the two draws given.
    pub fn gossip_round(&self, neighbour: Option<usize>, peer: Option<usize>) -> (r: Vec<Response>)
        requires
            neighbour matches Some(i) ==> i < self@.neighbours.len(),
            peer matches Some(j) ==> j < self@.peers.len(),
        ensures
            round_post(self@, pick_view(neighbour), pick_view(peer), r.deep_view()),
    {
        let mut responses: Vec<Response> = Vec::new();
        if let Some(i) = neighbour {
            self.send_to_node(self.neighbours[i].as_str(), &mut responses);
        }
        if let Some(j) = peer {
            self.send_to_node(self.node_ids[j].as_str(), &mut responses);
        }
        proof {
            let targets = round_targets(self@, pick_view(neighbour), pick_view(peer));
            assert(responses.deep_view().len() == targets.len());
            assert forall|k: int| 0 <= k < responses.deep_view().len() implies is_gossip(
                self@,
                targets[k],
                #[trigger] responses.deep_view()[k],
            ) by {}
        }
        responses
    }

    /// Adds to `responses` the `gossip` message that tells `dest` of the whole set.
    pub fn send_to_node(&self, dest: &str, responses: &mut Vec<Response>)
        ensures
            final(responses).deep_view().drop_last() == old(responses).deep_view(),
            final(responses).deep_view().len() == old(responses).deep_view().len() + 1,
            is_gossip(self@, dest@, final(responses).deep_view().last()),
    {
        let payload = self.messages();
        let mut body: Fields = Vec::new();
        body.push(("messages".to_owned(), Json::from_ints(&payload)));
        assert(view_fields(body@) =~= messages_body(payload@));
        let message = Response {
            source: self.node_id.clone(),
            destination: dest.to_owned(),
            message_type: "gossip".to_owned(),
            message_id: None,
            in_reply_to: None,
            body,
        };
        assert(message@ == gossip_to(self@.node_id, dest@, payload@));
        responses.push(message);
        assert(responses.deep_view().drop_last() =~= old(responses).deep_view());
        assert(is_payload(payload@, self@.messages));
    }
}

impl Actor for BroadcastActor {
    type Model = ActorView;

    open spec fn model(&self) -> ActorView {
        self@
    }

    open spec fn identified(state: ActorView) -> bool {
        !(state.phase is Unidentified)
    }

    open spec fn ticking(state: ActorView) -> bool {
        state.phase is Configured
    }

    open spec fn init_post(
        before: ActorView,
        node_id: Seq<char>,
        node_ids: Seq<Seq<char>>,
        after: ActorView,
        outcome: Result<(), Error>,
    ) -> bool {
        init_post(before, node_id, node_ids, after, outcome)
    }

    open spec fn receive_post(
        before: ActorView,
        request: RequestView,
        after: ActorView,
        outcome: Result<Seq<ResponseView>, Error>,
    ) -> bool {
        receive_post(before, request, after, outcome)
    }

    open spec fn tick_post(
        before: ActorView,
        after: ActorView,
        outcome: Result<Seq<ResponseView>, Error>,
    ) -> bool {
        tick_post(before, after, outcome)
    }

    fn is_identified(&self) -> (r: bool) {
        match self.phase {
            Phase::Unidentified => false,
            _ => true,
        }
    }

    fn is_ticking(&self) -> (r: bool) {
        match self.phase {
            Phase::Configured => true,
            _ => false,
        }
    }

    /// Tells the node its own id and the ids of all nodes of the cluster.
    fn init(&mut self, node_id: &str, node_ids: Vec<String>) -> (r: Result<(), Error>)
        ensures
            old(self)@.well_formed() ==> final(self)@.well_formed(),
    {
        match self.phase {
            Phase::Unidentified => {
                self.phase = Phase::Unconfigured;
                self.node_id = node_id.to_owned();
                self.node_ids = node_ids;
                Ok(())
            },
            _ => Err(Error::Protocol),
        }
    }

    /// Handles one message, by its type.
    fn receive(&mut self, request: &Request) -> (r: Result<Vec<Response>, Error>)
        ensures
            old(self)@.well_formed() ==> final(self)@.well_formed(),
    {
        if let Phase::Unidentified = self.phase {
            return Err(Error::Protocol);
        }
        if request.is("broadcast") {
            self.handle_broadcast(request)
        } else if request.is("read") {
            self.handle_read(request)
        } else if request.is("topology") {
            self.handle_topology(request)
        } else if request.is("gossip") {
            self.handle_gossip(request)
        } else {
            Err(Error::UnsupportedMessageType)
        }
    }

    /// Runs one gossip round, as a timer tick asks for.
    fn gossip(&mut self) -> (r: Result<Vec<Response>, Error>)
    {
        match self.phase {
            Phase::Configured => {
                let neighbour = pick(self.neighbours.len());
                let peer = pick(self.node_ids.len());
                let responses = self.gossip_round(neighbour, peer);
                proof {
                    let n = pick_view(neighbour);
                    let p = pick_view(peer);
                    let sent = responses.deep_view();
                    assert(valid_pick(n, self@.neighbours.len()));
                    assert(valid_pick(p, self@.peers.len()));
                    assert(round_post(self@, n, p, sent));
                    assert(is_round(self@, sent));
                }
                Ok(responses)
            },
            _ => {
                let responses: Vec<Response> = Vec::new();
                assert(responses.deep_view().len() == 0);
                Ok(responses)
            },
        }
    }
}

} // verus!
