//! The node runtime: one consumer that takes events in the order they
//! arrive, hands them to the actor, and says what to send.
//!
//! The runtime does no reading, writing or waiting of its own. Whoever drives
//! it reads lines and keeps the timer; the runtime decides.

use crate::actor::{outcome_view, Actor};
use crate::envelope::{correlate, correlated, decode, decoded, encode, encoded};
use crate::error::Error;
use crate::json::{field, get, texts_of, view_fields, Fields, FieldsView, JsonView};
use crate::message::{
    error_replies, replies, reply, reply_error, Request, RequestView, Response, ResponseView,
};
use crate::wire::{parse, parsed, render, written};
use vstd::prelude::*;

verus! {

/// What the runtime is handed, one at a time.
#[derive(Debug, PartialEq, Eq)]
pub enum Event {
    /// A message came in.
    InboundMessage(Request),
    /// The timer fired.
    TimerTick,
}

/// Whether the handshake has been done.
#[derive(Clone, Copy, Debug, PartialEq, Eq, Structural)]
pub enum RuntimeState {
    Uninitialized,
    Initialized,
}

/// What the runtime asks for after one event.
#[derive(Debug, PartialEq, Eq)]
pub struct Outcome {
    /// The messages to send, in order.
    pub responses: Vec<Response>,
    /// Whether to start the timer now.
    pub arm_timer: bool,
}

/// What the runtime asks for after one line of input.
#[derive(Debug, PartialEq, Eq)]
pub struct Output {
    /// The lines to write, in order.
    pub lines: Vec<String>,
    /// Whether to start the timer now.
    pub arm_timer: bool,
}

/// The id and the peers that an `init` body names, where it names both: a
/// string as `node_id` and an array of strings as `node_ids`.
pub open spec fn init_arguments(body: FieldsView) -> Option<(Seq<char>, Seq<Seq<char>>)> {
    match (field(body, "node_id"@), field(body, "node_ids"@)) {
        (Some(JsonView::Text(node_id)), Some(JsonView::Array(items))) => match texts_of(items) {
            Some(node_ids) => Some((node_id, node_ids)),
            None => None,
        },
        _ => None,
    }
}

/// What is sent for `request` once the actor is done with it: what the actor
/// hands back, or word of its failure.
pub open spec fn answers(
    request: RequestView,
    outcome: Result<Seq<ResponseView>, Error>,
) -> Seq<ResponseView> {
    match outcome {
        Ok(responses) => responses,
        Err(error) => error_replies(request, error),
    }
}

/// What is sent for the `init` message `request` once the actor has been
/// told: `init_ok`, or word of the actor's failure.
pub open spec fn welcome(request: RequestView, outcome: Result<(), Error>) -> Seq<ResponseView> {
    match outcome {
        Ok(_) => replies(request, Seq::empty()),
        Err(error) => error_replies(request, error),
    }
}

/// An actor in state `before` that is told `node_id` and `node_ids` may end in
/// state `after`, with `responses` sent for the `init` message `request`.
pub open spec fn introduced<A: Actor>(
    before: A::Model,
    request: RequestView,
    node_id: Seq<char>,
    node_ids: Seq<Seq<char>>,
    after: A::Model,
    responses: Seq<ResponseView>,
) -> bool {
    exists|outcome: Result<(), Error>| #[trigger]
        A::init_post(before, node_id, node_ids, after, outcome) && responses == welcome(
            request,
            outcome,
        )
}

/// What an `init` message does: a node that has not been told who it is, and
/// is told properly, hands its id and its peers to the actor and answers
/// `init_ok`. Any other `init` changes nothing and is answered with a protocol
/// error: a node is told once who it is.
pub open spec fn handshake_post<A: Actor>(
    before: A::Model,
    request: RequestView,
    after: A::Model,
    responses: Seq<ResponseView>,
) -> bool {
    match init_arguments(request.body) {
        Some((node_id, node_ids)) if !A::identified(before) => introduced::<A>(
            before,
            request,
            node_id,
            node_ids,
            after,
            responses,
        ),
        _ => after == before && responses == error_replies(request, Error::Protocol),
    }
}

/// An actor in state `before` that handles `request` may end in state `after`,
/// with `responses` sent.
pub open spec fn delivered<A: Actor>(
    before: A::Model,
    request: RequestView,
    after: A::Model,
    responses: Seq<ResponseView>,
) -> bool {
    exists|outcome: Result<Seq<ResponseView>, Error>| #[trigger]
        A::receive_post(before, request, after, outcome) && responses == answers(request, outcome)
}

/// What a message does to a node.
///
/// `init` is the handshake. Before the handshake every other message is
/// turned away with a protocol error. After it the actor handles the message,
/// and a failure of the actor is told to the sender. The timer is to be
/// started when, and only when, the message made the actor want it.
pub open spec fn message_post<A: Actor>(
    before: A::Model,
    request: RequestView,
    after: A::Model,
    responses: Seq<ResponseView>,
    arm_timer: bool,
) -> bool {
    if request.message_type == "init"@ {
        handshake_post::<A>(before, request, after, responses) && !arm_timer
    } else if !A::identified(before) {
        after == before && responses == error_replies(request, Error::Protocol) && !arm_timer
    } else {
        &&& delivered::<A>(before, request, after, responses)
        &&& arm_timer == (!A::ticking(before) && A::ticking(after))
    }
}

/// What is sent after a tick: what the actor hands back. A failure of the
/// actor has no sender to be told to, and nothing is sent for it.
pub open spec fn tick_answers(outcome: Result<Seq<ResponseView>, Error>) -> Seq<ResponseView> {
    match outcome {
        Ok(responses) => responses,
        Err(_) => Seq::empty(),
    }
}

/// An actor in state `before` that handles a tick may end in state `after`,
/// with `responses` sent.
pub open spec fn ticked<A: Actor>(
    before: A::Model,
    after: A::Model,
    responses: Seq<ResponseView>,
) -> bool {
    exists|outcome: Result<Seq<ResponseView>, Error>| #[trigger]
        A::tick_post(before, after, outcome) && responses == tick_answers(outcome)
}

/// What an event does to a node.
pub open spec fn event_post<A: Actor>(
    before: A::Model,
    event: Event,
    after: A::Model,
    responses: Seq<ResponseView>,
    arm_timer: bool,
) -> bool {
    match event {
        Event::InboundMessage(request) => message_post::<A>(
            before,
            request@,
            after,
            responses,
            arm_timer,
        ),
        Event::TimerTick => ticked::<A>(before, after, responses) && !arm_timer,
    }
}

/// The lines that carry `responses`: one for each, in order, but for those
/// that have no text.
pub open spec fn lines_of(responses: Seq<ResponseView>) -> Seq<Seq<char>>
    decreases responses.len(),
{
    if responses.len() == 0 {
        Seq::empty()
    } else {
        let before = lines_of(responses.drop_last());
        match written(encoded(responses.last())) {
            Some(line) => before.push(line),
            None => before,
        }
    }
}

/// What a line of input holds: a request, or else what to send back for a
/// line that holds none. The sender of such a line is told of a protocol
/// error where the line says who sent it and under which id; where it does
/// not, or where the line is no JSON at all, nothing is sent.
pub open spec fn line_event(line: Seq<char>) -> Result<RequestView, Seq<ResponseView>> {
    match parsed(line) {
        Some(json) => match decoded(json) {
            Ok(request) => Ok(request),
            Err(error) => Err(
                match correlated(json) {
                    Some(request) => error_replies(request, error),
                    None => Seq::empty(),
                },
            ),
        },
        None => Err(Seq::empty()),
    }
}

/// What a line of input does to a node.
///
/// A line that holds a request does what the request does, and the responses
/// go out as lines. A line that holds no request changes nothing, and what is
/// sent back for it goes out as lines.
pub open spec fn line_post<A: Actor>(
    before: A::Model,
    line: Seq<char>,
    after: A::Model,
    lines: Seq<Seq<char>>,
    arm_timer: bool,
) -> bool {
    match line_event(line) {
        Ok(request) => exists|responses: Seq<ResponseView>| #[trigger]
            message_post::<A>(before, request, after, responses, arm_timer) && lines == lines_of(
                responses,
            ),
        Err(responses) => after == before && !arm_timer && lines == lines_of(responses),
    }
}

/// What a tick does to a node, as lines.
pub open spec fn tick_lines_post<A: Actor>(
    before: A::Model,
    after: A::Model,
    lines: Seq<Seq<char>>,
) -> bool {
    exists|responses: Seq<ResponseView>| #[trigger]
        ticked::<A>(before, after, responses) && lines == lines_of(responses)
}

/// Reads the event that a line of input holds; where it holds none, hands
/// back what to send for it.
pub fn read_event(line: &str) -> (r: Result<Event, Vec<Response>>)
    ensures
        match line_event(line@) {
            Ok(request) => r matches Ok(Event::InboundMessage(read)) && read@ == request,
            Err(responses) => r matches Err(sent) && sent.deep_view() == responses,
        },
{
    let json = match parse(line) {
        Ok(json) => json,
        Err(_) => {
            let nothing: Vec<Response> = Vec::new();
            assert(nothing.deep_view() =~= Seq::empty());
            return Err(nothing);
        },
    };
    match decode(&json) {
        Ok(request) => Ok(Event::InboundMessage(request)),
        Err(error) => {
            let responses = match correlate(&json) {
                Some(request) => reply_error(&request, error),
                None => Vec::new(),
            };
            assert(correlated(json@) is None ==> responses.deep_view() =~= Seq::empty());
            Err(responses)
        },
    }
}

/// Writes each response as a line of JSON text.
pub fn render_all(responses: &Vec<Response>) -> (r: Vec<String>)
    ensures
        r.deep_view() == lines_of(responses.deep_view()),
{
    let mut lines: Vec<String> = Vec::new();
    let ghost all = responses.deep_view();
    let mut i: usize = 0;
    assert(lines.deep_view() =~= lines_of(all.take(0)));
    while i < responses.len()
        invariant
            i <= responses.len(),
            all == responses.deep_view(),
            lines.deep_view() == lines_of(all.take(i as int)),
        decreases responses.len() - i,
    {
        proof {
            assert(all.take(i + 1).drop_last() =~= all.take(i as int));
            assert(all.take(i + 1).last() == responses@[i as int]@);
        }
        let ghost before = lines.deep_view();
        match render(&encode(&responses[i])) {
            Some(line) => {
                lines.push(line);
                assert(lines.deep_view() =~= before.push(line@));
            },
            None => {},
        }
        i += 1;
    }
    assert(all.take(i as int) =~= all);
    lines
}

/// A node: the runtime around one actor.
pub struct Node<A: Actor> {
    actor: A,
}

impl<A: Actor> View for Node<A> {
    type V = A::Model;

    closed spec fn view(&self) -> A::Model {
        self.actor.model()
    }
}

impl<A: Actor> Node<A> {
    /// A node around `actor`.
    pub fn new(actor: A) -> (r: Node<A>)
        ensures
            r@ == actor.model(),
    {
        Node { actor }
    }

    /// The actor of the node.
    pub fn actor(&self) -> (r: &A)
        ensures
            r.model() == self@,
    {
        &self.actor
    }

    /// Whether the handshake has been done.
    pub fn state(&self) -> (r: RuntimeState)
        ensures
            r is Initialized <==> A::identified(self@),
    {
        if self.actor.is_identified() {
            RuntimeState::Initialized
        } else {
            RuntimeState::Uninitialized
        }
    }

    /// Handles one event.
    pub fn handle(&mut self, event: &Event) -> (r: Outcome)
        ensures
            event_post::<A>(old(self)@, *event, final(self)@, r.responses.deep_view(), r.arm_timer),
    {
        match event {
            Event::InboundMessage(request) => self.receive(request),
            Event::TimerTick => self.tick(),
        }
    }

    /// Handles a timer tick.
    pub fn tick(&mut self) -> (r: Outcome)
        ensures
            ticked::<A>(old(self)@, final(self)@, r.responses.deep_view()),
            !r.arm_timer,
    {
        let outcome = self.actor.gossip();
        let ghost seen = outcome_view(outcome);
        let responses = match outcome {
            Ok(responses) => responses,
            Err(_) => Vec::new(),
        };
        proof {
            assert(A::tick_post(old(self)@, self@, seen));
            assert(responses.deep_view() =~= tick_answers(seen));
        }
        Outcome { responses, arm_timer: false }
    }

    /// Handles the `init` message.
    fn handshake(&mut self, request: &Request) -> (r: Vec<Response>)
        ensures
            handshake_post::<A>(old(self)@, request@, final(self)@, r.deep_view()),
    {
        if self.actor.is_identified() {
            return reply_error(request, Error::Protocol);
        }
        let node_id = match get(&request.body, "node_id") {
            Some(value) => match value.as_text() {
                Some(node_id) => node_id,
                None => {
                    return reply_error(request, Error::Protocol);
                },
            },
            None => {
                return reply_error(request, Error::Protocol);
            },
        };
        let node_ids = match get(&request.body, "node_ids") {
            Some(value) => match value.as_texts() {
                Some(node_ids) => node_ids,
                None => {
                    return reply_error(request, Error::Protocol);
                },
            },
            None => {
                return reply_error(request, Error::Protocol);
            },
        };
        let ghost peers = node_ids.deep_view();
        let outcome = self.actor.init(node_id.as_str(), node_ids);
        let responses = match outcome {
            Ok(()) => {
                let body: Fields = Vec::new();
                assert(view_fields(body@) =~= Seq::empty());
                reply(request, body)
            },
            Err(error) => reply_error(request, error),
        };
        proof {
            assert(A::init_post(old(self)@, node_id@, peers, self@, outcome));
            assert(responses.deep_view() == welcome(request@, outcome));
            assert(introduced::<A>(old(self)@, request@, node_id@, peers, self@, responses.deep_view()));
        }
        responses
    }

    /// Handles one message.
    pub fn receive(&mut self, request: &Request) -> (r: Outcome)
        ensures
            message_post::<A>(old(self)@, request@, final(self)@, r.responses.deep_view(), r.arm_timer),
    {
        if request.is("init") {
            let responses = self.handshake(request);
            return Outcome { responses, arm_timer: false };
        }
        if !self.actor.is_identified() {
            return Outcome { responses: reply_error(request, Error::Protocol), arm_timer: false };
        }
        let ticking = self.actor.is_ticking();
        let outcome = self.actor.receive(request);
        let ghost seen = outcome_view(outcome);
        let responses = match outcome {
            Ok(responses) => responses,
            Err(error) => reply_error(request, error),
        };
        let arm_timer = !ticking && self.actor.is_ticking();
        proof {
            assert(A::receive_post(old(self)@, request@, self@, seen));
            assert(responses.deep_view() == answers(request@, seen));
            assert(delivered::<A>(old(self)@, request@, self@, responses.deep_view()));
        }
        Outcome { responses, arm_timer }
    }

    /// Handles one line of input.
    pub fn handle_line(&mut self, line: &str) -> (r: Output)
        ensures
            line_post::<A>(old(self)@, line@, final(self)@, r.lines.deep_view(), r.arm_timer),
    {
        match read_event(line) {
            Ok(event) => {
                let outcome = self.handle(&event);
                Output { lines: render_all(&outcome.responses), arm_timer: outcome.arm_timer }
            },
            Err(responses) => Output { lines: render_all(&responses), arm_timer: false },
        }
    }

    /// Handles a timer tick, and hands back lines.
    pub fn tick_lines(&mut self) -> (r: Output)
        ensures
            tick_lines_post::<A>(old(self)@, final(self)@, r.lines.deep_view()),
            !r.arm_timer,
    {
        let outcome = self.tick();
        Output { lines: render_all(&outcome.responses), arm_timer: false }
    }
}

} // verus!
