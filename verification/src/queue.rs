//! The event queue: what waits between those who produce events and the one
//! runtime that consumes them.
//!
//! Events leave in the order in which they came. The queue is bounded on the
//! side of the timer: a tick that finds the queue full takes the place of the
//! oldest tick that waits, and is dropped where none waits. A message is never
//! dropped.

use crate::message::Request;
use crate::runtime::Event;
use std::collections::VecDeque;
use vstd::prelude::*;

verus! {

/// The model of an [`EventQueue`].
pub ghost struct QueueView {
    /// The events that wait, the oldest first.
    pub events: Seq<Event>,
    /// How many events may wait before ticks give way.
    pub limit: nat,
    /// Whether the queue has been closed.
    pub closed: bool,
}

/// The messages among `events`, in order.
pub open spec fn messages_of(events: Seq<Event>) -> Seq<Request>
    decreases events.len(),
{
    if events.len() == 0 {
        Seq::empty()
    } else {
        match events.last() {
            Event::InboundMessage(request) => messages_of(events.drop_last()).push(request),
            Event::TimerTick => messages_of(events.drop_last()),
        }
    }
}

/// Event `i` is the oldest tick among `events`.
pub open spec fn oldest_tick_at(events: Seq<Event>, i: int) -> bool {
    &&& 0 <= i < events.len()
    &&& events[i] is TimerTick
    &&& forall|j: int| 0 <= j < i ==> !((#[trigger] events[j]) is TimerTick)
}

/// A tick waits among `events`.
pub open spec fn has_tick(events: Seq<Event>) -> bool {
    exists|i: int| oldest_tick_at(events, i)
}

impl QueueView {
    /// The queue after a message has been handed to it: the message waits
    /// last, unless the queue is closed.
    pub open spec fn with_message(self, request: Request) -> QueueView {
        if self.closed {
            self
        } else {
            QueueView { events: self.events.push(Event::InboundMessage(request)), ..self }
        }
    }

    /// The queue after a tick has been handed to it. Where there is room the
    /// tick waits last. Where there is none it takes the place of the oldest
    /// tick, and waits last; with no tick to give way, or with the queue
    /// closed, it is dropped.
    pub open spec fn with_tick(self) -> QueueView {
        if self.closed {
            self
        } else if self.events.len() < self.limit {
            QueueView { events: self.events.push(Event::TimerTick), ..self }
        } else if has_tick(self.events) {
            QueueView {
                events: self.events.remove(choose|i: int| oldest_tick_at(self.events, i)).push(
                    Event::TimerTick,
                ),
                ..self
            }
        } else {
            self
        }
    }

    /// Whether a tick handed to the queue is taken.
    pub open spec fn takes_tick(self) -> bool {
        !self.closed && (self.events.len() < self.limit || has_tick(self.events))
    }

    /// The queue after its oldest event has left.
    pub open spec fn without_oldest(self) -> QueueView {
        if self.events.len() == 0 {
            self
        } else {
            QueueView { events: self.events.drop_first(), ..self }
        }
    }

    /// Nothing waits, and nothing will come.
    pub open spec fn finished(self) -> bool {
        self.closed && self.events.len() == 0
    }
}

/// The messages among events that end in `event`.
pub proof fn messages_after_push(events: Seq<Event>, event: Event)
    ensures
        messages_of(events.push(event)) == match event {
            Event::InboundMessage(request) => messages_of(events).push(request),
            Event::TimerTick => messages_of(events),
        },
{
    assert(events.push(event).drop_last() =~= events);
}

/// Taking a tick out of the events takes no message out.
pub proof fn messages_without_tick(events: Seq<Event>, i: int)
    requires
        0 <= i < events.len(),
        events[i] is TimerTick,
    ensures
        messages_of(events.remove(i)) == messages_of(events),
    decreases events.len(),
{
    if i == events.len() - 1 {
        assert(events.remove(i) =~= events.drop_last());
    } else {
        messages_without_tick(events.drop_last(), i);
        assert(events.remove(i).drop_last() =~= events.drop_last().remove(i));
        assert(events.remove(i).last() == events.last());
    }
}

/// When the oldest event leaves, the oldest message leaves with it if it is
/// one, and no message leaves if it is a tick.
pub proof fn messages_without_oldest(events: Seq<Event>)
    requires
        events.len() > 0,
    ensures
        messages_of(events.drop_first()) == match events.first() {
            Event::InboundMessage(request) => messages_of(events).drop_first(),
            Event::TimerTick => messages_of(events),
        },
        events.first() matches Event::InboundMessage(request) ==> messages_of(events).len() > 0
            && messages_of(events).first() == request,
    decreases events.len(),
{
    if events.len() == 1 {
        assert(events.drop_first() =~= Seq::empty());
        assert(events.drop_last() =~= Seq::empty());
        assert(messages_of(events.drop_last()) =~= Seq::empty());
        match events.first() {
            Event::InboundMessage(request) => {
                assert(events.last() == events.first());
                assert(messages_of(events) =~= seq![request]);
                assert(messages_of(events).drop_first() =~= Seq::empty());
            },
            Event::TimerTick => {},
        }
    } else {
        let shorter = events.drop_last();
        messages_without_oldest(shorter);
        assert(events.drop_first().drop_last() =~= shorter.drop_first());
        assert(events.drop_first().last() == events.last());
        assert(shorter.first() == events.first());
        match events.last() {
            Event::InboundMessage(last) => {
                match events.first() {
                    Event::InboundMessage(request) => {
                        assert(messages_of(shorter).push(last).drop_first() =~= messages_of(
                            shorter,
                        ).drop_first().push(last));
                    },
                    Event::TimerTick => {},
                }
            },
            Event::TimerTick => {},
        }
    }
}

/// A tick never costs a message: the messages that wait are the same before
/// and after.
pub proof fn a_tick_drops_no_message(queue: QueueView)
    ensures
        messages_of(queue.with_tick().events) == messages_of(queue.events),
{
    if queue.closed {
    } else if queue.events.len() < queue.limit {
        messages_after_push(queue.events, Event::TimerTick);
    } else if has_tick(queue.events) {
        let i = choose|i: int| oldest_tick_at(queue.events, i);
        messages_without_tick(queue.events, i);
        messages_after_push(queue.events.remove(i), Event::TimerTick);
    }
}

/// A tick never makes a full queue longer.
pub proof fn a_tick_keeps_the_bound(queue: QueueView)
    ensures
        queue.events.len() >= queue.limit ==> queue.with_tick().events.len() == queue.events.len(),
        queue.events.len() < queue.limit ==> queue.with_tick().events.len() <= queue.limit,
{
}

/// A message handed to an open queue waits behind all that waited before.
pub proof fn a_message_waits_last(queue: QueueView, request: Request)
    requires
        !queue.closed,
    ensures
        messages_of(queue.with_message(request).events) == messages_of(queue.events).push(request),
{
    messages_after_push(queue.events, Event::InboundMessage(request));
}

/// The events that wait for the runtime.
pub struct EventQueue {
    events: VecDeque<Event>,
    limit: usize,
    closed: bool,
}

impl View for EventQueue {
    type V = QueueView;

    closed spec fn view(&self) -> QueueView {
        QueueView { events: self.events@, limit: self.limit as nat, closed: self.closed }
    }
}

impl EventQueue {
    /// An open queue in which nothing waits, and in which ticks give way once
    /// `limit` events wait.
    pub fn new(limit: usize) -> (r: EventQueue)
        ensures
            r@ == (QueueView { events: Seq::empty(), limit: limit as nat, closed: false }),
    {
        EventQueue { events: VecDeque::new(), limit, closed: false }
    }

    /// How many events wait.
    pub fn len(&self) -> (r: usize)
        ensures
            r == self@.events.len(),
    {
        self.events.len()
    }

    /// Whether nothing waits.
    pub fn is_empty(&self) -> (r: bool)
        ensures
            r == (self@.events.len() == 0),
    {
        self.events.len() == 0
    }

    /// Whether the queue has been closed.
    pub fn is_closed(&self) -> (r: bool)
        ensures
            r == self@.closed,
    {
        self.closed
    }

    /// Whether nothing waits and nothing will come.
    pub fn is_finished(&self) -> (r: bool)
        ensures
            r == self@.finished(),
    {
        self.closed && self.events.len() == 0
    }

    /// Closes the queue: from now on nothing is taken, and what waits can
    /// still leave.
    pub fn close(&mut self)
        ensures
            final(self)@ == (QueueView { closed: true, ..old(self)@ }),
    {
        self.closed = true;
    }

    /// Hands a message to the queue. Says whether it was taken: it is, unless
    /// the queue is closed.
    pub fn push_message(&mut self, request: Request) -> (r: bool)
        ensures
            final(self)@ == old(self)@.with_message(request),
            r == !old(self)@.closed,
    {
        if self.closed {
            false
        } else {
            self.events.push_back(Event::InboundMessage(request));
            true
        }
    }

    /// Where the oldest tick waits.
    fn oldest_tick(&self) -> (r: Option<usize>)
        ensures
            match r {
                Some(i) => oldest_tick_at(self@.events, i as int),
                None => !has_tick(self@.events),
            },
    {
        let mut i: usize = 0;
        while i < self.events.len()
            invariant
                i <= self.events.len(),
                forall|j: int| 0 <= j < i ==> !((#[trigger] self.events@[j]) is TimerTick),
            decreases self.events.len() - i,
        {
            if let Event::TimerTick = self.events[i] {
                return Some(i);
            }
            i += 1;
        }
        None
    }

    /// Hands a tick to the queue. Says whether it was taken.
    pub fn push_tick(&mut self) -> (r: bool)
        ensures
            final(self)@ == old(self)@.with_tick(),
            r == old(self)@.takes_tick(),
    {
        if self.closed {
            return false;
        }
        if self.events.len() < self.limit {
            self.events.push_back(Event::TimerTick);
            return true;
        }
        match self.oldest_tick() {
            Some(i) => {
                self.events.remove(i);
                self.events.push_back(Event::TimerTick);
                true
            },
            None => false,
        }
    }

    /// Hands an event to the queue. Says whether it was taken.
    pub fn push(&mut self, event: Event) -> (r: bool)
        ensures
            match event {
                Event::InboundMessage(request) => final(self)@ == old(self)@.with_message(request)
                    && r == !old(self)@.closed,
                Event::TimerTick => final(self)@ == old(self)@.with_tick() && r == old(
                    self,
                )@.takes_tick(),
            },
    {
        match event {
            Event::InboundMessage(request) => self.push_message(request),
            Event::TimerTick => self.push_tick(),
        }
    }

    /// Takes the oldest event out of the queue.
    pub fn pop(&mut self) -> (r: Option<Event>)
        ensures
            final(self)@ == old(self)@.without_oldest(),
            match r {
                Some(event) => old(self)@.events.len() > 0 && event == old(self)@.events.first(),
                None => old(self)@.events.len() == 0,
            },
    {
        let event = self.events.pop_front();
        assert(event is Some ==> self.events@ =~= old(self).events@.drop_first());
        event
    }
}

} // verus!
