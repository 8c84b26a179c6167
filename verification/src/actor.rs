//! What the runtime asks of an actor.

use crate::error::Error;
use crate::message::{Request, RequestView, Response, ResponseView};
use vstd::prelude::*;

verus! {

/// What a handler hands back, with each response replaced by its model.
pub open spec fn outcome_view(outcome: Result<Vec<Response>, Error>) -> Result<
    Seq<ResponseView>,
    Error,
> {
    match outcome {
        Ok(responses) => Ok(responses.deep_view()),
        Err(error) => Err(error),
    }
}

/// A protocol that a node can speak: what it does when it is told who it is,
/// when a message comes in, and when the timer fires.
///
/// Each actor says in its own terms what the three do: `Model` is the
/// mathematical model of its state, and the three `_post` predicates relate
/// the state before and after to what is handed back.
pub trait Actor: Sized {
    /// The mathematical model of the actor's state.
    type Model;

    /// The model of this actor.
    spec fn model(&self) -> Self::Model;

    /// An actor in this state has been told who it is.
    spec fn identified(state: Self::Model) -> bool;

    /// An actor in this state wants the timer to run.
    spec fn ticking(state: Self::Model) -> bool;

    /// What `init` does.
    spec fn init_post(
        before: Self::Model,
        node_id: Seq<char>,
        node_ids: Seq<Seq<char>>,
        after: Self::Model,
        outcome: Result<(), Error>,
    ) -> bool;

    /// What `receive` does.
    spec fn receive_post(
        before: Self::Model,
        request: RequestView,
        after: Self::Model,
        outcome: Result<Seq<ResponseView>, Error>,
    ) -> bool;

    /// What `gossip` does.
    spec fn tick_post(
        before: Self::Model,
        after: Self::Model,
        outcome: Result<Seq<ResponseView>, Error>,
    ) -> bool;

    /// Whether the actor has been told who it is.
    fn is_identified(&self) -> (r: bool)
        ensures
            r == Self::identified(self.model()),
    ;

    /// Whether the actor wants the timer to run.
    fn is_ticking(&self) -> (r: bool)
        ensures
            r == Self::ticking(self.model()),
    ;

    /// Tells the actor its own id and the ids of all nodes of the cluster.
    fn init(&mut self, node_id: &str, node_ids: Vec<String>) -> (r: Result<(), Error>)
        ensures
            Self::init_post(
                old(self).model(),
                node_id@,
                node_ids.deep_view(),
                final(self).model(),
                r,
            ),
    ;

    /// Handles one message.
    fn receive(&mut self, request: &Request) -> (r: Result<Vec<Response>, Error>)
        ensures
            Self::receive_post(old(self).model(), request@, final(self).model(), outcome_view(r)),
    ;

    /// Handles one tick of the timer.
    fn gossip(&mut self) -> (r: Result<Vec<Response>, Error>)
        ensures
            Self::tick_post(old(self).model(), final(self).model(), outcome_view(r)),
    ;
}

} // verus!
