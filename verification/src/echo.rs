//! The echo actor: it sends back what it is sent.

use crate::actor::{outcome_view, Actor};
use crate::error::Error;
use crate::json::{field, get, view_fields, Fields, FieldsView, Json, JsonView};
use crate::message::{replies, reply, Request, RequestView, Response, ResponseView};
use vstd::prelude::*;

verus! {

/// The string that an `echo` body carries.
pub open spec fn echo_text(body: FieldsView) -> Result<Seq<char>, Error> {
    match field(body, "echo"@) {
        None => Err(Error::Protocol),
        Some(JsonView::Text(text)) => Ok(text),
        Some(_) => Err(Error::MalformedField),
    }
}

/// The body that carries `text` as `echo`.
pub open spec fn echo_body(text: Seq<char>) -> FieldsView {
    seq![("echo"@, JsonView::Text(text))]
}

/// What `echo` is answered with: a reply that carries the same string, if the
/// request asks for a reply.
pub open spec fn echo_post(request: RequestView, outcome: Result<Seq<ResponseView>, Error>) -> bool {
    match echo_text(request.body) {
        Ok(text) => outcome == Ok::<_, Error>(replies(request, echo_body(text))),
        Err(error) => outcome == Err::<Seq<ResponseView>, _>(error),
    }
}

/// What a message is answered with, by its type.
pub open spec fn echo_receive_post(
    request: RequestView,
    outcome: Result<Seq<ResponseView>, Error>,
) -> bool {
    if request.message_type == "echo"@ {
        echo_post(request, outcome)
    } else {
        outcome == Err::<Seq<ResponseView>, _>(Error::UnsupportedMessageType)
    }
}

/// A node that echoes.
pub struct EchoActor {
    node_id: Option<String>,
}

impl View for EchoActor {
    type V = Option<Seq<char>>;

    closed spec fn view(&self) -> Option<Seq<char>> {
        match self.node_id {
            Some(node_id) => Some(node_id@),
            None => None,
        }
    }
}

impl EchoActor {
    /// An actor that has not been told who it is.
    pub fn new() -> (r: EchoActor)
        ensures
            r@ is None,
    {
        EchoActor { node_id: None }
    }

    /// The id of the node, once it has been told.
    pub fn node_id(&self) -> (r: Option<&String>)
        ensures
            r.deep_view() == self@,
    {
        match &self.node_id {
            Some(node_id) => Some(node_id),
            None => None,
        }
    }

    /// Handles an `echo` message.
    pub fn handle_echo(&self, request: &Request) -> (r: Result<Vec<Response>, Error>)
        ensures
            echo_post(request@, outcome_view(r)),
    {
        let text = match get(&request.body, "echo") {
            None => {
                return Err(Error::Protocol);
            },
            Some(value) => match value.as_text() {
                Some(text) => text,
                None => {
                    return Err(Error::MalformedField);
                },
            },
        };
        let mut body: Fields = Vec::new();
        body.push(("echo".to_owned(), Json::Text(text.clone())));
        assert(view_fields(body@) =~= echo_body(text@));
        Ok(reply(request, body))
    }
}

impl Actor for EchoActor {
    type Model = Option<Seq<char>>;

    open spec fn model(&self) -> Option<Seq<char>> {
        self@
    }

    open spec fn identified(state: Option<Seq<char>>) -> bool {
        state is Some
    }

    open spec fn ticking(state: Option<Seq<char>>) -> bool {
        false
    }

    open spec fn init_post(
        before: Option<Seq<char>>,
        node_id: Seq<char>,
        node_ids: Seq<Seq<char>>,
        after: Option<Seq<char>>,
        outcome: Result<(), Error>,
    ) -> bool {
        after == Some(node_id) && outcome is Ok
    }

    open spec fn receive_post(
        before: Option<Seq<char>>,
        request: RequestView,
        after: Option<Seq<char>>,
        outcome: Result<Seq<ResponseView>, Error>,
    ) -> bool {
        after == before && echo_receive_post(request, outcome)
    }

    open spec fn tick_post(
        before: Option<Seq<char>>,
        after: Option<Seq<char>>,
        outcome: Result<Seq<ResponseView>, Error>,
    ) -> bool {
        after == before && outcome == Ok::<_, Error>(Seq::<ResponseView>::empty())
    }

    fn is_identified(&self) -> (r: bool) {
        self.node_id.is_some()
    }

    fn is_ticking(&self) -> (r: bool) {
        false
    }

    fn init(&mut self, node_id: &str, node_ids: Vec<String>) -> (r: Result<(), Error>) {
        self.node_id = Some(node_id.to_owned());
        Ok(())
    }

    fn receive(&mut self, request: &Request) -> (r: Result<Vec<Response>, Error>) {
        if request.is("echo") {
            self.handle_echo(request)
        } else {
            Err(Error::UnsupportedMessageType)
        }
    }

    fn gossip(&mut self) -> (r: Result<Vec<Response>, Error>) {
        let responses: Vec<Response> = Vec::new();
        assert(responses.deep_view() =~= Seq::empty());
        Ok(responses)
    }
}

} // verus!
