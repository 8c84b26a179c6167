//! The unique-id actor: it answers every request with an id of its own making.

use crate::actor::{outcome_view, Actor};
use crate::error::Error;
use crate::json::{view_fields, Fields, FieldsView, Json, JsonView};
use crate::message::{replies, reply, Request, RequestView, Response, ResponseView};
use vstd::prelude::*;

verus! {

/// `c` is a hexadecimal digit in lower case.
pub open spec fn is_hex(c: char) -> bool {
    ('0' <= c && c <= '9') || ('a' <= c && c <= 'f')
}

/// `text` has the form of a random id: 36 characters, of which the ones at
/// places 8, 13, 18 and 23 are `-`, the one at place 14 is `4`, and all others
/// are hexadecimal digits in lower case.
pub open spec fn is_id(text: Seq<char>) -> bool {
    &&& text.len() == 36
    &&& forall|i: int|
        0 <= i < 36 ==> if i == 8 || i == 13 || i == 18 || i == 23 {
            #[trigger] text[i] == '-'
        } else if i == 14 {
            text[i] == '4'
        } else {
            is_hex(text[i])
        }
}

/// Calls `uuid::Uuid::new_v4` and writes the id with `to_string`.
///
/// The id is random, so only its form is stated, which is the same whatever
/// was drawn. `to_string` goes through the id's `Display`, which writes the
/// hyphenated form in lower case: 32 hexadecimal digits with `-` at places 8,
/// 13, 18 and 23 (`format_hyphenated`). `new_v4` sets the version of the id,
/// which is the digit at place 14, to `4`. (`new_v4` gives up where the
/// operating system hands it no random bytes.)
#[verifier::external_body]
fn random_id() -> (id: String)
    ensures
        is_id(id@),
{
    uuid::Uuid::new_v4().to_string()
}

/// The body that carries `id`.
pub open spec fn id_body(id: Seq<char>) -> FieldsView {
    seq![("id"@, JsonView::Text(id))]
}

/// What `generate` is answered with: a reply that carries an id, if the
/// request asks for a reply.
pub open spec fn generate_post(
    request: RequestView,
    outcome: Result<Seq<ResponseView>, Error>,
) -> bool {
    exists|id: Seq<char>|
        is_id(id) && outcome == Ok::<_, Error>(#[trigger] replies(request, id_body(id)))
}

/// What a message is answered with, by its type.
pub open spec fn generate_receive_post(
    request: RequestView,
    outcome: Result<Seq<ResponseView>, Error>,
) -> bool {
    if request.message_type == "generate"@ {
        generate_post(request, outcome)
    } else {
        outcome == Err::<Seq<ResponseView>, _>(Error::UnsupportedMessageType)
    }
}

/// A node that hands out ids.
pub struct UuidActor {
    node_id: Option<String>,
}

impl View for UuidActor {
    type V = Option<Seq<char>>;

    closed spec fn view(&self) -> Option<Seq<char>> {
        match self.node_id {
            Some(node_id) => Some(node_id@),
            None => None,
        }
    }
}

impl UuidActor {
    /// An actor that has not been told who it is.
    pub fn new() -> (r: UuidActor)
        ensures
            r@ is None,
    {
        UuidActor { node_id: None }
    }

    /// The id of the node, once it has been told.
    pub fn node_id(&self) -> (r: Option<&String>)
        ensures
            r.deep_view() == self@,
    {
        match &self.node_id {
            Some(node_id) => Some(node_id),
            None => None,
        }
    }

    /// Handles a `generate` message.
    pub fn handle_generate(&self, request: &Request) -> (r: Result<Vec<Response>, Error>)
        ensures
            generate_post(request@, outcome_view(r)),
    {
        let id = random_id();
        let ghost made = id@;
        let responses = answer_with(request, id);
        assert(responses.deep_view() == replies(request@, id_body(made)));
        Ok(responses)
    }
}

/// What is sent back for a `generate` request once the id is `id`.
pub fn answer_with(request: &Request, id: String) -> (r: Vec<Response>)
    ensures
        r.deep_view() == replies(request@, id_body(id@)),
{
    let mut body: Fields = Vec::new();
    body.push(("id".to_owned(), Json::Text(id)));
    assert(view_fields(body@) =~= id_body(id@));
    reply(request, body)
}

impl Actor for UuidActor {
    type Model = Option<Seq<char>>;

    open spec fn model(&self) -> Option<Seq<char>> {
        self@
    }

    open spec fn identified(state: Option<Seq<char>>) -> bool {
        state is Some
    }

    open spec fn ticking(state: Option<Seq<char>>) -> bool {
        false
    }

    open spec fn init_post(
        before: Option<Seq<char>>,
        node_id: Seq<char>,
        node_ids: Seq<Seq<char>>,
        after: Option<Seq<char>>,
        outcome: Result<(), Error>,
    ) -> bool {
        after == Some(node_id) && outcome is Ok
    }

    open spec fn receive_post(
        before: Option<Seq<char>>,
        request: RequestView,
        after: Option<Seq<char>>,
        outcome: Result<Seq<ResponseView>, Error>,
    ) -> bool {
        after == before && generate_receive_post(request, outcome)
    }

    open spec fn tick_post(
        before: Option<Seq<char>>,
        after: Option<Seq<char>>,
        outcome: Result<Seq<ResponseView>, Error>,
    ) -> bool {
        after == before && outcome == Ok::<_, Error>(Seq::<ResponseView>::empty())
    }

    fn is_identified(&self) -> (r: bool) {
        self.node_id.is_some()
    }

    fn is_ticking(&self) -> (r: bool) {
        false
    }

    fn init(&mut self, node_id: &str, node_ids: Vec<String>) -> (r: Result<(), Error>) {
        self.node_id = Some(node_id.to_owned());
        Ok(())
    }

    fn receive(&mut self, request: &Request) -> (r: Result<Vec<Response>, Error>) {
        if request.is("generate") {
            self.handle_generate(request)
        } else {
            Err(Error::UnsupportedMessageType)
        }
    }

    fn gossip(&mut self) -> (r: Result<Vec<Response>, Error>) {
        let responses: Vec<Response> = Vec::new();
        assert(responses.deep_view() =~= Seq::empty());
        Ok(responses)
    }
}

} // verus!
