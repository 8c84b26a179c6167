//! The envelopes that a node receives and sends.

use crate::error::Error;
use crate::json::{view_fields, Fields, FieldsView, Json, JsonView};
use vstd::prelude::*;

verus! {

/// A message that came in.
///
/// `message_id` is there on a message that expects a reply. `body` holds the
/// payload: what the message's body carries besides its type and the two ids.
#[derive(Debug, PartialEq, Eq)]
pub struct Request {
    pub source: String,
    pub destination: String,
    pub message_type: String,
    pub message_id: Option<u64>,
    pub in_reply_to: Option<u64>,
    pub body: Fields,
}

/// A message to send.
#[derive(Debug, PartialEq, Eq)]
pub struct Response {
    pub source: String,
    pub destination: String,
    pub message_type: String,
    pub message_id: Option<u64>,
    pub in_reply_to: Option<u64>,
    pub body: Fields,
}

/// The model of a [`Request`].
pub ghost struct RequestView {
    pub source: Seq<char>,
    pub destination: Seq<char>,
    pub message_type: Seq<char>,
    pub message_id: Option<u64>,
    pub in_reply_to: Option<u64>,
    pub body: FieldsView,
}

/// The model of a [`Response`].
pub ghost struct ResponseView {
    pub source: Seq<char>,
    pub destination: Seq<char>,
    pub message_type: Seq<char>,
    pub message_id: Option<u64>,
    pub in_reply_to: Option<u64>,
    pub body: FieldsView,
}

impl View for Request {
    type V = RequestView;

    open spec fn view(&self) -> RequestView {
        RequestView {
            source: self.source@,
            destination: self.destination@,
            message_type: self.message_type@,
            message_id: self.message_id,
            in_reply_to: self.in_reply_to,
            body: view_fields(self.body@),
        }
    }
}

impl View for Response {
    type V = ResponseView;

    open spec fn view(&self) -> ResponseView {
        ResponseView {
            source: self.source@,
            destination: self.destination@,
            message_type: self.message_type@,
            message_id: self.message_id,
            in_reply_to: self.in_reply_to,
            body: view_fields(self.body@),
        }
    }
}

impl DeepView for Response {
    type V = ResponseView;

    open spec fn deep_view(&self) -> ResponseView {
        self.view()
    }
}

/// The id that a reply to a message with id `message_id` carries as its own.
pub open spec fn next_id(message_id: Option<u64>) -> Option<u64> {
    match message_id {
        Some(id) if id < u64::MAX => Some((id + 1) as u64),
        _ => None,
    }
}

/// The reply to `request` that carries `body`: it goes back where the request
/// came from, its type is the request's with `_ok` behind it, and it names the
/// request's id as the one it replies to.
pub open spec fn reply_to(request: RequestView, body: FieldsView) -> ResponseView {
    ResponseView {
        source: request.destination,
        destination: request.source,
        message_type: request.message_type + "_ok"@,
        message_id: next_id(request.message_id),
        in_reply_to: request.message_id,
        body,
    }
}

/// The `error` message that tells the sender of `request` about `error`.
pub open spec fn error_for(request: RequestView, error: Error) -> ResponseView {
    ResponseView {
        source: request.destination,
        destination: request.source,
        message_type: "error"@,
        message_id: None,
        in_reply_to: request.message_id,
        body: seq![
            ("code"@, JsonView::Int(error.spec_code() as int)),
            ("text"@, JsonView::Text(error.spec_text())),
        ],
    }
}

/// What is sent back for `request` when its reply carries `body`: the reply,
/// unless the request has no id, in which case nothing is.
pub open spec fn replies(request: RequestView, body: FieldsView) -> Seq<ResponseView> {
    if request.message_id is Some {
        seq![reply_to(request, body)]
    } else {
        Seq::empty()
    }
}

/// What is sent back for `request` when handling it failed with `error`: the
/// `error` message, unless the request has no id to name in it.
pub open spec fn error_replies(request: RequestView, error: Error) -> Seq<ResponseView> {
    if request.message_id is Some {
        seq![error_for(request, error)]
    } else {
        Seq::empty()
    }
}

/// Calls `maelstrom_rs::message::Response::new_from_request` on a request made
/// of the three arguments, and hands back the reply's destination, type, own id
/// and `in_reply_to`.
///
/// The contract repeats that function's body: the destination is the request's
/// source, the type is the request's type followed by `_ok`, the reply's own id
/// is the request's plus one, and `in_reply_to` is the request's id. The
/// function adds one to the id without a check, so the largest id is left out.
#[verifier::external_body]
fn reply_header(source: &str, message_type: &str, message_id: Option<u64>) -> (r: (
    String,
    String,
    Option<u64>,
    Option<u64>,
))
    requires
        message_id != Some(u64::MAX),
    ensures
        r.0@ == source@,
        r.1@ == message_type@ + "_ok"@,
        r.2 == next_id(message_id),
        r.3 == message_id,
{
    let request = maelstrom_rs::message::Request {
        source: source.to_owned(),
        destination: String::new(),
        message_type: message_type.to_owned(),
        message_id,
        in_reply_to: None,
        body: Default::default(),
    };
    let reply = maelstrom_rs::message::Response::new_from_request(&request, Default::default());
    (reply.destination, reply.message_type, reply.message_id, reply.in_reply_to)
}

impl Request {
    /// Whether the message is of type `kind`.
    pub fn is(&self, kind: &str) -> (r: bool)
        ensures
            r == (self@.message_type == kind@),
    {
        let wanted = kind.to_owned();
        self.message_type == wanted
    }
}

impl Response {
    /// The reply to `request` that carries `body`.
    pub fn new_from_request(request: &Request, body: Fields) -> (r: Response)
        ensures
            r@ == reply_to(request@, view_fields(body@)),
    {
        let id_to_follow = match request.message_id {
            Some(id) if id == u64::MAX => None,
            other => other,
        };
        let header = reply_header(
            request.source.as_str(),
            request.message_type.as_str(),
            id_to_follow,
        );
        Response {
            source: request.destination.clone(),
            destination: header.0,
            message_type: header.1,
            message_id: header.2,
            in_reply_to: request.message_id,
            body,
        }
    }

    /// The `error` message that tells the sender of `request` about `error`.
    pub fn error(request: &Request, error: Error) -> (r: Response)
        ensures
            r@ == error_for(request@, error),
    {
        let mut body: Fields = Vec::new();
        body.push(("code".to_owned(), Json::Int(error.code() as i128)));
        body.push(("text".to_owned(), Json::Text(error.text())));
        let r = Response {
            source: request.destination.clone(),
            destination: request.source.clone(),
            message_type: "error".to_owned(),
            message_id: None,
            in_reply_to: request.message_id,
            body,
        };
        assert(r@.body =~= error_for(request@, error).body);
        r
    }
}

/// What is sent back for `request` when its reply carries `body`.
pub fn reply(request: &Request, body: Fields) -> (r: Vec<Response>)
    ensures
        r.deep_view() == replies(request@, view_fields(body@)),
{
    let mut responses: Vec<Response> = Vec::new();
    if request.message_id.is_some() {
        responses.push(Response::new_from_request(request, body));
    }
    assert(responses.deep_view() =~= replies(request@, view_fields(body@)));
    responses
}

/// What is sent back for `request` when handling it failed with `error`.
pub fn reply_error(request: &Request, error: Error) -> (r: Vec<Response>)
    ensures
        r.deep_view() == error_replies(request@, error),
{
    let mut responses: Vec<Response> = Vec::new();
    if request.message_id.is_some() {
        responses.push(Response::error(request, error));
    }
    assert(responses.deep_view() =~= error_replies(request@, error));
    responses
}

} // verus!
