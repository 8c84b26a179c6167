//! How envelopes look as JSON.
//!
//! On the wire a message is an object with `src`, `dest` and `body`; the body
//! holds the message's `type`, its `msg_id` and `in_reply_to` where it has
//! them, and the payload.

use crate::error::Error;
use crate::json::{
    copy_fields, distinct_keys, field, first_at, get, has_field, lemma_object_view, names_apart,
    put, take, values_apart, view_fields, with_field, with_field_keeps_names_apart,
    with_field_keeps_values_apart, without_field, Fields, FieldsView, Json, JsonView,
};
use crate::message::{Request, RequestView, Response, ResponseView};
use crate::wire::{rendered, written};
use vstd::prelude::*;

verus! {

/// The id that `body` holds under `key`: none where the key is absent, and a
/// failure where its value is no unsigned 64-bit integer.
pub open spec fn optional_id(body: FieldsView, key: Seq<char>) -> Result<Option<u64>, Error> {
    match field(body, key) {
        None => Ok(None),
        Some(value) => match value.as_u64() {
            Some(id) => Ok(Some(id)),
            None => Err(Error::Protocol),
        },
    }
}

/// What a body carries besides its type and its two ids.
pub open spec fn payload(body: FieldsView) -> FieldsView {
    without_field(without_field(without_field(body, "type"@), "msg_id"@), "in_reply_to"@)
}

/// The request that a JSON value stands for.
///
/// The value must be an object whose `src` and `dest` are strings and whose
/// `body` is an object; the body's `type` must be a string, and `msg_id` and
/// `in_reply_to`, where they are there, unsigned integers.
pub open spec fn decoded(json: JsonView) -> Result<RequestView, Error> {
    match json {
        JsonView::Object(top) => match (field(top, "src"@), field(top, "dest"@), field(top, "body"@)) {
            (
                Some(JsonView::Text(source)),
                Some(JsonView::Text(destination)),
                Some(JsonView::Object(body)),
            ) => match (
                field(body, "type"@),
                optional_id(body, "msg_id"@),
                optional_id(body, "in_reply_to"@),
            ) {
                (Some(JsonView::Text(message_type)), Ok(message_id), Ok(in_reply_to)) => Ok(
                    RequestView {
                        source,
                        destination,
                        message_type,
                        message_id,
                        in_reply_to,
                        body: payload(body),
                    },
                ),
                _ => Err(Error::Protocol),
            },
            _ => Err(Error::Protocol),
        },
        _ => Err(Error::Protocol),
    }
}

/// What a JSON value that is no request still says of its sender: where it is
/// an object whose `src` and `dest` are strings and whose `body` is an object
/// with an unsigned integer as `msg_id`, a request with those three and
/// nothing else.
pub open spec fn correlated(json: JsonView) -> Option<RequestView> {
    match json {
        JsonView::Object(top) => match (field(top, "src"@), field(top, "dest"@), field(top, "body"@)) {
            (
                Some(JsonView::Text(source)),
                Some(JsonView::Text(destination)),
                Some(JsonView::Object(body)),
            ) => match optional_id(body, "msg_id"@) {
                Ok(Some(id)) => Some(
                    RequestView {
                        source,
                        destination,
                        message_type: Seq::empty(),
                        message_id: Some(id),
                        in_reply_to: None,
                        body: Seq::empty(),
                    },
                ),
                _ => None,
            },
            _ => None,
        },
        _ => None,
    }
}

/// What stands in a response's body before its payload: the type, then the
/// two ids where the response has them.
pub open spec fn header(response: ResponseView) -> FieldsView {
    let typed = seq![("type"@, JsonView::Text(response.message_type))];
    let with_id = match response.message_id {
        Some(id) => typed.push(("msg_id"@, JsonView::Int(id as int))),
        None => typed,
    };
    match response.in_reply_to {
        Some(id) => with_id.push(("in_reply_to"@, JsonView::Int(id as int))),
        None => with_id,
    }
}

/// `base` with each entry of `extra` set in it, in order.
pub open spec fn with_fields(base: FieldsView, extra: FieldsView) -> FieldsView
    decreases extra.len(),
{
    if extra.len() == 0 {
        base
    } else {
        with_field(with_fields(base, extra.drop_last()), extra.last().0, extra.last().1)
    }
}

/// The JSON value that stands for a response.
pub open spec fn encoded(response: ResponseView) -> JsonView {
    JsonView::Object(
        seq![
            ("src"@, JsonView::Text(response.source)),
            ("dest"@, JsonView::Text(response.destination)),
            ("body"@, JsonView::Object(with_fields(header(response), response.body))),
        ],
    )
}

/// Setting fields one after the other keeps the names apart.
pub proof fn with_fields_keeps_names_apart(base: FieldsView, extra: FieldsView)
    requires
        distinct_keys(base),
    ensures
        distinct_keys(with_fields(base, extra)),
    decreases extra.len(),
{
    if extra.len() > 0 {
        with_fields_keeps_names_apart(base, extra.drop_last());
        with_field_keeps_names_apart(
            with_fields(base, extra.drop_last()),
            extra.last().0,
            extra.last().1,
        );
    }
}

/// Setting fields one after the other keeps the values' names apart.
pub proof fn with_fields_keeps_values_apart(base: FieldsView, extra: FieldsView)
    requires
        values_apart(base),
        values_apart(extra),
    ensures
        values_apart(with_fields(base, extra)),
    decreases extra.len(),
{
    if extra.len() > 0 {
        let earlier = extra.drop_last();
        assert forall|i: int| 0 <= i < earlier.len() implies names_apart(
            (#[trigger] earlier[i]).1,
        ) by {
            assert(earlier[i] == extra[i]);
        }
        with_fields_keeps_values_apart(base, earlier);
        assert(names_apart(extra[extra.len() - 1].1));
        with_field_keeps_values_apart(with_fields(base, earlier), extra.last().0, extra.last().1);
    }
}

/// A response whose payload holds no object with two entries of one name is
/// written as a value that holds none either, whatever the payload's own
/// names are: the envelope and the body keep their names apart. Such a
/// response is written as `serde_json` writes it.
pub proof fn encoded_keeps_names_apart(response: ResponseView)
    requires
        values_apart(response.body),
    ensures
        names_apart(encoded(response)),
        written(encoded(response)) == rendered(encoded(response)),
{
    reveal_strlit("src");
    reveal_strlit("dest");
    reveal_strlit("body");
    reveal_strlit("type");
    reveal_strlit("msg_id");
    reveal_strlit("in_reply_to");
    let top = encoded(response)->Object_0;
    assert("src"@.len() == 3 && "dest"@.len() == 4 && "body"@.len() == 4);
    assert("dest"@[0] != "body"@[0]);
    assert(distinct_keys(top));
    assert("type"@.len() == 4 && "msg_id"@.len() == 6 && "in_reply_to"@.len() == 11);
    let head = header(response);
    assert(distinct_keys(head));
    assert(values_apart(head)) by {
        assert forall|i: int| 0 <= i < head.len() implies names_apart((#[trigger] head[i]).1) by {
            assert(head[i].1 is Text || head[i].1 is Int);
        }
    }
    with_fields_keeps_names_apart(head, response.body);
    with_fields_keeps_values_apart(head, response.body);
    let body = with_fields(head, response.body);
    assert(names_apart(JsonView::Object(body)));
    assert(values_apart(top)) by {
        assert forall|i: int| 0 <= i < top.len() implies names_apart((#[trigger] top[i]).1) by {
            assert(i == 0 || i == 1 || i == 2);
        }
    }
}

/// No entry of `fields` is named `key`.
pub open spec fn lacks(fields: FieldsView, key: Seq<char>) -> bool {
    forall|i: int| 0 <= i < fields.len() ==> (#[trigger] fields[i]).0 != key
}

/// Setting fields whose names are new, and differ from each other, appends them.
pub proof fn with_new_fields_appends(base: FieldsView, extra: FieldsView)
    requires
        distinct_keys(extra),
        forall|i: int| 0 <= i < extra.len() ==> lacks(base, (#[trigger] extra[i]).0),
    ensures
        with_fields(base, extra) == base + extra,
    decreases extra.len(),
{
    if extra.len() == 0 {
        assert(base + extra =~= base);
    } else {
        let earlier = extra.drop_last();
        let last = extra.last();
        assert forall|i: int| 0 <= i < earlier.len() implies lacks(
            base,
            (#[trigger] earlier[i]).0,
        ) by {
            assert(earlier[i] == extra[i]);
        }
        assert forall|i: int, j: int| 0 <= i < j < earlier.len() implies (#[trigger] earlier[i]).0
            != (#[trigger] earlier[j]).0 by {
            assert(earlier[i] == extra[i]);
            assert(earlier[j] == extra[j]);
        }
        with_new_fields_appends(base, earlier);
        let so_far = base + earlier;
        assert(lacks(base, extra[extra.len() - 1].0));
        assert forall|i: int| 0 <= i < so_far.len() implies (#[trigger] so_far[i]).0 != last.0 by {
            if i < base.len() {
                assert(so_far[i] == base[i]);
            } else {
                assert(so_far[i] == extra[i - base.len()]);
            }
        }
        assert(!has_field(so_far, last.0)) by {
            if has_field(so_far, last.0) {
                let at = choose|i: int| first_at(so_far, last.0, i);
                assert(so_far[at].0 == last.0);
            }
        }
        assert(so_far.push((last.0, last.1)) =~= base + extra);
    }
}

/// A response that is written and read again is the request that its receiver
/// takes it for: same source, destination, type, ids and payload. This holds
/// of every response whose payload names nothing twice and none of `type`,
/// `msg_id` and `in_reply_to`.
pub proof fn decoded_after_encoded(response: ResponseView)
    requires
        distinct_keys(response.body),
        lacks(response.body, "type"@),
        lacks(response.body, "msg_id"@),
        lacks(response.body, "in_reply_to"@),
    ensures
        decoded(encoded(response)) == Ok::<_, Error>(
            RequestView {
                source: response.source,
                destination: response.destination,
                message_type: response.message_type,
                message_id: response.message_id,
                in_reply_to: response.in_reply_to,
                body: response.body,
            },
        ),
{
    reveal_strlit("src");
    reveal_strlit("dest");
    reveal_strlit("body");
    reveal_strlit("type");
    reveal_strlit("msg_id");
    reveal_strlit("in_reply_to");
    assert("src"@.len() == 3 && "dest"@.len() == 4 && "body"@.len() == 4);
    assert("dest"@[0] != "body"@[0]);
    assert("type"@.len() == 4 && "msg_id"@.len() == 6 && "in_reply_to"@.len() == 11);
    let top = encoded(response)->Object_0;
    assert(first_at(top, "src"@, 0));
    assert(first_at(top, "dest"@, 1));
    assert(first_at(top, "body"@, 2));
    let head = header(response);
    let extra = response.body;
    assert forall|i: int| 0 <= i < extra.len() implies lacks(head, (#[trigger] extra[i]).0) by {
        assert forall|j: int| 0 <= j < head.len() implies (#[trigger] head[j]).0 != extra[i].0 by {
            assert(head[j].0 == "type"@ || head[j].0 == "msg_id"@ || head[j].0 == "in_reply_to"@);
        }
    }
    with_new_fields_appends(head, extra);
    let body = head + extra;
    assert(with_fields(head, extra) == body);
    assert(field(top, "body"@) == Some(JsonView::Object(body)));
    // The type stands first.
    assert(body[0] == head[0]);
    assert(first_at(body, "type"@, 0));
    // The two ids, where they are there, stand behind it.
    assert forall|i: int| head.len() <= i < body.len() implies (#[trigger] body[i]).0 != "msg_id"@
        && body[i].0 != "in_reply_to"@ && body[i].0 != "type"@ by {
        assert(body[i] == extra[i - head.len()]);
    }
    match response.message_id {
        Some(id) => {
            assert(body[1] == head[1]);
            assert(first_at(body, "msg_id"@, 1));
            assert(JsonView::Int(id as int).as_u64() == Some(id));
        },
        None => {
            assert forall|i: int| 0 <= i < body.len() implies (#[trigger] body[i]).0
                != "msg_id"@ by {
                if i < head.len() {
                    assert(body[i] == head[i]);
                }
            }
            assert(!has_field(body, "msg_id"@)) by {
                if has_field(body, "msg_id"@) {
                    let at = choose|i: int| first_at(body, "msg_id"@, i);
                    assert(body[at].0 == "msg_id"@);
                }
            }
        },
    }
    let reply_at: int = if response.message_id is Some { 2 } else { 1 };
    match response.in_reply_to {
        Some(id) => {
            assert(body[reply_at] == head[reply_at]);
            assert(body[0] == head[0]);
            if response.message_id is Some {
                assert(body[1] == head[1]);
            }
            assert(first_at(body, "in_reply_to"@, reply_at));
            assert(JsonView::Int(id as int).as_u64() == Some(id));
        },
        None => {
            assert forall|i: int| 0 <= i < body.len() implies (#[trigger] body[i]).0
                != "in_reply_to"@ by {
                if i < head.len() {
                    assert(body[i] == head[i]);
                }
            }
            assert(!has_field(body, "in_reply_to"@)) by {
                if has_field(body, "in_reply_to"@) {
                    let at = choose|i: int| first_at(body, "in_reply_to"@, i);
                    assert(body[at].0 == "in_reply_to"@);
                }
            }
        },
    }
    assert(optional_id(body, "msg_id"@) == Ok::<_, Error>(response.message_id));
    assert(optional_id(body, "in_reply_to"@) == Ok::<_, Error>(response.in_reply_to));
    // Without the header what is left is the payload.
    let one = without_field(body, "type"@);
    assert(one =~= head.drop_first() + extra);
    let two = without_field(one, "msg_id"@);
    match response.message_id {
        Some(id) => {
            assert(one[0] == head[1]);
            assert(first_at(one, "msg_id"@, 0));
            assert(two =~= head.drop_first().drop_first() + extra);
        },
        None => {
            assert(!has_field(one, "msg_id"@)) by {
                if has_field(one, "msg_id"@) {
                    let at = choose|i: int| first_at(one, "msg_id"@, i);
                    assert(one[at] == body[at + 1]);
                }
            }
            assert(two =~= head.drop_first() + extra);
        },
    }
    let three = without_field(two, "in_reply_to"@);
    match response.in_reply_to {
        Some(id) => {
            assert(two[0] == head[reply_at]);
            assert(first_at(two, "in_reply_to"@, 0));
            assert(three =~= extra);
        },
        None => {
            assert(two =~= extra);
            assert(!has_field(two, "in_reply_to"@)) by {
                if has_field(two, "in_reply_to"@) {
                    let at = choose|i: int| first_at(two, "in_reply_to"@, i);
                    assert(extra[at].0 == "in_reply_to"@);
                }
            }
        },
    }
    assert(payload(body) == extra);
}

/// Reads the id that `body` holds under `key`.
pub fn read_id(body: &Fields, key: &str) -> (r: Result<Option<u64>, Error>)
    ensures
        r == optional_id(view_fields(body@), key@),
{
    match get(body, key) {
        None => Ok(None),
        Some(value) => match value.as_u64() {
            Some(id) => Ok(Some(id)),
            None => Err(Error::Protocol),
        },
    }
}

/// Reads the string that `fields` holds under `key`.
pub fn read_text(fields: &Fields, key: &str) -> (r: Option<String>)
    ensures
        match field(view_fields(fields@), key@) {
            Some(JsonView::Text(text)) => r matches Some(s) && s@ == text,
            _ => r is None,
        },
{
    match get(fields, key) {
        Some(value) => match value.as_text() {
            Some(text) => Some(text.clone()),
            None => None,
        },
        None => None,
    }
}

/// Reads a request out of a JSON value.
pub fn decode(json: &Json) -> (r: Result<Request, Error>)
    ensures
        match decoded(json@) {
            Ok(request) => r matches Ok(read) && read@ == request,
            Err(error) => r == Err::<Request, _>(error),
        },
{
    let top = match json.as_object() {
        Some(top) => top,
        None => {
            return Err(Error::Protocol);
        },
    };
    let source = match read_text(top, "src") {
        Some(source) => source,
        None => {
            return Err(Error::Protocol);
        },
    };
    let destination = match read_text(top, "dest") {
        Some(destination) => destination,
        None => {
            return Err(Error::Protocol);
        },
    };
    let whole = match get(top, "body") {
        Some(value) => match value.as_object() {
            Some(whole) => whole,
            None => {
                return Err(Error::Protocol);
            },
        },
        None => {
            return Err(Error::Protocol);
        },
    };
    let message_type = match read_text(whole, "type") {
        Some(message_type) => message_type,
        None => {
            return Err(Error::Protocol);
        },
    };
    let message_id = match read_id(whole, "msg_id") {
        Ok(message_id) => message_id,
        Err(error) => {
            return Err(error);
        },
    };
    let in_reply_to = match read_id(whole, "in_reply_to") {
        Ok(in_reply_to) => in_reply_to,
        Err(error) => {
            return Err(error);
        },
    };
    let mut body = copy_fields(whole);
    take(&mut body, "type");
    take(&mut body, "msg_id");
    take(&mut body, "in_reply_to");
    Ok(Request { source, destination, message_type, message_id, in_reply_to, body })
}

/// Reads out of a JSON value that is no request what it takes to tell its
/// sender so.
pub fn correlate(json: &Json) -> (r: Option<Request>)
    ensures
        match correlated(json@) {
            Some(request) => r matches Some(read) && read@ == request,
            None => r is None,
        },
{
    let top = match json.as_object() {
        Some(top) => top,
        None => {
            return None;
        },
    };
    let source = match read_text(top, "src") {
        Some(source) => source,
        None => {
            return None;
        },
    };
    let destination = match read_text(top, "dest") {
        Some(destination) => destination,
        None => {
            return None;
        },
    };
    let whole = match get(top, "body") {
        Some(value) => match value.as_object() {
            Some(whole) => whole,
            None => {
                return None;
            },
        },
        None => {
            return None;
        },
    };
    let message_id = match read_id(whole, "msg_id") {
        Ok(Some(message_id)) => message_id,
        _ => {
            return None;
        },
    };
    let body: Fields = Vec::new();
    assert(view_fields(body@) =~= Seq::empty());
    Some(
        Request {
            source,
            destination,
            message_type: String::new(),
            message_id: Some(message_id),
            in_reply_to: None,
            body,
        },
    )
}

/// Writes a response as a JSON value.
pub fn encode(response: &Response) -> (r: Json)
    ensures
        r@ == encoded(response@),
{
    let mut body: Fields = Vec::new();
    body.push(("type".to_owned(), Json::Text(response.message_type.clone())));
    if let Some(id) = response.message_id {
        body.push(("msg_id".to_owned(), Json::Int(id as i128)));
    }
    if let Some(id) = response.in_reply_to {
        body.push(("in_reply_to".to_owned(), Json::Int(id as i128)));
    }
    assert(view_fields(body@) =~= header(response@));
    let ghost extra = response@.body;
    let mut i: usize = 0;
    while i < response.body.len()
        invariant
            i <= response.body.len(),
            extra == view_fields(response.body@),
            view_fields(body@) == with_fields(header(response@), extra.take(i as int)),
        decreases response.body.len() - i,
    {
        proof {
            assert(extra.take(i + 1).drop_last() =~= extra.take(i as int));
        }
        put(&mut body, response.body[i].0.as_str(), response.body[i].1.clone());
        i += 1;
    }
    assert(extra.take(i as int) =~= extra);
    let mut top: Fields = Vec::new();
    top.push(("src".to_owned(), Json::Text(response.source.clone())));
    top.push(("dest".to_owned(), Json::Text(response.destination.clone())));
    proof {
        lemma_object_view(body);
    }
    top.push(("body".to_owned(), Json::Object(body)));
    proof {
        lemma_object_view(top);
        assert(view_fields(top@) =~= encoded(response@)->Object_0);
    }
    Json::Object(top)
}

} // verus!
