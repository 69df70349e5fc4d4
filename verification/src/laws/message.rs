//! What calls on messages come to: writing them, reading them, and making them.

use vstd::prelude::*;

verus! {

use crate::error::{
    error_code_number_round_trip, error_code_round_trip, error_is_read_from_its_members,
    error_is_written_in_order, error_object_holds_the_error, other_values_are_no_error, ErrorCode,
    ResponseError,
};
use crate::json::{json, name_text, value_text, JsonView, NumberView};
use crate::message::{
    error_response_is_read_from_its_members, has_member_named, has_string, has_value,
    is_headed_as_response, is_id_value, message_views_hold_their_fields,
    notification_is_read_from_its_members, notification_is_written_in_order,
    notification_object_holds_the_notification, other_values_are_no_message,
    repeated_members_are_those_of_the_message, request_is_read_from_its_members,
    request_is_written_in_order, request_object_holds_the_request, response_is_written_in_order,
    response_object_holds_the_response, result_is_read_from_its_members, MemberNames, Message,
    Notification, Request, Response, ResponseBody,
};
use crate::request_id::{
    id_is_its_number_or_string, id_prints_as_its_number_or_string, strings_and_integers_are_ids,
    RequestId,
};
use crate::text::{all_digits, number_of};
use serde_json::Value;

/// The text of an optional member behind others.
pub open spec fn optional_member_text(name: Seq<char>, v: Option<Value>) -> Seq<u8> {
    match v {
        Some(v) => seq![',' as u8] + name_text(name) + value_text(json(v)),
        None => Seq::empty(),
    }
}

/// The JSON value of an identifier.
pub open spec fn id_json(id: RequestId) -> JsonView {
    match id {
        RequestId::Integer(n) => JsonView::Number(NumberView::Integer(n as int)),
        RequestId::String(s) => JsonView::String(s@),
    }
}

/// A request is written with what it holds, in the order `jsonrpc`, `id`, `method`, `params`.
pub proof fn request_is_written(m: &Request, r: Result<Vec<u8>, serde_json::Error>)
    requires
        call_ensures(Request::to_text, (m,), r),
    ensures
        r matches Ok(text) && text@ == seq!['{' as u8] + name_text("jsonrpc"@) + value_text(
            JsonView::String(m.jsonrpc@),
        ) + seq![',' as u8] + name_text("id"@) + value_text(id_json(m.id)) + seq![',' as u8]
            + name_text("method"@) + value_text(JsonView::String(m.method@)) + optional_member_text(
            "params"@,
            m.params,
        ) + seq!['}' as u8],
{
    request_is_written_in_order(m@);
}

/// A notification is written with what it holds, in the order `jsonrpc`, `method`, `params`.
pub proof fn notification_is_written(m: &Notification, r: Result<Vec<u8>, serde_json::Error>)
    requires
        call_ensures(Notification::to_text, (m,), r),
    ensures
        r matches Ok(text) && text@ == seq!['{' as u8] + name_text("jsonrpc"@) + value_text(
            JsonView::String(m.jsonrpc@),
        ) + seq![',' as u8] + name_text("method"@) + value_text(JsonView::String(m.method@))
            + optional_member_text("params"@, m.params) + seq!['}' as u8],
{
    notification_is_written_in_order(m@);
}

/// A response is written with what it holds, in the order `jsonrpc`, `id`, `result` or `error`. A
/// result is written as the value that it is, and an error in the order `code`, `message`, `data`.
pub proof fn response_is_written(m: &Response, r: Result<Vec<u8>, serde_json::Error>)
    requires
        call_ensures(Response::to_text, (m,), r),
    ensures
        r matches Ok(text) && text@ == seq!['{' as u8] + name_text("jsonrpc"@) + value_text(
            JsonView::String(m.jsonrpc@),
        ) + seq![',' as u8] + name_text("id"@) + value_text(
            match m.id {
                Some(id) => id_json(id),
                None => JsonView::Null,
            },
        ) + seq![',' as u8] + (match m.body {
            ResponseBody::Result(v) => name_text("result"@) + value_text(json(v)),
            ResponseBody::Error(e) => name_text("error"@) + error_text(e),
        }) + seq!['}' as u8],
{
    response_is_written_in_order(m@);
    if let ResponseBody::Error(e) = m.body {
        error_is_written_in_order(e@);
    }
}

/// The text of an error with what it holds, in the order `code`, `message`, `data`.
pub open spec fn error_text(e: ResponseError) -> Seq<u8> {
    seq!['{' as u8] + name_text("code"@) + value_text(
        JsonView::Number(NumberView::Integer(e.code as int)),
    ) + seq![',' as u8] + name_text("message"@) + value_text(JsonView::String(e.message@))
        + optional_member_text("data"@, e.data) + seq!['}' as u8]
}

/// An error is written with what it holds, in the order `code`, `message`, `data`.
pub proof fn error_is_written(e: &ResponseError, r: Result<Vec<u8>, serde_json::Error>)
    requires
        call_ensures(ResponseError::to_text, (e,), r),
    ensures
        r matches Ok(text) && text@ == error_text(*e),
{
    error_is_written_in_order(e@);
}

/// A message is written as the request, the response or the notification that it is.
pub proof fn message_is_written(m: &Message, r: Result<Vec<u8>, serde_json::Error>)
    requires
        call_ensures(Message::to_text, (m,), r),
    ensures
        m matches Message::Request(a) ==> r matches Ok(text) && text@ == seq!['{' as u8]
            + name_text("jsonrpc"@) + value_text(JsonView::String(a.jsonrpc@)) + seq![',' as u8]
            + name_text("id"@) + value_text(id_json(a.id)) + seq![',' as u8] + name_text("method"@)
            + value_text(JsonView::String(a.method@)) + optional_member_text("params"@, a.params)
            + seq!['}' as u8],
        m matches Message::Response(a) ==> r matches Ok(text) && text@ == seq!['{' as u8]
            + name_text("jsonrpc"@) + value_text(JsonView::String(a.jsonrpc@)) + seq![',' as u8]
            + name_text("id"@) + value_text(
            match a.id {
                Some(id) => id_json(id),
                None => JsonView::Null,
            },
        ) + seq![',' as u8] + (match a.body {
            ResponseBody::Result(v) => name_text("result"@) + value_text(json(v)),
            ResponseBody::Error(e) => name_text("error"@) + error_text(e),
        }) + seq!['}' as u8],
        m matches Message::Notification(a) ==> r matches Ok(text) && text@ == seq!['{' as u8]
            + name_text("jsonrpc"@) + value_text(JsonView::String(a.jsonrpc@)) + seq![',' as u8]
            + name_text("method"@) + value_text(JsonView::String(a.method@)) + optional_member_text(
            "params"@,
            a.params,
        ) + seq!['}' as u8],
{
    match *m {
        Message::Request(a) => {
            request_is_written_in_order(a@);
        },
        Message::Response(a) => {
            response_is_written_in_order(a@);
            if let ResponseBody::Error(e) = a.body {
                error_is_written_in_order(e@);
            }
        },
        Message::Notification(a) => {
            notification_is_written_in_order(a@);
        },
    }
}

/// The object of a message holds under `jsonrpc`, `id`, `method`, `params`, `result` and `error`
/// what the message holds, as far as it has them, and nothing else.
pub proof fn message_becomes_its_object(m: Message, r: Value)
    requires
        call_ensures(Message::into_value, (m,), r),
    ensures
        json(r) matches JsonView::Object(o) && match m {
            Message::Request(m) => {
                &&& forall|k: Seq<char>| #[trigger]
                    o.contains_key(k) <==> k == "jsonrpc"@ || k == "id"@ || k == "method"@ || (k
                        == "params"@ && m.params is Some)
                &&& o["jsonrpc"@] == JsonView::String(m.jsonrpc@)
                &&& o["id"@] == id_json(m.id)
                &&& o["method"@] == JsonView::String(m.method@)
                &&& m.params matches Some(v) ==> o["params"@] == json(v)
            },
            Message::Response(m) => {
                &&& forall|k: Seq<char>| #[trigger]
                    o.contains_key(k) <==> k == "jsonrpc"@ || k == "id"@ || (k == "result"@
                        && m.body is Result) || (k == "error"@ && m.body is Error)
                &&& o["jsonrpc"@] == JsonView::String(m.jsonrpc@)
                &&& m.id matches Some(id) ==> o["id"@] == id_json(id)
                &&& m.id is None ==> o["id"@] == JsonView::Null
                &&& m.body matches ResponseBody::Result(v) ==> o["result"@] == json(v)
                &&& m.body matches ResponseBody::Error(e) ==> is_error_object(o["error"@], e)
            },
            Message::Notification(m) => {
                &&& forall|k: Seq<char>| #[trigger]
                    o.contains_key(k) <==> k == "jsonrpc"@ || k == "method"@ || (k == "params"@
                        && m.params is Some)
                &&& o["jsonrpc"@] == JsonView::String(m.jsonrpc@)
                &&& o["method"@] == JsonView::String(m.method@)
                &&& m.params matches Some(v) ==> o["params"@] == json(v)
            },
        },
{
    match m {
        Message::Request(a) => {
            request_object_holds_the_request(a@);
        },
        Message::Response(a) => {
            response_object_holds_the_response(a@);
        },
        Message::Notification(a) => {
            notification_object_holds_the_notification(a@);
        },
    }
}

/// The value is an object that holds the code, the message and the data of the error, and nothing
/// else.
pub open spec fn is_error_object(v: JsonView, e: ResponseError) -> bool {
    v matches JsonView::Object(p) && {
        &&& forall|k: Seq<char>| #[trigger]
            p.contains_key(k) <==> k == "code"@ || k == "message"@ || (k == "data"@
                && e.data is Some)
        &&& p["code"@] == JsonView::Number(NumberView::Integer(e.code as int))
        &&& p["message"@] == JsonView::String(e.message@)
        &&& e.data matches Some(d) ==> p["data"@] == json(d)
    }
}

/// The parts of a message become its object one by one: a request, a response, a notification or an
/// error gives the same object as the message that holds it.
pub proof fn parts_become_their_objects(
    request: Request,
    request_value: Value,
    response: Response,
    response_value: Value,
    notification: Notification,
    notification_value: Value,
    error: ResponseError,
    error_value: Value,
)
    requires
        call_ensures(Request::into_value, (request,), request_value),
        call_ensures(Response::into_value, (response,), response_value),
        call_ensures(Notification::into_value, (notification,), notification_value),
        call_ensures(ResponseError::into_value, (error,), error_value),
    ensures
        forall|v: Value| #[trigger]
            call_ensures(Message::into_value, (Message::Request(request),), v) ==> json(v) == json(
                request_value,
            ),
        forall|v: Value| #[trigger]
            call_ensures(Message::into_value, (Message::Response(response),), v) ==> json(v)
                == json(response_value),
        forall|v: Value| #[trigger]
            call_ensures(Message::into_value, (Message::Notification(notification),), v) ==> json(v)
                == json(notification_value),
        is_error_object(json(error_value), error),
{
    error_object_holds_the_error(error@);
}

/// The option holds what stands under the name, where `null` is the same as nothing.
pub open spec fn holds_member(
    v: Option<Value>,
    o: Map<Seq<char>, JsonView>,
    name: Seq<char>,
) -> bool {
    if has_value(o, name) {
        v matches Some(v) && json(v) == o[name]
    } else {
        v is None
    }
}

/// An object with an identifier under `id` and strings under `jsonrpc` and `method` is read as the
/// request that holds them.
pub proof fn request_is_read(v: Value, r: Option<Message>, o: Map<Seq<char>, JsonView>)
    requires
        call_ensures(Message::from_value, (v,), r),
        json(v) == JsonView::Object(o),
        has_string(o, "jsonrpc"@),
        has_string(o, "method"@),
        o.contains_key("id"@),
        is_id_value(o["id"@]),
    ensures
        r matches Some(Message::Request(m)) && {
            &&& o["jsonrpc"@] == JsonView::String(m.jsonrpc@)
            &&& o["id"@] == id_json(m.id)
            &&& o["method"@] == JsonView::String(m.method@)
            &&& holds_member(m.params, o, "params"@)
        },
{
    request_is_read_from_its_members(o);
}

/// An object with strings under `jsonrpc` and `method` and nothing under `id` is read as the
/// notification that holds them.
pub proof fn notification_is_read(v: Value, r: Option<Message>, o: Map<Seq<char>, JsonView>)
    requires
        call_ensures(Message::from_value, (v,), r),
        json(v) == JsonView::Object(o),
        has_string(o, "jsonrpc"@),
        has_string(o, "method"@),
        !o.contains_key("id"@),
    ensures
        r matches Some(Message::Notification(m)) && {
            &&& o["jsonrpc"@] == JsonView::String(m.jsonrpc@)
            &&& o["method"@] == JsonView::String(m.method@)
            &&& holds_member(m.params, o, "params"@)
        },
{
    notification_is_read_from_its_members(o);
}

/// The response holds this identifier, or none if this is `null`.
pub open spec fn has_response_id(m: Response, id: JsonView) -> bool {
    match m.id {
        Some(rid) => id == id_json(rid),
        None => id == JsonView::Null,
    }
}

/// An object that is headed as a response, and has something under `result` and nothing but `null`
/// under `error`, is read as the response whose result is that very value.
pub proof fn result_is_read(v: Value, r: Option<Message>, o: Map<Seq<char>, JsonView>)
    requires
        call_ensures(Message::from_value, (v,), r),
        json(v) == JsonView::Object(o),
        is_headed_as_response(o),
        o.contains_key("result"@),
        !has_value(o, "error"@),
    ensures
        r matches Some(Message::Response(m)) && {
            &&& o["jsonrpc"@] == JsonView::String(m.jsonrpc@)
            &&& has_response_id(m, o["id"@])
            &&& m.body matches ResponseBody::Result(w) && json(w) == o["result"@]
        },
{
    result_is_read_from_its_members(o);
}

/// An object that is headed as a response, and has an error object under `error` and nothing but
/// `null` under `result`, is read as the response with that error.
pub proof fn error_is_read(
    v: Value,
    r: Option<Message>,
    o: Map<Seq<char>, JsonView>,
    p: Map<Seq<char>, JsonView>,
    code: i32,
    message: Seq<char>,
)
    requires
        call_ensures(Message::from_value, (v,), r),
        json(v) == JsonView::Object(o),
        is_headed_as_response(o),
        !has_value(o, "result"@),
        o.contains_key("error"@),
        o["error"@] == JsonView::Object(p),
        p.contains_key("code"@),
        p["code"@] == JsonView::Number(NumberView::Integer(code as int)),
        p.contains_key("message"@),
        p["message"@] == JsonView::String(message),
    ensures
        r matches Some(Message::Response(m)) && {
            &&& o["jsonrpc"@] == JsonView::String(m.jsonrpc@)
            &&& has_response_id(m, o["id"@])
            &&& m.body matches ResponseBody::Error(e) && e.code == code && e.message@ == message
                && holds_member(e.data, p, "data"@)
        },
{
    error_response_is_read_from_its_members(o, p, code, message);
}

/// The value is an object with an integer of 32 bits under `code` and a string under `message`.
pub open spec fn is_error_value(v: JsonView) -> bool {
    v matches JsonView::Object(p) && {
        &&& has_string(p, "message"@)
        &&& p.contains_key("code"@)
        &&& p["code"@] matches JsonView::Number(NumberView::Integer(n)) && -0x8000_0000 <= n
            <= 0x7fff_ffff
    }
}

/// No other value is read as a message.
pub proof fn other_values_are_not_read(v: Value, r: Option<Message>)
    requires
        call_ensures(Message::from_value, (v,), r),
        json(v) matches JsonView::Object(o) ==> {
            ||| !has_string(o, "jsonrpc"@)
            ||| has_value(o, "id"@) && !is_id_value(o["id"@])
            ||| !o.contains_key("id"@) && !has_string(o, "method"@)
            ||| is_headed_as_response(o) && !o.contains_key("result"@) && !has_value(o, "error"@)
            ||| is_headed_as_response(o) && has_value(o, "result"@) && has_value(o, "error"@)
            ||| is_headed_as_response(o) && has_value(o, "error"@) && !is_error_value(o["error"@])
        },
    ensures
        r is None,
{
    if let JsonView::Object(o) = json(v) {
        if !is_error_value(o["error"@]) {
            other_values_are_no_error(o["error"@]);
        }
    }
    other_values_are_no_message(json(v));
}

/// The constructors make messages that hold what they are given, of protocol version 2.0.
pub proof fn constructors_hold_what_they_are_given(
    id: RequestId,
    method: String,
    params: Option<Value>,
    result: Value,
    error: ResponseError,
    request: Request,
    notification: Notification,
    success: Response,
    failure: Response,
    unparsed: Response,
)
    requires
        call_ensures(Request::new, (id, method, params), request),
        call_ensures(Notification::new, (method, params), notification),
        call_ensures(Response::ok, (id, result), success),
        call_ensures(Response::err, (id, error), failure),
        call_ensures(Response::parse_error, (error,), unparsed),
    ensures
        request.jsonrpc@ == "2.0"@ && request.id@ == id@ && request.method@ == method@
            && request.params == params,
        notification.jsonrpc@ == "2.0"@ && notification.method@ == method@ && notification.params
            == params,
        success.jsonrpc@ == "2.0"@ && success.id == Some(id) && success.body
            == ResponseBody::Result(result),
        failure.jsonrpc@ == "2.0"@ && failure.id == Some(id) && failure.body
            == ResponseBody::Error(error),
        unparsed.jsonrpc@ == "2.0"@ && unparsed.id is None && unparsed.body == ResponseBody::Error(
            error,
        ),
{
}

/// What a message is, and what it is opened as: exactly one of the three kinds.
pub proof fn message_is_of_one_kind(
    m: Message,
    is_request: bool,
    is_response: bool,
    is_notification: bool,
    request: Option<Request>,
    response: Option<Response>,
    notification: Option<Notification>,
)
    requires
        call_ensures(Message::is_request, (&m,), is_request),
        call_ensures(Message::is_response, (&m,), is_response),
        call_ensures(Message::is_notification, (&m,), is_notification),
        call_ensures(Message::into_request, (m,), request),
        call_ensures(Message::into_response, (m,), response),
        call_ensures(Message::into_notification, (m,), notification),
    ensures
        m matches Message::Request(a) ==> is_request && !is_response && !is_notification && request
            == Some(a) && response is None && notification is None,
        m matches Message::Response(a) ==> !is_request && is_response && !is_notification
            && request is None && response == Some(a) && notification is None,
        m matches Message::Notification(a) ==> !is_request && !is_response && is_notification
            && request is None && response is None && notification == Some(a),
{
}

/// A look at a message shows what it is opened as.
pub proof fn look_at_a_message_shows_it(
    m: &Message,
    request: Option<&Request>,
    response: Option<&Response>,
    notification: Option<&Notification>,
)
    requires
        call_ensures(Message::as_request, (m,), request),
        call_ensures(Message::as_response, (m,), response),
        call_ensures(Message::as_notification, (m,), notification),
    ensures
        m matches Message::Request(a) ==> request == Some(a) && response is None
            && notification is None,
        m matches Message::Response(a) ==> request is None && response == Some(a)
            && notification is None,
        m matches Message::Notification(a) ==> request is None && response is None && notification
            == Some(a),
{
}

/// A response shows and gives out the result or the error that it carries, and never both.
pub proof fn response_shows_its_body(
    m: Response,
    result: Option<&Value>,
    error: Option<&ResponseError>,
    taken_result: Option<Value>,
    taken_error: Option<ResponseError>,
)
    requires
        call_ensures(Response::result, (&m,), result),
        call_ensures(Response::error, (&m,), error),
        call_ensures(Response::into_result, (m,), taken_result),
        call_ensures(Response::into_error, (m,), taken_error),
    ensures
        m.body matches ResponseBody::Result(v) ==> result == Some(&v) && error is None
            && taken_result == Some(v) && taken_error is None,
        m.body matches ResponseBody::Error(e) ==> result is None && error == Some(&e)
            && taken_result is None && taken_error == Some(e),
{
}

/// The two options hold the same JSON value, or none.
pub open spec fn same_json(a: Option<Value>, b: Option<Value>) -> bool {
    match (a, b) {
        (Some(a), Some(b)) => json(a) == json(b),
        (None, None) => true,
        _ => false,
    }
}

/// A clone of a message holds the same as the message.
pub proof fn clone_holds_the_same(
    request: Request,
    request_clone: Request,
    response: Response,
    response_clone: Response,
    notification: Notification,
    notification_clone: Notification,
    error: ResponseError,
    error_clone: ResponseError,
    id: RequestId,
    id_clone: RequestId,
)
    requires
        call_ensures(<Request as Clone>::clone, (&request,), request_clone),
        call_ensures(<Response as Clone>::clone, (&response,), response_clone),
        call_ensures(<Notification as Clone>::clone, (&notification,), notification_clone),
        call_ensures(<ResponseError as Clone>::clone, (&error,), error_clone),
        call_ensures(<RequestId as Clone>::clone, (&id,), id_clone),
    ensures
        request_clone.jsonrpc@ == request.jsonrpc@ && request_clone.id@ == request.id@
            && request_clone.method@ == request.method@ && same_json(
            request.params,
            request_clone.params,
        ),
        response_clone.jsonrpc@ == response.jsonrpc@,
        match (response.id, response_clone.id) {
            (Some(a), Some(b)) => a@ == b@,
            (None, None) => true,
            _ => false,
        },
        match (response.body, response_clone.body) {
            (ResponseBody::Result(a), ResponseBody::Result(b)) => json(a) == json(b),
            (ResponseBody::Error(a), ResponseBody::Error(b)) => a.code == b.code && a.message@
                == b.message@ && same_json(a.data, b.data),
            _ => false,
        },
        notification_clone.jsonrpc@ == notification.jsonrpc@ && notification_clone.method@
            == notification.method@ && same_json(notification.params, notification_clone.params),
        error_clone.code == error.code && error_clone.message@ == error.message@ && same_json(
            error.data,
            error_clone.data,
        ),
        id_clone == id,
{
    message_views_hold_their_fields(request, response, notification);
    message_views_hold_their_fields(request_clone, response_clone, notification_clone);
}

/// A message is made of its request, response or notification as it is.
pub proof fn message_is_made_of_its_part(
    request: Request,
    response: Response,
    notification: Notification,
    a: Message,
    b: Message,
    c: Message,
)
    requires
        call_ensures(<Message as From<Request>>::from, (request,), a),
        call_ensures(<Message as From<Response>>::from, (response,), b),
        call_ensures(<Message as From<Notification>>::from, (notification,), c),
    ensures
        a == Message::Request(request),
        b == Message::Response(response),
        c == Message::Notification(notification),
{
}

/// A text repeats a member of its message if a name that such messages have stands in it twice, or,
/// for an error response, a name that errors have stands twice in the error.
pub proof fn repeated_members_are_told(m: &Message, names: &MemberNames, r: bool)
    requires
        call_ensures(Message::repeats_member, (m, names), r),
    ensures
        r <==> {
            ||| exists|i: int, j: int|
                0 <= i < j < names.message@.len() && (#[trigger] names.message@[i])@ == (
                #[trigger] names.message@[j])@ && has_member_named(m@, names.message@[i]@)
            ||| m matches Message::Response(a) && a.body is Error && exists|i: int, j: int|
                0 <= i < j < names.error@.len() && (#[trigger] names.error@[i])@ == (
                #[trigger] names.error@[j])@ && (names.error@[i]@ == "code"@ || names.error@[i]@
                    == "message"@ || names.error@[i]@ == "data"@)
        },
{
    repeated_members_are_those_of_the_message(m@, names@);
    assert forall|i: int| 0 <= i < names.message@.len() implies #[trigger] names@.message[i]
        == names.message@[i]@ by {}
    assert forall|i: int| 0 <= i < names.error@.len() implies #[trigger] names@.error[i]
        == names.error@[i]@ by {}
    if exists|i: int, j: int|
        0 <= i < j < names.message@.len() && (#[trigger] names.message@[i])@ == (
        #[trigger] names.message@[j])@ && has_member_named(m@, names.message@[i]@) {
        let (i, j) = choose|i: int, j: int|
            0 <= i < j < names.message@.len() && (#[trigger] names.message@[i])@ == (
            #[trigger] names.message@[j])@ && has_member_named(m@, names.message@[i]@);
        assert(names@.message[i] == names@.message[j]);
    }
    if exists|i: int, j: int|
        0 <= i < j < names.error@.len() && (#[trigger] names.error@[i])@ == (
        #[trigger] names.error@[j])@ && (names.error@[i]@ == "code"@ || names.error@[i]@
            == "message"@ || names.error@[i]@ == "data"@) {
        let (i, j) = choose|i: int, j: int|
            0 <= i < j < names.error@.len() && (#[trigger] names.error@[i])@ == (
            #[trigger] names.error@[j])@ && (names.error@[i]@ == "code"@ || names.error@[i]@
                == "message"@ || names.error@[i]@ == "data"@);
        assert(names@.error[i] == names@.error[j]);
    }
}

/// An error holds the code, the message and the data that it is made of.
pub proof fn error_holds_what_it_is_made_of(
    code: ErrorCode,
    number: i32,
    message: String,
    data: Value,
    known: ResponseError,
    raw: ResponseError,
    full: ResponseError,
)
    requires
        call_ensures(ResponseError::new, (code, message), known),
        call_ensures(ResponseError::new_raw, (number, message), raw),
        call_ensures(ResponseError::with_data, (raw, data), full),
    ensures
        known.code == code.number() && known.message@ == message@ && known.data is None,
        raw.code == number && raw.message@ == message@ && raw.data is None,
        full.code == number && full.message@ == message@ && full.data == Some(data),
{
}

/// The number of a code, and the code of a number, if it is one of a code.
pub proof fn codes_and_numbers_convert(
    code: ErrorCode,
    number: i32,
    n: i32,
    found: Result<ErrorCode, i32>,
    error: ResponseError,
    known: Option<ErrorCode>,
)
    requires
        call_ensures(<i32 as From<ErrorCode>>::from, (code,), n),
        call_ensures(<ErrorCode as TryFrom<i32>>::try_from, (number,), found),
        call_ensures(ResponseError::error_code, (&error,), known),
    ensures
        n == code.number(),
        number == code.number() ==> found == Ok::<ErrorCode, i32>(code),
        found matches Ok(c) ==> c.number() == number,
        found matches Err(m) ==> m == number && forall|c: ErrorCode| #[trigger] c.number() != number,
        error.code == code.number() ==> known == Some(code),
        known matches Some(c) ==> c.number() == error.code,
        known is None ==> forall|c: ErrorCode| #[trigger] c.number() != error.code,
{
    error_code_round_trip(code);
    error_code_number_round_trip(number);
    error_code_number_round_trip(error.code);
}

/// An error is read from an object with an integer of 32 bits under `code` and a string under
/// `message`, and from no other value.
pub proof fn error_value_is_read(v: Value, r: Option<ResponseError>)
    requires
        call_ensures(ResponseError::from_value, (v,), r),
    ensures
        r is Some <==> is_error_value(json(v)),
        r matches Some(e) ==> (json(v) matches JsonView::Object(p) && {
            &&& p["code"@] == JsonView::Number(NumberView::Integer(e.code as int))
            &&& p["message"@] == JsonView::String(e.message@)
            &&& holds_member(e.data, p, "data"@)
        }),
{
    if is_error_value(json(v)) {
        let p = json(v)->Object_0;
        let code = p["code"@]->Number_0->Integer_0 as i32;
        error_is_read_from_its_members(p, code, p["message"@]->String_0);
    } else {
        other_values_are_no_error(json(v));
    }
}

/// An identifier becomes the number or the string that it is, and is read back from it. Values that
/// are neither a string nor an integer of 32 bits are no identifier.
pub proof fn id_becomes_its_value(id: RequestId, value: Value, v: Value, read: Option<RequestId>)
    requires
        call_ensures(RequestId::into_value, (id,), value),
        call_ensures(RequestId::from_value, (v,), read),
    ensures
        json(value) == id_json(id),
        read is Some <==> is_id_value(json(v)),
        read matches Some(r) ==> id_json(r) == json(v),
        json(v) == json(value) ==> read is Some && read->0@ == id@,
{
    strings_and_integers_are_ids(json(v));
    id_is_its_number_or_string(0, Seq::empty());
}

/// An identifier prints as its string, or as the digits of its number, behind a minus sign if that
/// is negative.
pub proof fn id_is_printed(id: RequestId, r: String)
    requires
        call_ensures(RequestId::to_string, (&id,), r),
    ensures
        id matches RequestId::String(s) ==> r@ == s@,
        id matches RequestId::Integer(n) ==> exists|digits: Seq<char>| #[trigger]
            all_digits(digits) && digits.len() > 0 && (digits[0] == '0' ==> digits.len() == 1) && (
            n >= 0 ==> number_of(digits) == n && r@ == digits) && (n < 0 ==> number_of(digits) == -n
                && r@ == seq!['-'] + digits),
{
    if let RequestId::Integer(n) = id {
        id_prints_as_its_number_or_string(n, Seq::empty());
    }
}

/// Integers and strings become identifiers of their own kind.
pub proof fn ids_are_made_of_their_value(
    n: i32,
    s: String,
    t: &str,
    a: RequestId,
    b: RequestId,
    c: RequestId,
)
    requires
        call_ensures(<RequestId as From<i32>>::from, (n,), a),
        call_ensures(<RequestId as From<String>>::from, (s,), b),
        call_ensures(<RequestId as From<&str>>::from, (t,), c),
    ensures
        a == RequestId::Integer(n),
        b == RequestId::String(s),
        c matches RequestId::String(u) && u@ == t@,
{
}

} // verus!
