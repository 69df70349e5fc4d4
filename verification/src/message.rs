//! The messages of JSON-RPC 2.0: requests, responses and notifications.
//!
//! A message is told by its members:
//! - **Request**: has `id` AND `method`
//! - **Response**: has `id` AND (`result` OR `error`)
//! - **Notification**: has `method` but NO `id`

use vstd::prelude::*;

use crate::error::ResponseError;
use crate::json::{
    clone_in, close, drop_null, insert_member, into_text, new_object, open, put_some, put_text,
    remove_member, Json, ObjectText,
};
use crate::request_id::RequestId;
use crate::text::text_eq;
use serde_json::Value;

verus! {

use crate::error::{
    error_doc_stands_for_json, error_is_read_from_its_members, error_json_round_trip,
    error_object_holds_the_error, ErrorView,
};
use crate::json::{
    as_text, doc_text, json, json_in, lemma_push_member, lemma_stands_for, member, members_json,
    members_text, name_text, no_members, non_null, stands_for, value_text, with_doc_member,
    with_member, DocMember, DocView, JsonView, NumberView,
};
use crate::request_id::{id_json_round_trip, strings_and_integers_are_ids, IdView};

/// A JSON-RPC 2.0 request message.
///
/// Requests have an `id` that is used to correlate responses, a `method` name,
/// and optional `params`. The server MUST respond to every request.
#[derive(Debug)]
pub struct Request {
    /// The JSON-RPC protocol version. Always "2.0".
    pub jsonrpc: String,
    /// The request id used to correlate request and response.
    pub id: RequestId,
    /// The method to be invoked.
    pub method: String,
    /// The method's params.
    pub params: Option<Value>,
}

/// What a response carries: a result or an error, never both.
#[derive(Debug)]
pub enum ResponseBody {
    /// The result of the request.
    Result(Value),
    /// The error that occurred.
    Error(ResponseError),
}

/// A JSON-RPC 2.0 response message.
///
/// The `id` field is `None` only for parse error responses where the request id
/// could not be determined.
#[derive(Debug)]
pub struct Response {
    /// The JSON-RPC protocol version. Always "2.0".
    pub jsonrpc: String,
    /// The request id. None for parse error responses.
    pub id: Option<RequestId>,
    /// The result or the error.
    pub body: ResponseBody,
}

/// A JSON-RPC 2.0 notification message.
///
/// Notifications do not require a response. They do NOT have an `id` field.
#[derive(Debug)]
pub struct Notification {
    /// The JSON-RPC protocol version. Always "2.0".
    pub jsonrpc: String,
    /// The method to be invoked.
    pub method: String,
    /// The notification's params.
    pub params: Option<Value>,
}

/// A JSON-RPC 2.0 message that can be a Request, Response, or Notification.
#[derive(Debug)]
pub enum Message {
    /// A request message (has `id` and `method`).
    Request(Request),
    /// A response message (has `id` with `result` or `error`).
    Response(Response),
    /// A notification message (has `method` but no `id`).
    Notification(Notification),
}

/// The mathematical value of a [`Request`].
pub struct RequestView {
    /// The protocol version.
    pub jsonrpc: Seq<char>,
    /// The request id.
    pub id: IdView,
    /// The method.
    pub method: Seq<char>,
    /// The params.
    pub params: Option<JsonView>,
}

/// The mathematical value of a [`ResponseBody`].
pub enum BodyView {
    /// A result.
    Result(JsonView),
    /// An error.
    Error(ErrorView),
}

/// The mathematical value of a [`Response`].
pub struct ResponseView {
    /// The protocol version.
    pub jsonrpc: Seq<char>,
    /// The request id.
    pub id: Option<IdView>,
    /// The result or the error.
    pub body: BodyView,
}

/// The mathematical value of a [`Notification`].
pub struct NotificationView {
    /// The protocol version.
    pub jsonrpc: Seq<char>,
    /// The method.
    pub method: Seq<char>,
    /// The params.
    pub params: Option<JsonView>,
}

/// The mathematical value of a [`Message`].
pub enum MessageView {
    /// A request.
    Request(RequestView),
    /// A response.
    Response(ResponseView),
    /// A notification.
    Notification(NotificationView),
}

/// The value inside an option, by its view.
pub open spec fn id_in(id: Option<RequestId>) -> Option<IdView> {
    match id {
        Some(id) => Some(id@),
        None => None,
    }
}

impl View for Request {
    type V = RequestView;

    open spec fn view(&self) -> RequestView {
        RequestView {
            jsonrpc: self.jsonrpc@,
            id: self.id@,
            method: self.method@,
            params: json_in(self.params),
        }
    }
}

impl View for ResponseBody {
    type V = BodyView;

    open spec fn view(&self) -> BodyView {
        match self {
            ResponseBody::Result(v) => BodyView::Result(json(*v)),
            ResponseBody::Error(e) => BodyView::Error(e@),
        }
    }
}

impl View for Response {
    type V = ResponseView;

    open spec fn view(&self) -> ResponseView {
        ResponseView { jsonrpc: self.jsonrpc@, id: id_in(self.id), body: self.body@ }
    }
}

impl View for Notification {
    type V = NotificationView;

    open spec fn view(&self) -> NotificationView {
        NotificationView {
            jsonrpc: self.jsonrpc@,
            method: self.method@,
            params: json_in(self.params),
        }
    }
}

impl View for Message {
    type V = MessageView;

    open spec fn view(&self) -> MessageView {
        match self {
            Message::Request(m) => MessageView::Request(m@),
            Message::Response(m) => MessageView::Response(m@),
            Message::Notification(m) => MessageView::Notification(m@),
        }
    }
}

impl RequestView {
    /// The JSON object that stands for this request. There is no `params` member without params.
    pub open spec fn to_json(self) -> JsonView {
        JsonView::Object(
            with_member(
                no_members().insert("jsonrpc"@, JsonView::String(self.jsonrpc)).insert(
                    "id"@,
                    self.id.to_json(),
                ).insert("method"@, JsonView::String(self.method)),
                "params"@,
                self.params,
            ),
        )
    }

    /// The document that this request is written as.
    pub open spec fn doc(self) -> DocView {
        DocView::Object(
            with_doc_member(
                Seq::empty().push(
                    DocMember {
                        key: "jsonrpc"@,
                        value: DocView::Value(JsonView::String(self.jsonrpc)),
                    },
                ).push(DocMember { key: "id"@, value: DocView::Value(self.id.to_json()) }).push(
                    DocMember {
                        key: "method"@,
                        value: DocView::Value(JsonView::String(self.method)),
                    },
                ),
                "params"@,
                self.params,
            ),
        )
    }

    /// The request that an object stands for: it has strings `jsonrpc` and `method` and an
    /// identifier `id`. A `null` under `params` is no params; other members are ignored.
    pub open spec fn of_members(o: Map<Seq<char>, JsonView>) -> Option<RequestView> {
        match (as_text(member(o, "jsonrpc"@)), member(o, "id"@), as_text(member(o, "method"@))) {
            (Some(jsonrpc), Some(id), Some(method)) => match IdView::of_json(id) {
                Some(id) => Some(
                    RequestView { jsonrpc, id, method, params: non_null(member(o, "params"@)) },
                ),
                None => None,
            },
            _ => None,
        }
    }
}

impl BodyView {
    /// The body that a `result` and an `error` member make. Exactly one of them is to be there,
    /// where a `null` error, or a `null` result beside an error, counts as not there.
    pub open spec fn of_parts(result: Option<JsonView>, error: Option<JsonView>) -> Option<
        BodyView,
    > {
        match non_null(error) {
            Some(e) => if non_null(result) is None {
                match ErrorView::of_json(e) {
                    Some(e) => Some(BodyView::Error(e)),
                    None => None,
                }
            } else {
                None
            },
            None => match result {
                Some(v) => Some(BodyView::Result(v)),
                None => None,
            },
        }
    }

    /// This body, with `null` error data left out.
    pub open spec fn normal(self) -> BodyView {
        match self {
            BodyView::Result(v) => BodyView::Result(v),
            BodyView::Error(e) => BodyView::Error(e.normal()),
        }
    }
}

impl ResponseView {
    /// The JSON object that stands for this response. The `id` is `null` where there is none.
    pub open spec fn to_json(self) -> JsonView {
        let head = no_members().insert("jsonrpc"@, JsonView::String(self.jsonrpc)).insert(
            "id"@,
            match self.id {
                Some(id) => id.to_json(),
                None => JsonView::Null,
            },
        );
        JsonView::Object(
            match self.body {
                BodyView::Result(v) => head.insert("result"@, v),
                BodyView::Error(e) => head.insert("error"@, e.to_json()),
            },
        )
    }

    /// The document that this response is written as.
    pub open spec fn doc(self) -> DocView {
        let head = Seq::empty().push(
            DocMember { key: "jsonrpc"@, value: DocView::Value(JsonView::String(self.jsonrpc)) },
        ).push(
            DocMember {
                key: "id"@,
                value: DocView::Value(
                    match self.id {
                        Some(id) => id.to_json(),
                        None => JsonView::Null,
                    },
                ),
            },
        );
        DocView::Object(
            match self.body {
                BodyView::Result(v) => head.push(
                    DocMember { key: "result"@, value: DocView::Value(v) },
                ),
                BodyView::Error(e) => head.push(DocMember { key: "error"@, value: e.doc() }),
            },
        )
    }

    /// The response that an object stands for: it has a string `jsonrpc`, an `id` that is an
    /// identifier or `null`, and a body. Other members are ignored.
    pub open spec fn of_members(o: Map<Seq<char>, JsonView>) -> Option<ResponseView> {
        match (
            as_text(member(o, "jsonrpc"@)),
            member(o, "id"@),
            BodyView::of_parts(member(o, "result"@), member(o, "error"@)),
        ) {
            (Some(jsonrpc), Some(id), Some(body)) => if id == JsonView::Null {
                Some(ResponseView { jsonrpc, id: None, body })
            } else {
                match IdView::of_json(id) {
                    Some(id) => Some(ResponseView { jsonrpc, id: Some(id), body }),
                    None => None,
                }
            },
            _ => None,
        }
    }
}

impl NotificationView {
    /// The JSON object that stands for this notification. There is no `params` member without
    /// params.
    pub open spec fn to_json(self) -> JsonView {
        JsonView::Object(
            with_member(
                no_members().insert("jsonrpc"@, JsonView::String(self.jsonrpc)).insert(
                    "method"@,
                    JsonView::String(self.method),
                ),
                "params"@,
                self.params,
            ),
        )
    }

    /// The document that this notification is written as.
    pub open spec fn doc(self) -> DocView {
        DocView::Object(
            with_doc_member(
                Seq::empty().push(
                    DocMember {
                        key: "jsonrpc"@,
                        value: DocView::Value(JsonView::String(self.jsonrpc)),
                    },
                ).push(
                    DocMember {
                        key: "method"@,
                        value: DocView::Value(JsonView::String(self.method)),
                    },
                ),
                "params"@,
                self.params,
            ),
        )
    }

    /// The notification that an object stands for: it has strings `jsonrpc` and `method` and no
    /// `id`. A `null` under `params` is no params; other members are ignored.
    pub open spec fn of_members(o: Map<Seq<char>, JsonView>) -> Option<NotificationView> {
        match (as_text(member(o, "jsonrpc"@)), member(o, "id"@), as_text(member(o, "method"@))) {
            (Some(jsonrpc), None, Some(method)) => Some(
                NotificationView { jsonrpc, method, params: non_null(member(o, "params"@)) },
            ),
            _ => None,
        }
    }
}

impl MessageView {
    /// The JSON object that stands for this message.
    pub open spec fn to_json(self) -> JsonView {
        match self {
            MessageView::Request(m) => m.to_json(),
            MessageView::Response(m) => m.to_json(),
            MessageView::Notification(m) => m.to_json(),
        }
    }

    /// The document that this message is written as.
    pub open spec fn doc(self) -> DocView {
        match self {
            MessageView::Request(m) => m.doc(),
            MessageView::Response(m) => m.doc(),
            MessageView::Notification(m) => m.doc(),
        }
    }

    /// The JSON text that this message is written as: its members in the order `jsonrpc`, `id`,
    /// `method`, `params`, `result`, `error`, as far as it has them.
    pub open spec fn text(self) -> Seq<u8> {
        doc_text(self.doc())
    }

    /// The message that a JSON value stands for: the first of request, response and notification
    /// that its members make.
    pub open spec fn of_json(v: JsonView) -> Option<MessageView> {
        match v {
            JsonView::Object(o) => match RequestView::of_members(o) {
                Some(m) => Some(MessageView::Request(m)),
                None => match ResponseView::of_members(o) {
                    Some(m) => Some(MessageView::Response(m)),
                    None => match NotificationView::of_members(o) {
                        Some(m) => Some(MessageView::Notification(m)),
                        None => None,
                    },
                },
            },
            _ => None,
        }
    }

    /// This message, with `null` params and `null` error data left out.
    pub open spec fn normal(self) -> MessageView {
        match self {
            MessageView::Request(m) => MessageView::Request(
                RequestView { params: non_null(m.params), ..m },
            ),
            MessageView::Response(m) => MessageView::Response(
                ResponseView { body: m.body.normal(), ..m },
            ),
            MessageView::Notification(m) => MessageView::Notification(
                NotificationView { params: non_null(m.params), ..m },
            ),
        }
    }
}

/// The member names that stand in the text of a message, as often as they stand there. A JSON value
/// holds each of them once.
#[derive(Debug)]
pub struct MemberNames {
    /// The names of the members of the message.
    pub message: Vec<String>,
    /// The names of the members of its `error`, if that is an object.
    pub error: Vec<String>,
}

/// The mathematical value of [`MemberNames`].
#[verifier::ext_equal]
pub struct NamesView {
    /// The names of the members of the message.
    pub message: Seq<Seq<char>>,
    /// The names of the members of its `error`.
    pub error: Seq<Seq<char>>,
}

impl View for MemberNames {
    type V = NamesView;

    open spec fn view(&self) -> NamesView {
        NamesView {
            message: self.message@.map_values(|s: String| s@),
            error: self.error@.map_values(|s: String| s@),
        }
    }
}

impl NamesView {
    /// No names: nothing is repeated.
    pub open spec fn none() -> NamesView {
        NamesView { message: Seq::empty(), error: Seq::empty() }
    }
}

impl MemberNames {
    /// No names: nothing is repeated.
    pub fn none() -> (r: Self)
        ensures
            r@ == NamesView::none(),
    {
        Self { message: Vec::new(), error: Vec::new() }
    }
}

/// `name` stands in `names` more than once.
pub open spec fn is_repeated(name: Seq<char>, names: Seq<Seq<char>>) -> bool {
    exists|i: int, j: int|
        0 <= i < j < names.len() && #[trigger] names[i] == name && #[trigger] names[j] == name
}

impl MessageView {
    /// The text of this message repeats a member that messages of its kind have.
    pub open spec fn repeats_member(self, names: NamesView) -> bool {
        is_repeated("jsonrpc"@, names.message) || match self {
            MessageView::Request(_) => is_repeated("id"@, names.message) || is_repeated(
                "method"@,
                names.message,
            ) || is_repeated("params"@, names.message),
            MessageView::Response(m) => is_repeated("id"@, names.message) || is_repeated(
                "result"@,
                names.message,
            ) || is_repeated("error"@, names.message) || (m.body is Error && (is_repeated(
                "code"@,
                names.error,
            ) || is_repeated("message"@, names.error) || is_repeated("data"@, names.error))),
            MessageView::Notification(_) => is_repeated("method"@, names.message) || is_repeated(
                "params"@,
                names.message,
            ),
        }
    }
}

/// A text whose member names all differ repeats none of them.
pub proof fn different_names_repeat_no_member(m: MessageView, names: NamesView)
    requires
        names.message.no_duplicates(),
        names.error.no_duplicates(),
    ensures
        !m.repeats_member(names),
{
}

/// Tests whether `name` stands in `names` more than once.
fn stands_twice(name: &str, names: &Vec<String>) -> (r: bool)
    ensures
        r == is_repeated(name@, names@.map_values(|s: String| s@)),
{
    let ghost all = names@.map_values(|s: String| s@);
    let mut seen: Option<usize> = None;
    let mut at: usize = 0;
    while at < names.len()
        invariant
            at <= names@.len(),
            all == names@.map_values(|s: String| s@),
            match seen {
                Some(i) => i < at && all[i as int] == name@ && forall|k: int|
                    0 <= k < at && k != i ==> #[trigger] all[k] != name@,
                None => forall|k: int| 0 <= k < at ==> #[trigger] all[k] != name@,
            },
        decreases names@.len() - at,
    {
        assert(all[at as int] == names@[at as int]@);
        if text_eq(names[at].as_str(), name) {
            if let Some(i) = seen {
                assert(all[i as int] == name@ && all[at as int] == name@);
                return true;
            }
            seen = Some(at);
        }
        at += 1;
    }
    false
}

impl Message {
    /// Tests whether the text of this message repeats a member that messages of its kind have.
    pub fn repeats_member(&self, names: &MemberNames) -> (r: bool)
        ensures
            r == self@.repeats_member(names@),
    {
        let all = &names.message;
        stands_twice("jsonrpc", all) || match self {
            Message::Request(_) => stands_twice("id", all) || stands_twice("method", all)
                || stands_twice("params", all),
            Message::Response(m) => stands_twice("id", all) || stands_twice("result", all)
                || stands_twice("error", all) || match &m.body {
                ResponseBody::Result(_) => false,
                ResponseBody::Error(_) => stands_twice("code", &names.error) || stands_twice(
                    "message",
                    &names.error,
                ) || stands_twice("data", &names.error),
            },
            Message::Notification(_) => stands_twice("method", all) || stands_twice("params", all),
        }
    }
}

/// The member names of a message differ.
proof fn lemma_message_keys()
    ensures
        "jsonrpc"@ != "id"@,
        "jsonrpc"@ != "method"@,
        "jsonrpc"@ != "params"@,
        "jsonrpc"@ != "result"@,
        "jsonrpc"@ != "error"@,
        "id"@ != "method"@,
        "id"@ != "params"@,
        "id"@ != "result"@,
        "id"@ != "error"@,
        "method"@ != "params"@,
        "method"@ != "result"@,
        "method"@ != "error"@,
        "params"@ != "result"@,
        "params"@ != "error"@,
        "result"@ != "error"@,
{
    reveal_strlit("jsonrpc");
    reveal_strlit("id");
    reveal_strlit("method");
    reveal_strlit("params");
    reveal_strlit("result");
    reveal_strlit("error");
    assert("method"@[0] == 'm' && "params"@[0] == 'p' && "result"@[0] == 'r');
    assert("jsonrpc"@.len() == 7 && "id"@.len() == 2 && "error"@.len() == 5);
}

/// The member names of a message are made of lower-case letters.
proof fn lemma_message_keys_plain()
    ensures
        forall|i: int| 0 <= i < "jsonrpc"@.len() ==> 'a' <= #[trigger] "jsonrpc"@[i] <= 'z',
        forall|i: int| 0 <= i < "id"@.len() ==> 'a' <= #[trigger] "id"@[i] <= 'z',
        forall|i: int| 0 <= i < "method"@.len() ==> 'a' <= #[trigger] "method"@[i] <= 'z',
        forall|i: int| 0 <= i < "params"@.len() ==> 'a' <= #[trigger] "params"@[i] <= 'z',
        forall|i: int| 0 <= i < "result"@.len() ==> 'a' <= #[trigger] "result"@[i] <= 'z',
        forall|i: int| 0 <= i < "error"@.len() ==> 'a' <= #[trigger] "error"@[i] <= 'z',
{
    reveal_strlit("jsonrpc");
    reveal_strlit("id");
    reveal_strlit("method");
    reveal_strlit("params");
    reveal_strlit("result");
    reveal_strlit("error");
}

/// The document of a message stands for its JSON object, and is exact where that is.
pub proof fn message_doc_stands_for_json(m: MessageView)
    ensures
        stands_for(m.doc(), m.to_json()),
{
    lemma_message_keys();
    lemma_message_keys_plain();
    let none = Seq::<DocMember>::empty();
    let ms = m.doc()->Object_0;
    let o = m.to_json()->Object_0;
    match m {
        MessageView::Request(m) => {
            lemma_push_member(none, ms[0]);
            lemma_push_member(none.push(ms[0]), ms[1]);
            lemma_push_member(none.push(ms[0]).push(ms[1]), ms[2]);
            if m.params is Some {
                lemma_push_member(none.push(ms[0]).push(ms[1]).push(ms[2]), ms[3]);
            }
        },
        MessageView::Response(m) => {
            lemma_push_member(none, ms[0]);
            lemma_push_member(none.push(ms[0]), ms[1]);
            lemma_push_member(none.push(ms[0]).push(ms[1]), ms[2]);
            match m.body {
                BodyView::Result(_) => {},
                BodyView::Error(e) => {
                    error_doc_stands_for_json(e);
                },
            }
        },
        MessageView::Notification(m) => {
            lemma_push_member(none, ms[0]);
            lemma_push_member(none.push(ms[0]), ms[1]);
            if m.params is Some {
                lemma_push_member(none.push(ms[0]).push(ms[1]), ms[2]);
            }
        },
    }
    assert(members_json(ms) =~= o);
    lemma_stands_for(ms, o);
}

/// Reading the JSON object of a message gives the message back, but for params and error data
/// that are `null`, which read as none.
pub proof fn message_json_round_trip(m: MessageView)
    ensures
        MessageView::of_json(m.to_json()) == Some(m.normal()),
{
    lemma_message_keys();
    match m {
        MessageView::Request(m) => {
            id_json_round_trip(m.id);
        },
        MessageView::Response(m) => {
            match m.id {
                Some(id) => {
                    id_json_round_trip(id);
                },
                None => {},
            }
            match m.body {
                BodyView::Result(_) => {},
                BodyView::Error(e) => {
                    error_json_round_trip(e);
                },
            }
        },
        MessageView::Notification(_) => {},
    }
}

/// A response has exactly one of `result` and `error`, and its `id` is always written: as `null`
/// where the response has none.
pub proof fn response_members(m: ResponseView)
    ensures
        m.to_json() matches JsonView::Object(o) && {
            &&& o.contains_key("result"@) <==> m.body is Result
            &&& o.contains_key("error"@) <==> m.body is Error
            &&& o.contains_key("id"@)
            &&& m.id is None <==> o["id"@] == JsonView::Null
        },
{
    lemma_message_keys();
}

/// An object that has an identifier under `id` and strings under `jsonrpc` and `method` is read as
/// a request, whatever else it has.
pub proof fn id_and_method_make_a_request(o: Map<Seq<char>, JsonView>)
    requires
        as_text(member(o, "jsonrpc"@)) is Some,
        as_text(member(o, "method"@)) is Some,
        member(o, "id"@) is Some,
        IdView::of_json(o["id"@]) is Some,
    ensures
        MessageView::of_json(JsonView::Object(o)) matches Some(MessageView::Request(m))
            && m.id.to_json() == o["id"@],
{
    crate::request_id::id_json_is_canonical(o["id"@]);
}

/// An object without `id` is read as a notification if it has strings under `jsonrpc` and
/// `method`, and as no message otherwise.
pub proof fn no_id_makes_a_notification(o: Map<Seq<char>, JsonView>)
    requires
        member(o, "id"@) is None,
    ensures
        (as_text(member(o, "jsonrpc"@)) is Some && as_text(member(o, "method"@)) is Some)
            ==> MessageView::of_json(JsonView::Object(o)) matches Some(MessageView::Notification(_)),
        !(as_text(member(o, "jsonrpc"@)) is Some && as_text(member(o, "method"@)) is Some)
            ==> MessageView::of_json(JsonView::Object(o)) is None,
{
}

/// An object with an `id` and no `method` is read as a response or as no message.
pub proof fn id_without_method_makes_a_response(o: Map<Seq<char>, JsonView>)
    requires
        member(o, "id"@) is Some,
        member(o, "method"@) is None,
    ensures
        MessageView::of_json(JsonView::Object(o)) matches Some(m) ==> m is Response,
{
}

/// The values of messages hold what the messages hold.
pub proof fn message_views_hold_their_fields(
    request: Request,
    response: Response,
    notification: Notification,
)
    ensures
        request@.jsonrpc == request.jsonrpc@,
        request@.id == request.id@,
        request@.method == request.method@,
        request.params matches Some(v) ==> request@.params == Some(json(v)),
        request.params is None ==> request@.params is None,
        response@.jsonrpc == response.jsonrpc@,
        response.id matches Some(id) ==> response@.id == Some(id@),
        response.id is None ==> response@.id is None,
        response.body matches ResponseBody::Result(v) ==> response@.body == BodyView::Result(
            json(v),
        ),
        response.body matches ResponseBody::Error(e) ==> response@.body == BodyView::Error(e@),
        notification@.jsonrpc == notification.jsonrpc@,
        notification@.method == notification.method@,
        notification.params matches Some(v) ==> notification@.params == Some(json(v)),
        notification.params is None ==> notification@.params is None,
        Message::Request(request)@ == MessageView::Request(request@),
        Message::Response(response)@ == MessageView::Response(response@),
        Message::Notification(notification)@ == MessageView::Notification(notification@),
{
}

/// The object that stands for a request has its protocol version under `jsonrpc`, its identifier
/// under `id`, its method under `method` and its params, if there are any, under `params`, and
/// nothing else.
pub proof fn request_object_holds_the_request(m: RequestView)
    ensures
        MessageView::Request(m).to_json() matches JsonView::Object(o) && {
            &&& forall|k: Seq<char>| #[trigger]
                o.contains_key(k) <==> k == "jsonrpc"@ || k == "id"@ || k == "method"@ || (k
                    == "params"@ && m.params is Some)
            &&& o["jsonrpc"@] == JsonView::String(m.jsonrpc)
            &&& m.id matches IdView::Integer(n) ==> o["id"@] == JsonView::Number(
                NumberView::Integer(n as int),
            )
            &&& m.id matches IdView::String(s) ==> o["id"@] == JsonView::String(s)
            &&& o["method"@] == JsonView::String(m.method)
            &&& m.params matches Some(v) ==> o["params"@] == v
        },
{
    lemma_message_keys();
}

/// The object that stands for a response has its protocol version under `jsonrpc`, its identifier
/// or `null` under `id`, and its result under `result` or its error under `error`, and nothing
/// else.
pub proof fn response_object_holds_the_response(m: ResponseView)
    ensures
        MessageView::Response(m).to_json() matches JsonView::Object(o) && {
            &&& forall|k: Seq<char>| #[trigger]
                o.contains_key(k) <==> k == "jsonrpc"@ || k == "id"@ || (k == "result"@
                    && m.body is Result) || (k == "error"@ && m.body is Error)
            &&& o["jsonrpc"@] == JsonView::String(m.jsonrpc)
            &&& m.id matches Some(IdView::Integer(n)) ==> o["id"@] == JsonView::Number(
                NumberView::Integer(n as int),
            )
            &&& m.id matches Some(IdView::String(s)) ==> o["id"@] == JsonView::String(s)
            &&& m.id is None ==> o["id"@] == JsonView::Null
            &&& m.body matches BodyView::Result(v) ==> o["result"@] == v
            &&& m.body matches BodyView::Error(e) ==> (o["error"@] matches JsonView::Object(p) && {
                &&& forall|k: Seq<char>| #[trigger]
                    p.contains_key(k) <==> k == "code"@ || k == "message"@ || (k == "data"@
                        && e.data is Some)
                &&& p["code"@] == JsonView::Number(NumberView::Integer(e.code as int))
                &&& p["message"@] == JsonView::String(e.message)
                &&& e.data matches Some(v) ==> p["data"@] == v
            })
        },
{
    lemma_message_keys();
    if m.body is Error {
        error_object_holds_the_error(m.body->Error_0);
    }
}

/// The object that stands for a notification has its protocol version under `jsonrpc`, its method
/// under `method` and its params, if there are any, under `params`, and nothing else.
pub proof fn notification_object_holds_the_notification(m: NotificationView)
    ensures
        MessageView::Notification(m).to_json() matches JsonView::Object(o) && {
            &&& forall|k: Seq<char>| #[trigger]
                o.contains_key(k) <==> k == "jsonrpc"@ || k == "method"@ || (k == "params"@
                    && m.params is Some)
            &&& o["jsonrpc"@] == JsonView::String(m.jsonrpc)
            &&& o["method"@] == JsonView::String(m.method)
            &&& m.params matches Some(v) ==> o["params"@] == v
        },
{
    lemma_message_keys();
}

/// The value is a JSON string or an integer of 32 bits.
pub open spec fn is_id_value(v: JsonView) -> bool {
    ||| v is String
    ||| v matches JsonView::Number(NumberView::Integer(n)) && -0x8000_0000 <= n <= 0x7fff_ffff
}

/// The identifier holds this value.
pub open spec fn id_holds(id: IdView, v: JsonView) -> bool {
    match id {
        IdView::Integer(n) => v == JsonView::Number(NumberView::Integer(n as int)),
        IdView::String(s) => v == JsonView::String(s),
    }
}

/// The object has a string under `key`.
pub open spec fn has_string(o: Map<Seq<char>, JsonView>, key: Seq<char>) -> bool {
    o.contains_key(key) && o[key] is String
}

/// The object has a value other than `null` under `key`.
pub open spec fn has_value(o: Map<Seq<char>, JsonView>, key: Seq<char>) -> bool {
    o.contains_key(key) && o[key] != JsonView::Null
}

/// An object with an identifier under `id` and strings under `jsonrpc` and `method` is read as the
/// request that holds them, with what stands under `params`, if that is there and not `null`.
pub proof fn request_is_read_from_its_members(o: Map<Seq<char>, JsonView>)
    requires
        has_string(o, "jsonrpc"@),
        has_string(o, "method"@),
        o.contains_key("id"@),
        is_id_value(o["id"@]),
    ensures
        MessageView::of_json(JsonView::Object(o)) matches Some(MessageView::Request(m)) && {
            &&& o["jsonrpc"@] == JsonView::String(m.jsonrpc)
            &&& o["method"@] == JsonView::String(m.method)
            &&& id_holds(m.id, o["id"@])
            &&& has_value(o, "params"@) ==> m.params == Some(o["params"@])
            &&& !has_value(o, "params"@) ==> m.params is None
        },
{
    strings_and_integers_are_ids(o["id"@]);
}

/// An object with strings under `jsonrpc` and `method` and nothing under `id` is read as the
/// notification that holds them, with what stands under `params`, if that is there and not `null`.
pub proof fn notification_is_read_from_its_members(o: Map<Seq<char>, JsonView>)
    requires
        has_string(o, "jsonrpc"@),
        has_string(o, "method"@),
        !o.contains_key("id"@),
    ensures
        MessageView::of_json(JsonView::Object(o)) matches Some(MessageView::Notification(m)) && {
            &&& o["jsonrpc"@] == JsonView::String(m.jsonrpc)
            &&& o["method"@] == JsonView::String(m.method)
            &&& has_value(o, "params"@) ==> m.params == Some(o["params"@])
            &&& !has_value(o, "params"@) ==> m.params is None
        },
{
}

/// The object has what every response has, and is no request: a string under `jsonrpc`, an
/// identifier or `null` under `id`, and no string under `method` unless there is no identifier.
pub open spec fn is_headed_as_response(o: Map<Seq<char>, JsonView>) -> bool {
    &&& has_string(o, "jsonrpc"@)
    &&& o.contains_key("id"@)
    &&& o["id"@] == JsonView::Null || (is_id_value(o["id"@]) && !has_string(o, "method"@))
}

/// What is headed as a response, and has something under `result` and nothing but `null` under
/// `error`, is read as the response with this identifier and with this very value as its result.
pub proof fn result_is_read_from_its_members(o: Map<Seq<char>, JsonView>)
    requires
        is_headed_as_response(o),
        o.contains_key("result"@),
        !has_value(o, "error"@),
    ensures
        MessageView::of_json(JsonView::Object(o)) matches Some(MessageView::Response(m)) && {
            &&& o["jsonrpc"@] == JsonView::String(m.jsonrpc)
            &&& o["id"@] == JsonView::Null ==> m.id is None
            &&& o["id"@] != JsonView::Null ==> m.id is Some && id_holds(m.id->0, o["id"@])
            &&& m.body == BodyView::Result(o["result"@])
        },
{
    strings_and_integers_are_ids(o["id"@]);
}

/// What is headed as a response, and has an error object under `error` and nothing but `null` under
/// `result`, is read as the response with this identifier and with the code, the message and the
/// data of that object.
pub proof fn error_response_is_read_from_its_members(
    o: Map<Seq<char>, JsonView>,
    p: Map<Seq<char>, JsonView>,
    code: i32,
    message: Seq<char>,
)
    requires
        is_headed_as_response(o),
        !has_value(o, "result"@),
        o.contains_key("error"@),
        o["error"@] == JsonView::Object(p),
        p.contains_key("code"@),
        p["code"@] == JsonView::Number(NumberView::Integer(code as int)),
        p.contains_key("message"@),
        p["message"@] == JsonView::String(message),
    ensures
        MessageView::of_json(JsonView::Object(o)) matches Some(MessageView::Response(m)) && {
            &&& o["jsonrpc"@] == JsonView::String(m.jsonrpc)
            &&& o["id"@] == JsonView::Null ==> m.id is None
            &&& o["id"@] != JsonView::Null ==> m.id is Some && id_holds(m.id->0, o["id"@])
            &&& m.body matches BodyView::Error(e) && {
                &&& e.code == code
                &&& e.message == message
                &&& has_value(p, "data"@) ==> e.data == Some(p["data"@])
                &&& !has_value(p, "data"@) ==> e.data is None
            }
        },
{
    strings_and_integers_are_ids(o["id"@]);
    error_is_read_from_its_members(p, code, message);
}

/// No other value is a message: one that is no object, has no string under `jsonrpc`, has something
/// under `id` that is neither an identifier nor `null`, has neither `id` nor a string under
/// `method`, or is headed as a response but has neither a result nor an error, has both, or has an
/// error that is none.
pub proof fn other_values_are_no_message(v: JsonView)
    requires
        v matches JsonView::Object(o) ==> {
            ||| !has_string(o, "jsonrpc"@)
            ||| has_value(o, "id"@) && !is_id_value(o["id"@])
            ||| !o.contains_key("id"@) && !has_string(o, "method"@)
            ||| is_headed_as_response(o) && !o.contains_key("result"@) && !has_value(o, "error"@)
            ||| is_headed_as_response(o) && has_value(o, "result"@) && has_value(o, "error"@)
            ||| is_headed_as_response(o) && has_value(o, "error"@) && ErrorView::of_json(
                o["error"@],
            ) is None
        },
    ensures
        MessageView::of_json(v) is None,
{
    if let JsonView::Object(o) = v {
        if o.contains_key("id"@) {
            strings_and_integers_are_ids(o["id"@]);
        }
    }
}

/// The text of a request has its members in the order `jsonrpc`, `id`, `method`, `params`.
pub proof fn request_is_written_in_order(m: RequestView)
    ensures
        MessageView::Request(m).text() == seq!['{' as u8] + name_text("jsonrpc"@) + value_text(
            JsonView::String(m.jsonrpc),
        ) + seq![',' as u8] + name_text("id"@) + value_text(id_value(m.id)) + seq![',' as u8]
            + name_text("method"@) + value_text(JsonView::String(m.method)) + (match m.params {
            Some(v) => seq![',' as u8] + name_text("params"@) + value_text(v),
            None => Seq::empty(),
        }) + seq!['}' as u8],
{
    let none = Seq::<DocMember>::empty();
    let ms = m.doc()->Object_0;
    lemma_push_member(none, ms[0]);
    lemma_push_member(none.push(ms[0]), ms[1]);
    lemma_push_member(none.push(ms[0]).push(ms[1]), ms[2]);
    if m.params is Some {
        lemma_push_member(none.push(ms[0]).push(ms[1]).push(ms[2]), ms[3]);
        assert(ms =~= none.push(ms[0]).push(ms[1]).push(ms[2]).push(ms[3]));
    } else {
        assert(ms =~= none.push(ms[0]).push(ms[1]).push(ms[2]));
    }
    assert(doc_text(m.doc()) =~= seq!['{' as u8] + members_text(ms) + seq!['}' as u8]);
}

/// The JSON value that an identifier holds.
pub open spec fn id_value(id: IdView) -> JsonView {
    match id {
        IdView::Integer(n) => JsonView::Number(NumberView::Integer(n as int)),
        IdView::String(s) => JsonView::String(s),
    }
}

/// The text of a response has its members in the order `jsonrpc`, `id`, `result` or `error`.
pub proof fn response_is_written_in_order(m: ResponseView)
    ensures
        MessageView::Response(m).text() == seq!['{' as u8] + name_text("jsonrpc"@) + value_text(
            JsonView::String(m.jsonrpc),
        ) + seq![',' as u8] + name_text("id"@) + value_text(
            match m.id {
                Some(id) => id_value(id),
                None => JsonView::Null,
            },
        ) + seq![',' as u8] + (match m.body {
            BodyView::Result(v) => name_text("result"@) + value_text(v),
            BodyView::Error(e) => name_text("error"@) + doc_text(e.doc()),
        }) + seq!['}' as u8],
{
    let none = Seq::<DocMember>::empty();
    let ms = m.doc()->Object_0;
    lemma_push_member(none, ms[0]);
    lemma_push_member(none.push(ms[0]), ms[1]);
    lemma_push_member(none.push(ms[0]).push(ms[1]), ms[2]);
    assert(ms =~= none.push(ms[0]).push(ms[1]).push(ms[2]));
    assert(doc_text(m.doc()) =~= seq!['{' as u8] + members_text(ms) + seq!['}' as u8]);
}

/// The text of a notification has its members in the order `jsonrpc`, `method`, `params`.
pub proof fn notification_is_written_in_order(m: NotificationView)
    ensures
        MessageView::Notification(m).text() == seq!['{' as u8] + name_text("jsonrpc"@) + value_text(
            JsonView::String(m.jsonrpc),
        ) + seq![',' as u8] + name_text("method"@) + value_text(JsonView::String(m.method)) + (
        match m.params {
            Some(v) => seq![',' as u8] + name_text("params"@) + value_text(v),
            None => Seq::empty(),
        }) + seq!['}' as u8],
{
    let none = Seq::<DocMember>::empty();
    let ms = m.doc()->Object_0;
    lemma_push_member(none, ms[0]);
    lemma_push_member(none.push(ms[0]), ms[1]);
    if m.params is Some {
        lemma_push_member(none.push(ms[0]).push(ms[1]), ms[2]);
        assert(ms =~= none.push(ms[0]).push(ms[1]).push(ms[2]));
    } else {
        assert(ms =~= none.push(ms[0]).push(ms[1]));
    }
    assert(doc_text(m.doc()) =~= seq!['{' as u8] + members_text(ms) + seq!['}' as u8]);
}

/// A message of this kind has members of this name.
pub open spec fn has_member_named(m: MessageView, name: Seq<char>) -> bool {
    ||| name == "jsonrpc"@
    ||| !(m is Notification) && name == "id"@
    ||| !(m is Response) && (name == "method"@ || name == "params"@)
    ||| m is Response && (name == "result"@ || name == "error"@)
}

/// A text repeats a member of its message if a name that such messages have stands in it twice, or,
/// for an error response, a name that errors have stands twice in the error. Other names may stand
/// there as often as they like.
pub proof fn repeated_members_are_those_of_the_message(m: MessageView, names: NamesView)
    ensures
        m.repeats_member(names) <==> {
            ||| exists|i: int, j: int|
                0 <= i < j < names.message.len() && #[trigger] names.message[i]
                    == #[trigger] names.message[j] && has_member_named(m, names.message[i])
            ||| m matches MessageView::Response(r) && r.body is Error && exists|i: int, j: int|
                0 <= i < j < names.error.len() && #[trigger] names.error[i]
                    == #[trigger] names.error[j] && (names.error[i] == "code"@ || names.error[i]
                    == "message"@ || names.error[i] == "data"@)
        },
{
    if exists|i: int, j: int|
        0 <= i < j < names.message.len() && #[trigger] names.message[i]
            == #[trigger] names.message[j] && has_member_named(m, names.message[i]) {
        let (i, j) = choose|i: int, j: int|
            0 <= i < j < names.message.len() && #[trigger] names.message[i]
                == #[trigger] names.message[j] && has_member_named(m, names.message[i]);
        assert(is_repeated(names.message[i], names.message));
    }
    if exists|i: int, j: int|
        0 <= i < j < names.error.len() && #[trigger] names.error[i] == #[trigger] names.error[j]
            && (names.error[i] == "code"@ || names.error[i] == "message"@ || names.error[i]
            == "data"@) {
        let (i, j) = choose|i: int, j: int|
            0 <= i < j < names.error.len() && #[trigger] names.error[i] == #[trigger] names.error[j]
                && (names.error[i] == "code"@ || names.error[i] == "message"@ || names.error[i]
                == "data"@);
        assert(is_repeated(names.error[i], names.error));
    }
}

impl Clone for Request {
    fn clone(&self) -> (r: Self)
        ensures
            r@ == self@,
    {
        Self {
            jsonrpc: self.jsonrpc.clone(),
            id: self.id.clone(),
            method: self.method.clone(),
            params: clone_in(&self.params),
        }
    }
}

impl Clone for ResponseBody {
    fn clone(&self) -> (r: Self)
        ensures
            r@ == self@,
    {
        match self {
            ResponseBody::Result(v) => ResponseBody::Result(v.clone()),
            ResponseBody::Error(e) => ResponseBody::Error(e.clone()),
        }
    }
}

impl Clone for Response {
    fn clone(&self) -> (r: Self)
        ensures
            r@ == self@,
    {
        let id = match &self.id {
            Some(id) => Some(id.clone()),
            None => None,
        };
        Self { jsonrpc: self.jsonrpc.clone(), id, body: self.body.clone() }
    }
}

impl Clone for Notification {
    fn clone(&self) -> (r: Self)
        ensures
            r@ == self@,
    {
        Self {
            jsonrpc: self.jsonrpc.clone(),
            method: self.method.clone(),
            params: clone_in(&self.params),
        }
    }
}

impl Clone for Message {
    fn clone(&self) -> (r: Self)
        ensures
            r@ == self@,
    {
        match self {
            Message::Request(m) => Message::Request(m.clone()),
            Message::Response(m) => Message::Response(m.clone()),
            Message::Notification(m) => Message::Notification(m.clone()),
        }
    }
}

impl Request {
    /// Creates a new Request with the given id, method, and optional params.
    ///
    /// The `jsonrpc` field is automatically set to "2.0".
    pub fn new(
        id: impl Into<RequestId>,
        method: impl Into<String>,
        params: Option<Value>,
    ) -> (r: Self)
        ensures
            r.jsonrpc@ == "2.0"@,
            call_ensures(<_ as Into<RequestId>>::into, (id,), r.id),
            call_ensures(<_ as Into<String>>::into, (method,), r.method),
            r.params == params,
    {
        Self { jsonrpc: "2.0".to_owned(), id: id.into(), method: method.into(), params }
    }

    /// Writes the request as a JSON text.
    ///
    /// # Errors
    ///
    /// The error of the writer. Requests can always be written.
    pub fn to_text(&self) -> (r: Result<Vec<u8>, serde_json::Error>)
        ensures
            r is Ok,
            r->Ok_0@ == doc_text(self@.doc()),
    {
        let mut o = ObjectText::new();
        match o.put_string("jsonrpc", self.jsonrpc.clone()) {
            Ok(()) => {},
            Err(e) => return Err(e),
        }
        match o.put_value("id", &self.id.clone().into_value()) {
            Ok(()) => {},
            Err(e) => return Err(e),
        }
        match o.put_string("method", self.method.clone()) {
            Ok(()) => {},
            Err(e) => return Err(e),
        }
        match o.put_optional("params", &self.params) {
            Ok(()) => {},
            Err(e) => return Err(e),
        }
        Ok(o.finish())
    }

    /// Turns the request into the JSON object that stands for it.
    pub fn into_value(self) -> (r: Value)
        ensures
            json(r) == self@.to_json(),
    {
        let mut o = new_object();
        put_text(&mut o, "jsonrpc", self.jsonrpc);
        let _ = insert_member(&mut o, "id".to_owned(), self.id.into_value());
        put_text(&mut o, "method", self.method);
        put_some(&mut o, "params", self.params);
        close(Json::Object(o))
    }
}

impl Response {
    /// Creates a successful response with the given id and result.
    pub fn ok(id: impl Into<RequestId>, result: Value) -> (r: Self)
        ensures
            r.jsonrpc@ == "2.0"@,
            r.id is Some,
            call_ensures(<_ as Into<RequestId>>::into, (id,), r.id->0),
            r.body == ResponseBody::Result(result),
    {
        Self {
            jsonrpc: "2.0".to_owned(),
            id: Some(id.into()),
            body: ResponseBody::Result(result),
        }
    }

    /// Creates an error response with the given id and error.
    pub fn err(id: impl Into<RequestId>, error: ResponseError) -> (r: Self)
        ensures
            r.jsonrpc@ == "2.0"@,
            r.id is Some,
            call_ensures(<_ as Into<RequestId>>::into, (id,), r.id->0),
            r.body == ResponseBody::Error(error),
    {
        Self { jsonrpc: "2.0".to_owned(), id: Some(id.into()), body: ResponseBody::Error(error) }
    }

    /// Creates a parse error response where the request id could not be determined.
    ///
    /// Its id is written as `null`.
    pub fn parse_error(error: ResponseError) -> (r: Self)
        ensures
            r.jsonrpc@ == "2.0"@,
            r.id is None,
            r.body == ResponseBody::Error(error),
    {
        Self { jsonrpc: "2.0".to_owned(), id: None, body: ResponseBody::Error(error) }
    }

    /// Returns the result, if this is a successful response.
    pub fn result(&self) -> (r: Option<&Value>)
        ensures
            r == (match self.body {
                ResponseBody::Result(v) => Some(&v),
                ResponseBody::Error(_) => None,
            }),
    {
        match &self.body {
            ResponseBody::Result(v) => Some(v),
            ResponseBody::Error(_) => None,
        }
    }

    /// Returns the error, if this is an error response.
    pub fn error(&self) -> (r: Option<&ResponseError>)
        ensures
            r == (match self.body {
                ResponseBody::Result(_) => None,
                ResponseBody::Error(e) => Some(&e),
            }),
    {
        match &self.body {
            ResponseBody::Result(_) => None,
            ResponseBody::Error(e) => Some(e),
        }
    }

    /// Gives the result out, if this is a successful response.
    pub fn into_result(self) -> (r: Option<Value>)
        ensures
            r == (match self.body {
                ResponseBody::Result(v) => Some(v),
                ResponseBody::Error(_) => None,
            }),
    {
        match self.body {
            ResponseBody::Result(v) => Some(v),
            ResponseBody::Error(_) => None,
        }
    }

    /// Gives the error out, if this is an error response.
    pub fn into_error(self) -> (r: Option<ResponseError>)
        ensures
            r == (match self.body {
                ResponseBody::Result(_) => None,
                ResponseBody::Error(e) => Some(e),
            }),
    {
        match self.body {
            ResponseBody::Result(_) => None,
            ResponseBody::Error(e) => Some(e),
        }
    }

    /// Writes the response as a JSON text.
    ///
    /// # Errors
    ///
    /// The error of the writer. Responses can always be written.
    pub fn to_text(&self) -> (r: Result<Vec<u8>, serde_json::Error>)
        ensures
            r is Ok,
            r->Ok_0@ == doc_text(self@.doc()),
    {
        let mut o = ObjectText::new();
        match o.put_string("jsonrpc", self.jsonrpc.clone()) {
            Ok(()) => {},
            Err(e) => return Err(e),
        }
        let id = match &self.id {
            Some(id) => id.clone().into_value(),
            None => close(Json::Null),
        };
        match o.put_value("id", &id) {
            Ok(()) => {},
            Err(e) => return Err(e),
        }
        match &self.body {
            ResponseBody::Result(v) => match o.put_value("result", v) {
                Ok(()) => {},
                Err(e) => return Err(e),
            },
            ResponseBody::Error(error) => match error.to_text() {
                Ok(text) => o.put("error", text.as_slice(), Ghost(error@.doc())),
                Err(e) => return Err(e),
            },
        }
        Ok(o.finish())
    }

    /// Turns the response into the JSON object that stands for it.
    pub fn into_value(self) -> (r: Value)
        ensures
            json(r) == self@.to_json(),
    {
        let mut o = new_object();
        put_text(&mut o, "jsonrpc", self.jsonrpc);
        let id = match self.id {
            Some(id) => id.into_value(),
            None => close(Json::Null),
        };
        let _ = insert_member(&mut o, "id".to_owned(), id);
        match self.body {
            ResponseBody::Result(v) => {
                let _ = insert_member(&mut o, "result".to_owned(), v);
            },
            ResponseBody::Error(e) => {
                let _ = insert_member(&mut o, "error".to_owned(), e.into_value());
            },
        }
        close(Json::Object(o))
    }
}

impl Notification {
    /// Creates a new Notification with the given method and optional params.
    ///
    /// The `jsonrpc` field is automatically set to "2.0".
    pub fn new(method: impl Into<String>, params: Option<Value>) -> (r: Self)
        ensures
            r.jsonrpc@ == "2.0"@,
            call_ensures(<_ as Into<String>>::into, (method,), r.method),
            r.params == params,
    {
        Self { jsonrpc: "2.0".to_owned(), method: method.into(), params }
    }

    /// Writes the notification as a JSON text.
    ///
    /// # Errors
    ///
    /// The error of the writer. Notifications can always be written.
    pub fn to_text(&self) -> (r: Result<Vec<u8>, serde_json::Error>)
        ensures
            r is Ok,
            r->Ok_0@ == doc_text(self@.doc()),
    {
        let mut o = ObjectText::new();
        match o.put_string("jsonrpc", self.jsonrpc.clone()) {
            Ok(()) => {},
            Err(e) => return Err(e),
        }
        match o.put_string("method", self.method.clone()) {
            Ok(()) => {},
            Err(e) => return Err(e),
        }
        match o.put_optional("params", &self.params) {
            Ok(()) => {},
            Err(e) => return Err(e),
        }
        Ok(o.finish())
    }

    /// Turns the notification into the JSON object that stands for it.
    pub fn into_value(self) -> (r: Value)
        ensures
            json(r) == self@.to_json(),
    {
        let mut o = new_object();
        put_text(&mut o, "jsonrpc", self.jsonrpc);
        put_text(&mut o, "method", self.method);
        put_some(&mut o, "params", self.params);
        close(Json::Object(o))
    }
}

/// Reads the body that a `result` and an `error` member make.
fn body_from_members(result: Option<Value>, error: Option<Value>) -> (r: Option<ResponseBody>)
    ensures
        match r {
            Some(b) => BodyView::of_parts(json_in(result), json_in(error)) == Some(b@),
            None => BodyView::of_parts(json_in(result), json_in(error)) is None,
        },
{
    match drop_null(error) {
        Some(e) => match drop_null(result) {
            Some(_) => None,
            None => match ResponseError::from_value(e) {
                Some(e) => Some(ResponseBody::Error(e)),
                None => None,
            },
        },
        None => match result {
            Some(v) => Some(ResponseBody::Result(v)),
            None => None,
        },
    }
}

impl Message {
    /// Returns `true` if this is a Request message.
    pub fn is_request(&self) -> (r: bool)
        ensures
            r == (self is Request),
    {
        matches!(self, Message::Request(_))
    }

    /// Returns `true` if this is a Response message.
    pub fn is_response(&self) -> (r: bool)
        ensures
            r == (self is Response),
    {
        matches!(self, Message::Response(_))
    }

    /// Returns `true` if this is a Notification message.
    pub fn is_notification(&self) -> (r: bool)
        ensures
            r == (self is Notification),
    {
        matches!(self, Message::Notification(_))
    }

    /// Returns the request, if this is one.
    pub fn as_request(&self) -> (r: Option<&Request>)
        ensures
            r == (match *self {
                Message::Request(m) => Some(&m),
                _ => None,
            }),
    {
        match self {
            Message::Request(m) => Some(m),
            _ => None,
        }
    }

    /// Gives the request out, if this is one.
    pub fn into_request(self) -> (r: Option<Request>)
        ensures
            r == (match self {
                Message::Request(m) => Some(m),
                _ => None,
            }),
    {
        match self {
            Message::Request(m) => Some(m),
            _ => None,
        }
    }

    /// Returns the response, if this is one.
    pub fn as_response(&self) -> (r: Option<&Response>)
        ensures
            r == (match *self {
                Message::Response(m) => Some(&m),
                _ => None,
            }),
    {
        match self {
            Message::Response(m) => Some(m),
            _ => None,
        }
    }

    /// Gives the response out, if this is one.
    pub fn into_response(self) -> (r: Option<Response>)
        ensures
            r == (match self {
                Message::Response(m) => Some(m),
                _ => None,
            }),
    {
        match self {
            Message::Response(m) => Some(m),
            _ => None,
        }
    }

    /// Returns the notification, if this is one.
    pub fn as_notification(&self) -> (r: Option<&Notification>)
        ensures
            r == (match *self {
                Message::Notification(m) => Some(&m),
                _ => None,
            }),
    {
        match self {
            Message::Notification(m) => Some(m),
            _ => None,
        }
    }

    /// Gives the notification out, if this is one.
    pub fn into_notification(self) -> (r: Option<Notification>)
        ensures
            r == (match self {
                Message::Notification(m) => Some(m),
                _ => None,
            }),
    {
        match self {
            Message::Notification(m) => Some(m),
            _ => None,
        }
    }

    /// Turns the message into the JSON object that stands for it.
    pub fn into_value(self) -> (r: Value)
        ensures
            json(r) == self@.to_json(),
    {
        match self {
            Message::Request(m) => m.into_value(),
            Message::Response(m) => m.into_value(),
            Message::Notification(m) => m.into_value(),
        }
    }

    /// Writes the message as a JSON text.
    ///
    /// # Errors
    ///
    /// The error of the writer. Messages can always be written.
    pub fn to_text(&self) -> (r: Result<Vec<u8>, serde_json::Error>)
        ensures
            r is Ok,
            r->Ok_0@ == self@.text(),
    {
        match self {
            Message::Request(m) => m.to_text(),
            Message::Response(m) => m.to_text(),
            Message::Notification(m) => m.to_text(),
        }
    }

    /// Reads a message from the JSON value that stands for it.
    ///
    /// The members tell what the message is; see the module's documentation. Returns `None` if
    /// they make no message.
    pub fn from_value(v: Value) -> (r: Option<Self>)
        ensures
            match r {
                Some(m) => MessageView::of_json(json(v)) == Some(m@),
                None => MessageView::of_json(json(v)) is None,
            },
    {
        let mut o = match open(v) {
            Json::Object(o) => o,
            _ => return None,
        };
        proof {
            lemma_message_keys();
        }
        let jsonrpc = match into_text(remove_member(&mut o, "jsonrpc")) {
            Some(jsonrpc) => jsonrpc,
            None => return None,
        };
        let id = remove_member(&mut o, "id");
        let method = into_text(remove_member(&mut o, "method"));
        let params = drop_null(remove_member(&mut o, "params"));
        let result = remove_member(&mut o, "result");
        let error = remove_member(&mut o, "error");
        let id = match id {
            Some(id) => id,
            None => {
                return match method {
                    Some(method) => Some(
                        Message::Notification(Notification { jsonrpc, method, params }),
                    ),
                    None => None,
                };
            },
        };
        let id = match open(id) {
            Json::Null => None,
            j => match RequestId::from_value(close(j)) {
                Some(id) => Some(id),
                None => return None,
            },
        };
        match (id, method) {
            (Some(id), Some(method)) => Some(
                Message::Request(Request { jsonrpc, id, method, params }),
            ),
            (id, _) => match body_from_members(result, error) {
                Some(body) => Some(Message::Response(Response { jsonrpc, id, body })),
                None => None,
            },
        }
    }
}

impl vstd::std_specs::convert::FromSpecImpl<Request> for Message {
    open spec fn obeys_from_spec() -> bool {
        true
    }

    open spec fn from_spec(m: Request) -> Self {
        Message::Request(m)
    }
}

impl From<Request> for Message {
    fn from(m: Request) -> (r: Self) {
        Message::Request(m)
    }
}

impl vstd::std_specs::convert::FromSpecImpl<Response> for Message {
    open spec fn obeys_from_spec() -> bool {
        true
    }

    open spec fn from_spec(m: Response) -> Self {
        Message::Response(m)
    }
}

impl From<Response> for Message {
    fn from(m: Response) -> (r: Self) {
        Message::Response(m)
    }
}

impl vstd::std_specs::convert::FromSpecImpl<Notification> for Message {
    open spec fn obeys_from_spec() -> bool {
        true
    }

    open spec fn from_spec(m: Notification) -> Self {
        Message::Notification(m)
    }
}

impl From<Notification> for Message {
    fn from(m: Notification) -> (r: Self) {
        Message::Notification(m)
    }
}

} // verus!
